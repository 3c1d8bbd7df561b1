//! Where the pages of a column come from: one page reader for each row group, one after the other.
use bytes::Bytes;
use vstd::prelude::*;

use crate::basic::{Encoding, PageType};
use crate::errors::ParquetError;
use crate::page::Page;

verus! {

/// A page of an Ignition column.
#[derive(Debug)]
pub enum IgnitionPage {
    /// The decoder of the data pages that follow.
    Decoder { buffer: Bytes, version: String },
    /// A data page in the mapped file.
    Data { offset: usize, length: usize, num_rows: u32 },
    /// A data page in a memory file.
    MemFdData { buffer: Bytes, num_rows: u32 },
}

/// Whether a page is as the writer of an Ignition column makes it: data pages have its encoding, no
/// levels, and one value in each row; they are compressed in memory, and not in the mapped file.
pub open spec fn readable(page: Page) -> bool {
    match page {
        Page::DataPageV2 {
            num_values,
            encoding,
            num_rows,
            def_levels_byte_len,
            rep_levels_byte_len,
            is_compressed,
            ..
        } => encoding == Encoding::IGNITION && def_levels_byte_len == 0 && rep_levels_byte_len == 0
            && num_rows == num_values && is_compressed,
        Page::MappedDataPageV2 {
            num_values,
            encoding,
            num_rows,
            def_levels_byte_len,
            rep_levels_byte_len,
            is_compressed,
            ..
        } => encoding == Encoding::IGNITION && def_levels_byte_len == 0 && rep_levels_byte_len == 0
            && num_rows == num_values && !is_compressed,
        _ => true,
    }
}

/// Whether a page is as the writer of an Ignition column makes it.
pub fn is_readable(page: &Page) -> (b: bool)
    ensures
        b == readable(*page),
{
    match page {
        Page::DataPageV2 {
            num_values,
            encoding,
            num_rows,
            def_levels_byte_len,
            rep_levels_byte_len,
            is_compressed,
            ..
        } => *encoding == Encoding::IGNITION && *def_levels_byte_len == 0 && *rep_levels_byte_len
            == 0 && *num_rows == *num_values && *is_compressed,
        Page::MappedDataPageV2 {
            num_values,
            encoding,
            num_rows,
            def_levels_byte_len,
            rep_levels_byte_len,
            is_compressed,
            ..
        } => *encoding == Encoding::IGNITION && *def_levels_byte_len == 0 && *rep_levels_byte_len
            == 0 && *num_rows == *num_values && !*is_compressed,
        _ => true,
    }
}

/// What a page is to the reader of an Ignition column. A data page in memory is in a memory file,
/// which has to be known.
pub open spec fn classified(page: Page, mem_fd_known: bool) -> Result<IgnitionPage, ParquetError> {
    match page {
        Page::DataPage { .. } => Err(
            ParquetError::UnexpectedPage { page_type: PageType::DATA_PAGE },
        ),
        Page::DictionaryPage { .. } => Err(
            ParquetError::UnexpectedPage { page_type: PageType::DICTIONARY_PAGE },
        ),
        Page::DecoderPage { buf, version } => Ok(IgnitionPage::Decoder { buffer: buf, version }),
        Page::DataPageV2 { buf, num_rows, .. } => if mem_fd_known {
            Ok(IgnitionPage::MemFdData { buffer: buf, num_rows })
        } else {
            Err(ParquetError::MemFdNotFound)
        },
        Page::MappedDataPageV2 { byte_offset, byte_len, num_rows, .. } => Ok(
            IgnitionPage::Data { offset: byte_offset, length: byte_len, num_rows },
        ),
    }
}

/// Computes `classified`.
pub fn classify_page(page: Page, mem_fd_known: bool) -> (r: Result<IgnitionPage, ParquetError>)
    requires
        readable(page),
    ensures
        r == classified(page, mem_fd_known),
        page matches Page::MappedDataPageV2 { byte_offset, byte_len, num_rows, .. } ==> r == Ok::<
            IgnitionPage,
            ParquetError,
        >(IgnitionPage::Data { offset: byte_offset, length: byte_len, num_rows }),
        page matches Page::DataPageV2 { buf, num_rows, .. } ==> mem_fd_known ==> r == Ok::<
            IgnitionPage,
            ParquetError,
        >(IgnitionPage::MemFdData { buffer: buf, num_rows }),
        page matches Page::DecoderPage { buf, version } ==> r == Ok::<IgnitionPage, ParquetError>(
            IgnitionPage::Decoder { buffer: buf, version },
        ),
{
    match page {
        Page::DataPage { .. } => Err(
            ParquetError::UnexpectedPage { page_type: PageType::DATA_PAGE },
        ),
        Page::DictionaryPage { .. } => Err(
            ParquetError::UnexpectedPage { page_type: PageType::DICTIONARY_PAGE },
        ),
        Page::DecoderPage { buf, version } => Ok(IgnitionPage::Decoder { buffer: buf, version }),
        Page::DataPageV2 { buf, num_rows, .. } => {
            if mem_fd_known {
                Ok(IgnitionPage::MemFdData { buffer: buf, num_rows })
            } else {
                Err(ParquetError::MemFdNotFound)
            }
        },
        Page::MappedDataPageV2 { byte_offset, byte_len, num_rows, .. } => {
            Ok(IgnitionPage::Data { offset: byte_offset, length: byte_len, num_rows })
        },
    }
}

/// What has come of the last demand.
#[derive(Debug)]
pub enum PageEvent {
    /// The next page is asked for.
    Begin,
    /// The page reader of the next row group is there.
    ReaderOpened,
    /// There are no more row groups.
    NoMoreReaders,
    /// The next row group has no page reader.
    ReaderFailed(ParquetError),
    /// A page was read. Of a data page in memory, it was looked up whether its memory file is known.
    PageRead { page: Page, mem_fd_known: bool },
    /// The page reader has no more pages.
    ReaderExhausted,
    /// The page reader failed.
    ReadFailed(ParquetError),
}

/// What is to be done next.
#[derive(Debug)]
pub enum PageDemand {
    /// Open the page reader of the next row group.
    OpenReader,
    /// Read a page from the page reader.
    ReadPage,
    /// The next page is this one.
    Deliver(IgnitionPage),
    /// There are no more pages.
    End,
    /// The next page cannot be had.
    Fail(ParquetError),
}

/// What follows `event`, and whether there is a page reader then.
pub open spec fn next_demand(open: bool, event: PageEvent) -> (PageDemand, bool) {
    match event {
        PageEvent::Begin => (
            if open {
                PageDemand::ReadPage
            } else {
                PageDemand::OpenReader
            },
            open,
        ),
        PageEvent::ReaderOpened => (PageDemand::ReadPage, true),
        PageEvent::NoMoreReaders => (PageDemand::End, open),
        PageEvent::ReaderFailed(e) => (PageDemand::Fail(e), open),
        PageEvent::PageRead { page, mem_fd_known } => (
            match classified(page, mem_fd_known) {
                Ok(p) => PageDemand::Deliver(p),
                Err(e) => PageDemand::Fail(e),
            },
            open,
        ),
        PageEvent::ReaderExhausted => (PageDemand::OpenReader, false),
        PageEvent::ReadFailed(e) => (PageDemand::Fail(e), open),
    }
}

/// Gets the next page of an Ignition column, row group after row group, without regard to what is
/// skipped.
#[derive(Debug)]
pub struct PageCursor {
    /// Whether there is a page reader.
    open: bool,
}

impl View for PageCursor {
    type V = bool;

    closed spec fn view(&self) -> bool {
        self.open
    }
}

impl PageCursor {
    /// A cursor in front of the first row group.
    pub fn new() -> (cursor: Self)
        ensures
            !cursor@,
    {
        PageCursor { open: false }
    }

    /// Goes on towards the next page.
    pub fn get_next_page(&mut self, event: PageEvent) -> (demand: PageDemand)
        requires
            event matches PageEvent::PageRead { page, .. } ==> readable(page),
        ensures
            (demand, final(self)@) == next_demand(old(self)@, event),
    {
        match event {
            PageEvent::Begin => {
                if self.open {
                    PageDemand::ReadPage
                } else {
                    PageDemand::OpenReader
                }
            },
            PageEvent::ReaderOpened => {
                self.open = true;
                PageDemand::ReadPage
            },
            PageEvent::NoMoreReaders => PageDemand::End,
            PageEvent::ReaderFailed(e) => PageDemand::Fail(e),
            PageEvent::PageRead { page, mem_fd_known } => match classify_page(page, mem_fd_known) {
                Ok(p) => PageDemand::Deliver(p),
                Err(e) => PageDemand::Fail(e),
            },
            PageEvent::ReaderExhausted => {
                self.open = false;
                PageDemand::OpenReader
            },
            PageEvent::ReadFailed(e) => PageDemand::Fail(e),
        }
    }
}

/// The pages that a column still holds: those of the open page reader and those of the row groups
/// behind it. Of each page it is said whether its memory file is known.
pub struct PageStream {
    pub open: bool,
    pub current: Seq<(Page, bool)>,
    pub groups: Seq<Seq<(Page, bool)>>,
}

impl PageStream {
    /// The pages in the order in which they come.
    pub open spec fn pages(self) -> Seq<(Page, bool)> {
        if self.open {
            self.current + in_order(self.groups)
        } else {
            in_order(self.groups)
        }
    }
}

/// The pages of the row groups, in order.
pub open spec fn in_order(groups: Seq<Seq<(Page, bool)>>) -> Seq<(Page, bool)>
    decreases groups.len(),
{
    if groups.len() == 0 {
        Seq::empty()
    } else {
        groups[0] + in_order(groups.drop_first())
    }
}

/// What comes of it, starting with `event`, where every demand is answered from `s`: what the cursor
/// ends with, and the pages that are left.
pub open spec fn fetched(event: PageEvent, s: PageStream) -> (PageDemand, PageStream)
    decreases
        s.groups.len(),
        (match event {
            PageEvent::ReaderExhausted => 1nat,
            PageEvent::Begin => 2nat,
            PageEvent::ReaderOpened => 2nat,
            _ => 0nat,
        }),
{
    let (demand, open) = next_demand(s.open, event);
    match demand {
        PageDemand::OpenReader => if s.groups.len() == 0 {
            fetched(PageEvent::NoMoreReaders, PageStream { open, ..s })
        } else {
            fetched(
                PageEvent::ReaderOpened,
                PageStream { open, current: s.groups[0], groups: s.groups.drop_first() },
            )
        },
        PageDemand::ReadPage => if s.current.len() == 0 {
            fetched(PageEvent::ReaderExhausted, PageStream { open, ..s })
        } else {
            fetched(
                PageEvent::PageRead { page: s.current[0].0, mem_fd_known: s.current[0].1 },
                PageStream { open, current: s.current.drop_first(), ..s },
            )
        },
        _ => (demand, PageStream { open, ..s }),
    }
}

/// Asked for the next page, the cursor ends with the first of the pages that the column still holds,
/// whichever row group it is in, and all others are left. Where there is none, it says so.
pub proof fn pages_come_in_order(s: PageStream)
    ensures
        ({
            let (demand, left) = fetched(PageEvent::Begin, s);
            if s.pages().len() == 0 {
                demand is End && left.pages().len() == 0
            } else {
                let (page, mem_fd_known) = s.pages()[0];
                &&& left.pages() == s.pages().drop_first()
                &&& match classified(page, mem_fd_known) {
                    Ok(p) => demand == PageDemand::Deliver(p),
                    Err(e) => demand == PageDemand::Fail(e),
                }
            }
        }),
    decreases s.groups.len(), (if s.open {
        1nat
    } else {
        0nat
    }),
{
    reveal_with_fuel(fetched, 5);
    reveal_with_fuel(in_order, 2);
    if s.open {
        if s.current.len() == 0 {
            let closed = PageStream { open: false, ..s };
            pages_come_in_order(closed);
            assert(s.pages() =~= closed.pages());
        } else {
            let left = PageStream { current: s.current.drop_first(), ..s };
            assert(left.pages() =~= s.pages().drop_first());
        }
    } else if s.groups.len() > 0 {
        let opened = PageStream {
            open: true,
            current: s.groups[0],
            groups: s.groups.drop_first(),
        };
        pages_come_in_order(opened);
        assert(s.pages() =~= opened.pages());
    }
}

/// A page that was read is delivered as what it is: a data page with all of its rows, however many of
/// them are null, at its place in the mapped file or in its memory file, and a decoder with its bytes
/// and its version. Other pages are refused by their kind.
pub proof fn read_pages_are_delivered_whole(open: bool, page: Page, mem_fd_known: bool)
    ensures
        ({
            let (demand, still_open) = next_demand(
                open,
                PageEvent::PageRead { page, mem_fd_known },
            );
            &&& still_open == open
            &&& page matches Page::MappedDataPageV2 { byte_offset, byte_len, num_rows, .. } ==> {
                demand matches PageDemand::Deliver(IgnitionPage::Data {
                    offset: at,
                    length: len,
                    num_rows: rows,
                }) && at == byte_offset && len == byte_len && rows == num_rows
            }
            &&& page matches Page::DataPageV2 { buf, num_rows, .. } ==> if mem_fd_known {
                demand matches PageDemand::Deliver(IgnitionPage::MemFdData {
                    buffer,
                    num_rows: rows,
                }) && buffer == buf && rows == num_rows
            } else {
                demand matches PageDemand::Fail(ParquetError::MemFdNotFound)
            }
            &&& page matches Page::DecoderPage { buf, version } ==> {
                demand matches PageDemand::Deliver(IgnitionPage::Decoder {
                    buffer,
                    version: delivered_version,
                }) && buffer == buf && delivered_version == version
            }
            &&& page is DataPage ==> {
                demand matches PageDemand::Fail(ParquetError::UnexpectedPage { page_type })
                    && page_type == PageType::DATA_PAGE
            }
            &&& page is DictionaryPage ==> {
                demand matches PageDemand::Fail(ParquetError::UnexpectedPage { page_type })
                    && page_type == PageType::DICTIONARY_PAGE
            }
        }),
{
}

/// What goes wrong with a page reader is handed on as it is, and does not change whether there is a
/// page reader. Only the end of a page reader closes it, and only a new one opens it.
pub proof fn failures_are_handed_on(open: bool, e: ParquetError)
    ensures
        next_demand(open, PageEvent::ReaderFailed(e)) == (PageDemand::Fail(e), open),
        next_demand(open, PageEvent::ReadFailed(e)) == (PageDemand::Fail(e), open),
        next_demand(open, PageEvent::NoMoreReaders) == (PageDemand::End, open),
        next_demand(open, PageEvent::ReaderExhausted) == (PageDemand::OpenReader, false),
        next_demand(open, PageEvent::ReaderOpened) == (PageDemand::ReadPage, true),
        next_demand(true, PageEvent::Begin) == (PageDemand::ReadPage, true),
        next_demand(false, PageEvent::Begin) == (PageDemand::OpenReader, false),
{
}

/// The first page that a column still holds is delivered as what it is.
pub proof fn first_page_is_delivered_whole(s: PageStream)
    requires
        s.pages().len() > 0,
    ensures
        ({
            let (page, mem_fd_known) = s.pages()[0];
            let (demand, left) = fetched(PageEvent::Begin, s);
            &&& left.pages() == s.pages().drop_first()
            &&& page matches Page::MappedDataPageV2 { byte_offset, byte_len, num_rows, .. } ==> {
                demand matches PageDemand::Deliver(IgnitionPage::Data {
                    offset: at,
                    length: len,
                    num_rows: rows,
                }) && at == byte_offset && len == byte_len && rows == num_rows
            }
            &&& page matches Page::DataPageV2 { buf, num_rows, .. } ==> (mem_fd_known ==> {
                demand matches PageDemand::Deliver(IgnitionPage::MemFdData {
                    buffer,
                    num_rows: rows,
                }) && buffer == buf && rows == num_rows
            }) && (!mem_fd_known ==> {
                demand matches PageDemand::Fail(ParquetError::MemFdNotFound)
            })
            &&& page matches Page::DecoderPage { buf, version } ==> {
                demand matches PageDemand::Deliver(IgnitionPage::Decoder {
                    buffer,
                    version: delivered_version,
                }) && buffer == buf && delivered_version == version
            }
            &&& page is DataPage || page is DictionaryPage ==> demand is Fail
        }),
{
    pages_come_in_order(s);
}

/// A data page is readable if and only if it has the encoding of Ignition columns, holds no levels
/// and has one value in each row; in memory it has to be compressed, and in the mapped file it must
/// not be. Other pages are told apart later.
pub proof fn readable_pages(page: Page)
    ensures
        page matches Page::MappedDataPageV2 {
            num_values,
            encoding,
            num_rows,
            def_levels_byte_len,
            rep_levels_byte_len,
            is_compressed,
            ..
        } ==> (readable(page) <==> encoding is IGNITION && def_levels_byte_len == 0
            && rep_levels_byte_len == 0 && num_rows == num_values && !is_compressed),
        page matches Page::DataPageV2 {
            num_values,
            encoding,
            num_rows,
            def_levels_byte_len,
            rep_levels_byte_len,
            is_compressed,
            ..
        } ==> (readable(page) <==> encoding is IGNITION && def_levels_byte_len == 0
            && rep_levels_byte_len == 0 && num_rows == num_values && is_compressed),
        page is DataPage || page is DictionaryPage || page is DecoderPage ==> readable(page),
{
}

} // verus!
