//! Which rows of a column are read and which are skipped, and how a batch comes about from the pages
//! that hold them.
use vstd::prelude::*;

verus! {

/// A number of rows that are all read or all skipped.
#[derive(Clone, Copy, Debug, PartialEq, Eq, Structural)]
pub struct RowSelector {
    pub row_count: usize,
    pub skip: bool,
}

impl RowSelector {
    /// Selects `row_count` rows.
    pub fn select(row_count: usize) -> (s: Self)
        ensures
            s == (RowSelector { row_count, skip: false }),
    {
        RowSelector { row_count, skip: false }
    }

    /// Skips `row_count` rows.
    pub fn skip(row_count: usize) -> (s: Self)
        ensures
            s == (RowSelector { row_count, skip: true }),
    {
        RowSelector { row_count, skip: true }
    }
}

/// The first `n` of the rows, or all where there are fewer.
pub open spec fn front<R>(rows: Seq<R>, n: nat) -> Seq<R> {
    if n <= rows.len() {
        rows.take(n as int)
    } else {
        rows
    }
}

/// The rows behind the first `n`.
pub open spec fn behind<R>(rows: Seq<R>, n: nat) -> Seq<R> {
    if n <= rows.len() {
        rows.skip(n as int)
    } else {
        Seq::empty()
    }
}

/// How many rows a selection goes over.
pub open spec fn total(selection: Seq<RowSelector>) -> nat
    decreases selection.len(),
{
    if selection.len() == 0 {
        0
    } else {
        selection[0].row_count as nat + total(selection.drop_first())
    }
}

/// How many rows a selection selects.
pub open spec fn selected_count(selection: Seq<RowSelector>) -> nat
    decreases selection.len(),
{
    if selection.len() == 0 {
        0
    } else {
        let rest = selected_count(selection.drop_first());
        if selection[0].skip {
            rest
        } else {
            selection[0].row_count as nat + rest
        }
    }
}

/// The rows that a selection selects, as far as there are rows.
pub open spec fn selected<R>(selection: Seq<RowSelector>, rows: Seq<R>) -> Seq<R>
    decreases selection.len(),
{
    if selection.len() == 0 {
        Seq::empty()
    } else {
        let n = selection[0].row_count as nat;
        let rest = selected(selection.drop_first(), behind(rows, n));
        if selection[0].skip {
            rest
        } else {
            front(rows, n) + rest
        }
    }
}

/// A selection with `n` more rows. Where the last selector is of the same kind it grows by them, and
/// a selector for them follows all the same.
pub open spec fn with_records(selection: Seq<RowSelector>, n: usize, skip: bool) -> Seq<
    RowSelector,
> {
    let grown = if selection.len() > 0 && selection.last().skip == skip {
        selection.update(
            selection.len() - 1,
            RowSelector { row_count: (selection.last().row_count + n) as usize, skip },
        )
    } else {
        selection
    };
    grown.push(RowSelector { row_count: n, skip })
}

/// How far a batch is.
pub struct Progress<R> {
    /// The rows that are in the batch.
    pub out: Seq<R>,
    /// What is still to be read and skipped.
    pub pending: Seq<RowSelector>,
    /// The rows of the last page that are not used up.
    pub leftovers: Option<Seq<R>>,
    /// How many rows of the next pages are to be skipped.
    pub skip_front: nat,
}

impl<R> Progress<R> {
    /// Leftovers are not empty, and while there are some nothing of the next pages is to be
    /// skipped yet.
    pub open spec fn wf(self) -> bool {
        self.leftovers matches Some(l) ==> l.len() > 0 && self.skip_front == 0
    }

    /// The rows that come next, where the next pages hold `rows`.
    pub open spec fn ahead(self, rows: Seq<R>) -> Seq<R> {
        match self.leftovers {
            Some(l) => l + rows,
            None => behind(rows, self.skip_front),
        }
    }

    /// Whether rows of another page are needed: rows are to be read, and there are no leftovers.
    pub open spec fn needs_page(self) -> bool {
        self.pending.len() > 0 && self.leftovers is None && !self.pending[0].skip
            && self.pending[0].row_count > 0
    }

    /// The batch that comes about where the next pages hold `rows`.
    pub open spec fn batch(self, rows: Seq<R>) -> Seq<R> {
        self.out + selected(self.pending, self.ahead(rows))
    }

    /// The rows that come after the batch where the next pages hold `rows`.
    pub open spec fn after(self, rows: Seq<R>) -> Seq<R> {
        behind(self.ahead(rows), total(self.pending))
    }
}

/// `p` as far as it gets without another page: leftovers are used up first, and what is to be
/// skipped beyond them is left for the next pages.
pub open spec fn drained<R>(p: Progress<R>) -> Progress<R>
    decreases p.pending.len(), (if p.leftovers is Some {
        1nat
    } else {
        0nat
    }),
{
    if p.pending.len() == 0 {
        p
    } else {
        let s = p.pending[0];
        let rest = p.pending.drop_first();
        match p.leftovers {
            _ if s.row_count == 0 => drained(Progress { pending: rest, ..p }),
            Some(l) if l.len() > s.row_count => drained(
                Progress {
                    out: if s.skip {
                        p.out
                    } else {
                        p.out + l.take(s.row_count as int)
                    },
                    pending: rest,
                    leftovers: Some(l.skip(s.row_count as int)),
                    ..p
                },
            ),
            Some(l) => drained(
                Progress {
                    out: if s.skip {
                        p.out
                    } else {
                        p.out + l
                    },
                    pending: seq![
                        RowSelector { row_count: (s.row_count - l.len()) as usize, skip: s.skip },
                    ] + rest,
                    leftovers: None,
                    ..p
                },
            ),
            None if s.skip => drained(
                Progress { pending: rest, skip_front: p.skip_front + s.row_count as nat, ..p },
            ),
            None => p,
        }
    }
}

/// `p` after a page with `rows` of which the first `start` were to be skipped. Rows that are all
/// wanted go to the batch; otherwise they are leftovers.
pub open spec fn with_decoded<R>(p: Progress<R>, rows: Seq<R>, start: nat) -> Progress<R> {
    let fresh = rows.skip(start as int);
    let s = p.pending[0];
    if s.row_count >= fresh.len() {
        Progress {
            out: p.out + fresh,
            pending: p.pending.update(
                0,
                RowSelector { row_count: (s.row_count - fresh.len()) as usize, skip: s.skip },
            ),
            ..p
        }
    } else {
        Progress { leftovers: Some(fresh), ..p }
    }
}

/// `p` after a page with `rows`. A page that is to be skipped as a whole is not decoded.
pub open spec fn with_page<R>(p: Progress<R>, rows: Seq<R>) -> Progress<R> {
    if p.skip_front >= rows.len() {
        Progress { skip_front: (p.skip_front - rows.len()) as nat, ..p }
    } else {
        with_decoded(Progress { skip_front: 0, ..p }, rows, p.skip_front)
    }
}

/// `p` after as many of `pages` as it needs, and how many those are.
pub open spec fn run<R>(p: Progress<R>, pages: Seq<Seq<R>>) -> (Progress<R>, nat)
    decreases pages.len(),
{
    let d = drained(p);
    if d.pending.len() == 0 || pages.len() == 0 {
        (d, 0)
    } else {
        let (end, used) = run(with_page(d, pages[0]), pages.drop_first());
        (end, used + 1)
    }
}

/// The rows of all pages.
pub open spec fn all_rows<R>(pages: Seq<Seq<R>>) -> Seq<R>
    decreases pages.len(),
{
    if pages.len() == 0 {
        Seq::empty()
    } else {
        pages[0] + all_rows(pages.drop_first())
    }
}

proof fn lemma_behind_twice<R>(rows: Seq<R>, m: nat, n: nat)
    ensures
        behind(behind(rows, m), n) == behind(rows, m + n),
{
    assert(behind(behind(rows, m), n) =~= behind(rows, m + n));
}

/// Going as far as it gets without another page changes neither the batch that comes about nor the
/// rows that come after it.
pub proof fn draining_keeps_batch<R>(p: Progress<R>, rows: Seq<R>)
    requires
        p.wf(),
    ensures
        drained(p).wf(),
        drained(p).batch(rows) == p.batch(rows),
        drained(p).after(rows) == p.after(rows),
        drained(p).pending.len() == 0 || drained(p).needs_page(),
    decreases p.pending.len(), (if p.leftovers is Some {
        1nat
    } else {
        0nat
    }),
{
    if p.pending.len() > 0 {
        let s = p.pending[0];
        let rest = p.pending.drop_first();
        let n = s.row_count as nat;
        let ahead = p.ahead(rows);
        lemma_behind_twice(ahead, n, total(rest));
        if s.row_count == 0 {
            let q = Progress { pending: rest, ..p };
            assert(behind(ahead, 0) =~= ahead);
            assert(front(ahead, 0) =~= Seq::<R>::empty());
            assert(q.batch(rows) =~= p.batch(rows));
            draining_keeps_batch(q, rows);
        } else if let Some(l) = p.leftovers {
            if l.len() > s.row_count {
                let q = Progress {
                    out: if s.skip {
                        p.out
                    } else {
                        p.out + l.take(s.row_count as int)
                    },
                    pending: rest,
                    leftovers: Some(l.skip(s.row_count as int)),
                    ..p
                };
                assert(q.ahead(rows) =~= behind(ahead, n));
                assert(front(ahead, n) =~= l.take(s.row_count as int));
                assert(q.batch(rows) =~= p.batch(rows));
                draining_keeps_batch(q, rows);
            } else {
                let m = (s.row_count - l.len()) as usize;
                let q = Progress {
                    out: if s.skip {
                        p.out
                    } else {
                        p.out + l
                    },
                    pending: seq![RowSelector { row_count: m, skip: s.skip }] + rest,
                    leftovers: None,
                    ..p
                };
                assert(q.pending.drop_first() =~= rest);
                assert(q.ahead(rows) =~= rows);
                assert(behind(rows, m as nat) =~= behind(ahead, n));
                assert(front(ahead, n) =~= l + front(rows, m as nat));
                lemma_behind_twice(rows, m as nat, total(rest));
                assert(q.batch(rows) =~= p.batch(rows));
                draining_keeps_batch(q, rows);
            }
        } else if s.skip {
            let q = Progress { pending: rest, skip_front: p.skip_front + n, ..p };
            lemma_behind_twice(rows, p.skip_front, n);
            assert(q.ahead(rows) == behind(ahead, n));
            assert(q.batch(rows) =~= p.batch(rows));
            draining_keeps_batch(q, rows);
        }
    }
}

/// Going as far as it gets without another page only adds rows to the batch.
pub proof fn draining_adds_rows<R>(p: Progress<R>)
    ensures
        p.out.is_prefix_of(drained(p).out),
    decreases p.pending.len(), (if p.leftovers is Some {
        1nat
    } else {
        0nat
    }),
{
    if p.pending.len() > 0 {
        let s = p.pending[0];
        let rest = p.pending.drop_first();
        if s.row_count == 0 {
            draining_adds_rows(Progress { pending: rest, ..p });
        } else if let Some(l) = p.leftovers {
            if l.len() > s.row_count {
                draining_adds_rows(
                    Progress {
                        out: if s.skip {
                            p.out
                        } else {
                            p.out + l.take(s.row_count as int)
                        },
                        pending: rest,
                        leftovers: Some(l.skip(s.row_count as int)),
                        ..p
                    },
                );
            } else {
                draining_adds_rows(
                    Progress {
                        out: if s.skip {
                            p.out
                        } else {
                            p.out + l
                        },
                        pending: seq![
                            RowSelector {
                                row_count: (s.row_count - l.len()) as usize,
                                skip: s.skip,
                            },
                        ] + rest,
                        leftovers: None,
                        ..p
                    },
                );
            }
        } else if s.skip {
            draining_adds_rows(
                Progress { pending: rest, skip_front: p.skip_front + s.row_count as nat, ..p },
            );
        }
    }
}

/// Where rows are only skipped, the batch is finished without another page and gets no rows.
pub proof fn skips_add_nothing<R>(p: Progress<R>)
    requires
        forall|i: int|
            0 <= i < p.pending.len() ==> (#[trigger] p.pending[i]).skip || p.pending[i].row_count
                == 0,
    ensures
        drained(p).out == p.out,
        drained(p).pending.len() == 0,
    decreases p.pending.len(), (if p.leftovers is Some {
        1nat
    } else {
        0nat
    }),
{
    if p.pending.len() > 0 {
        let s = p.pending[0];
        let rest = p.pending.drop_first();
        assert forall|i: int| 0 <= i < rest.len() implies (#[trigger] rest[i]).skip
            || rest[i].row_count == 0 by {
            assert(rest[i] == p.pending[i + 1]);
        }
        if s.row_count == 0 {
            skips_add_nothing(Progress { pending: rest, ..p });
        } else if let Some(l) = p.leftovers {
            if l.len() > s.row_count {
                skips_add_nothing(
                    Progress {
                        pending: rest,
                        leftovers: Some(l.skip(s.row_count as int)),
                        ..p
                    },
                );
            } else {
                skips_add_nothing(
                    Progress {
                        pending: seq![
                            RowSelector {
                                row_count: (s.row_count - l.len()) as usize,
                                skip: s.skip,
                            },
                        ] + rest,
                        leftovers: None,
                        ..p
                    },
                );
            }
        } else {
            skips_add_nothing(
                Progress { pending: rest, skip_front: p.skip_front + s.row_count as nat, ..p },
            );
        }
    }
}

/// Taking in a page changes neither the batch that comes about nor the rows that come after it.
pub proof fn page_keeps_batch<R>(p: Progress<R>, page: Seq<R>, rows: Seq<R>)
    requires
        p.wf(),
        p.needs_page(),
    ensures
        with_page(p, page).wf(),
        with_page(p, page).batch(rows) == p.batch(page + rows),
        with_page(p, page).after(rows) == p.after(page + rows),
{
    let q = with_page(p, page);
    let ahead = p.ahead(page + rows);
    if p.skip_front >= page.len() {
        assert(q.ahead(rows) =~= ahead);
    } else {
        let fresh = page.skip(p.skip_front as int);
        let s = p.pending[0];
        let rest = p.pending.drop_first();
        let n = s.row_count as nat;
        assert(ahead =~= fresh + rows);
        if s.row_count >= fresh.len() {
            let m = (n - fresh.len()) as nat;
            assert(q.pending.drop_first() =~= rest);
            assert(q.ahead(rows) =~= rows);
            assert(behind(rows, m) =~= behind(ahead, n));
            assert(front(ahead, n) =~= fresh + front(rows, m));
            lemma_behind_twice(rows, m, total(rest));
            lemma_behind_twice(ahead, n, total(rest));
            assert(q.batch(rows) =~= p.batch(page + rows));
        } else {
            assert(q.ahead(rows) =~= ahead);
        }
    }
}

/// A batch that is finished holds exactly the rows that its selection selects among the rows that
/// come next, in their order; the rows behind the selection are those that come next after it.
pub proof fn finished_batch_is_selection<R>(p: Progress<R>, pages: Seq<Seq<R>>)
    requires
        p.wf(),
    ensures
        run(p, pages).1 <= pages.len(),
        run(p, pages).0.wf(),
        run(p, pages).0.pending.len() == 0 ==> {
            let (end, used) = run(p, pages);
            let left = all_rows(pages.skip(used as int));
            &&& end.out == p.out + selected(p.pending, p.ahead(all_rows(pages)))
            &&& end.ahead(left) == behind(p.ahead(all_rows(pages)), total(p.pending))
        },
    decreases pages.len(),
{
    let d = drained(p);
    draining_keeps_batch(p, all_rows(pages));
    if d.pending.len() == 0 || pages.len() == 0 {
        assert(pages.skip(0) =~= pages);
        if d.pending.len() == 0 {
            assert(d.out =~= d.batch(all_rows(pages)));
            assert(behind(d.ahead(all_rows(pages)), 0) =~= d.ahead(all_rows(pages)));
        }
    } else {
        let q = with_page(d, pages[0]);
        let rest = pages.drop_first();
        page_keeps_batch(d, pages[0], all_rows(rest));
        finished_batch_is_selection(q, rest);
        let used = run(q, rest).1;
        assert(rest.skip(used as int) =~= pages.skip(used as int + 1));
    }
}

/// Whether the next pages, with `rows` in all, hold as many rows as are still to be read and skipped.
pub open spec fn has_room<R>(p: Progress<R>, rows: Seq<R>) -> bool {
    total(p.pending) <= p.ahead(rows).len()
}

proof fn lemma_drained_has_room<R>(p: Progress<R>, rows: Seq<R>)
    requires
        p.wf(),
        has_room(p, rows),
    ensures
        has_room(drained(p), rows),
    decreases p.pending.len(), (if p.leftovers is Some {
        1nat
    } else {
        0nat
    }),
{
    if p.pending.len() > 0 {
        let s = p.pending[0];
        let rest = p.pending.drop_first();
        if s.row_count == 0 {
            lemma_drained_has_room(Progress { pending: rest, ..p }, rows);
        } else if let Some(l) = p.leftovers {
            if l.len() > s.row_count {
                let q = Progress {
                    out: if s.skip {
                        p.out
                    } else {
                        p.out + l.take(s.row_count as int)
                    },
                    pending: rest,
                    leftovers: Some(l.skip(s.row_count as int)),
                    ..p
                };
                lemma_drained_has_room(q, rows);
            } else {
                let m = (s.row_count - l.len()) as usize;
                let q = Progress {
                    out: if s.skip {
                        p.out
                    } else {
                        p.out + l
                    },
                    pending: seq![RowSelector { row_count: m, skip: s.skip }] + rest,
                    leftovers: None,
                    ..p
                };
                assert(q.pending.drop_first() =~= rest);
                lemma_drained_has_room(q, rows);
            }
        } else if s.skip {
            lemma_drained_has_room(
                Progress { pending: rest, skip_front: p.skip_front + s.row_count as nat, ..p },
                rows,
            );
        }
    }
}

proof fn lemma_page_leaves_room<R>(p: Progress<R>, page: Seq<R>, rows: Seq<R>)
    requires
        p.wf(),
        p.needs_page(),
        has_room(p, page + rows),
    ensures
        has_room(with_page(p, page), rows),
{
    assert(with_page(p, page).pending.drop_first() =~= p.pending.drop_first());
}

proof fn lemma_finishes<R>(p: Progress<R>, pages: Seq<Seq<R>>)
    requires
        p.wf(),
        has_room(p, all_rows(pages)),
    ensures
        run(p, pages).0.pending.len() == 0,
    decreases pages.len(),
{
    let d = drained(p);
    let rows = all_rows(pages);
    lemma_drained_has_room(p, rows);
    draining_keeps_batch(p, rows);
    if d.pending.len() > 0 && pages.len() > 0 {
        let rest = pages.drop_first();
        page_keeps_batch(d, pages[0], all_rows(rest));
        lemma_page_leaves_room(d, pages[0], all_rows(rest));
        lemma_finishes(with_page(d, pages[0]), rest);
    }
}

proof fn lemma_selected_len<R>(selection: Seq<RowSelector>, rows: Seq<R>)
    requires
        total(selection) <= rows.len(),
    ensures
        selected(selection, rows).len() == selected_count(selection),
    decreases selection.len(),
{
    if selection.len() > 0 {
        lemma_selected_len(selection.drop_first(), behind(rows, selection[0].row_count as nat));
    }
}

/// A batch is finished where the rows that come next are as many as its selection goes over, and
/// then as many rows are added to it as the selection selects.
pub proof fn batch_finishes<R>(p: Progress<R>, pages: Seq<Seq<R>>)
    requires
        p.wf(),
        has_room(p, all_rows(pages)),
    ensures
        run(p, pages).0.pending.len() == 0,
        run(p, pages).0.out.len() == p.out.len() + selected_count(p.pending),
{
    lemma_finishes(p, pages);
    finished_batch_is_selection(p, pages);
    lemma_selected_len(p.pending, p.ahead(all_rows(pages)));
}

/// Skipping `m` rows and reading `n` selects the `n` rows behind the first `m`.
pub proof fn skip_then_read<R>(rows: Seq<R>, m: usize, n: usize)
    requires
        m + n <= rows.len(),
    ensures
        selected(with_records(with_records(Seq::empty(), m, true), n, false), rows)
            == rows.subrange(m as int, m + n),
{
    let selection = with_records(with_records(Seq::empty(), m, true), n, false);
    let skip = RowSelector { row_count: m, skip: true };
    let read = RowSelector { row_count: n, skip: false };
    assert(selection =~= seq![skip, read]);
    assert(selection.drop_first() =~= seq![read]);
    assert(seq![read].drop_first() =~= Seq::<RowSelector>::empty());
    let rest = behind(rows, m as nat);
    assert(selected(Seq::<RowSelector>::empty(), behind(rest, n as nat)) =~= Seq::<R>::empty());
    assert(selected(seq![read], rest) =~= front(rest, n as nat));
    assert(selected(selection, rows) =~= rows.subrange(m as int, m + n));
}

/// Records that are read or skipped add as many rows to a selection, unless the last selector is of
/// the same kind: it grows by them too, so that they count twice.
pub proof fn records_are_counted(selection: Seq<RowSelector>, n: usize, skip: bool)
    requires
        selection.len() > 0 && selection.last().skip == skip ==> selection.last().row_count + n
            <= usize::MAX,
    ensures
        total(with_records(selection, n, skip)) == total(selection) + if selection.len() > 0
            && selection.last().skip == skip {
            2 * n
        } else {
            n as int
        },
{
    if selection.len() > 0 && selection.last().skip == skip {
        let grown = selection.update(
            selection.len() - 1,
            RowSelector { row_count: (selection.last().row_count + n) as usize, skip },
        );
        assert(grown.drop_last() =~= selection.drop_last());
        lemma_total_last(selection);
        lemma_total_last(grown);
    }
    let all = with_records(selection, n, skip);
    lemma_total_last(all);
    assert(all.drop_last().push(all.last()) =~= all);
    if !(selection.len() > 0 && selection.last().skip == skip) {
        assert(all.drop_last() =~= selection);
    } else {
        assert(all.drop_last() =~= selection.update(
            selection.len() - 1,
            RowSelector { row_count: (selection.last().row_count + n) as usize, skip },
        ));
    }
}

pub(crate) proof fn lemma_total_last(selection: Seq<RowSelector>)
    requires
        selection.len() > 0,
    ensures
        total(selection) == total(selection.drop_last()) + selection.last().row_count,
    decreases selection.len(),
{
    if selection.len() > 1 {
        lemma_total_last(selection.drop_first());
        assert(selection.drop_first().drop_last() =~= selection.drop_last().drop_first());
    } else {
        assert(selection.drop_first() =~= selection.drop_last());
    }
}

/// A selector that selects rows takes as many from the front, one that skips takes none, and what
/// follows goes on behind them.
pub proof fn selectors_take_or_leave_rows<R>(
    row_count: usize,
    skip: bool,
    rest: Seq<RowSelector>,
    rows: Seq<R>,
)
    requires
        row_count <= rows.len(),
    ensures
        selected(Seq::<RowSelector>::empty(), rows) == Seq::<R>::empty(),
        skip ==> selected(seq![RowSelector { row_count, skip }] + rest, rows) == selected(
            rest,
            rows.skip(row_count as int),
        ),
        !skip ==> selected(seq![RowSelector { row_count, skip }] + rest, rows) == rows.take(
            row_count as int,
        ) + selected(rest, rows.skip(row_count as int)),
        total(Seq::<RowSelector>::empty()) == 0,
        total(seq![RowSelector { row_count, skip }] + rest) == row_count + total(rest),
        selected_count(Seq::<RowSelector>::empty()) == 0,
        selected_count(seq![RowSelector { row_count, skip }] + rest) == selected_count(rest)
            + if skip {
            0
        } else {
            row_count as int
        },
{
    let s = RowSelector { row_count, skip };
    assert((seq![s] + rest).drop_first() =~= rest);
    assert((seq![s] + rest)[0] == s);
}

/// Where there are fewer rows than a selector selects, it takes all of them.
pub proof fn selectors_end_with_the_rows<R>(row_count: usize, rows: Seq<R>)
    requires
        rows.len() <= row_count,
    ensures
        selected(seq![RowSelector { row_count, skip: false }], rows) == rows,
        selected(seq![RowSelector { row_count, skip: true }], rows) == Seq::<R>::empty(),
{
    let read = seq![RowSelector { row_count, skip: false }];
    let skip = seq![RowSelector { row_count, skip: true }];
    assert(read.drop_first() =~= Seq::<RowSelector>::empty());
    assert(skip.drop_first() =~= Seq::<RowSelector>::empty());
    assert(rows.take(rows.len() as int) =~= rows);
    assert(rows + Seq::<R>::empty() =~= rows);
    let left = behind(rows, row_count as nat);
    assert(selected(Seq::<RowSelector>::empty(), left) =~= Seq::<R>::empty());
    assert(selected(read.drop_first(), left) == Seq::<R>::empty());
    assert(selected(skip.drop_first(), left) == Seq::<R>::empty());
}

/// Records that are asked for follow as a selector of their own. If the last request was of the same
/// kind, its selector grows by them too. The others stay as they are.
pub proof fn requests_add_selectors(selection: Seq<RowSelector>, n: usize, skip: bool)
    requires
        selection.len() > 0 && selection.last().skip == skip ==> selection.last().row_count + n
            <= usize::MAX,
    ensures
        ({
            let after = with_records(selection, n, skip);
            let k = selection.len() as int;
            &&& after.len() == k + 1
            &&& after[k].row_count == n && after[k].skip == skip
            &&& forall|i: int| 0 <= i < k - 1 ==> #[trigger] after[i] == selection[i]
            &&& k > 0 ==> after[k - 1].skip == selection[k - 1].skip
            &&& k > 0 && selection[k - 1].skip == skip ==> after[k - 1].row_count
                == selection[k - 1].row_count + n
            &&& k > 0 && selection[k - 1].skip != skip ==> after[k - 1] == selection[k - 1]
        }),
{
}

/// The rows of a column are those of its pages, one page behind the other.
pub proof fn rows_are_those_of_the_pages<R>(first: Seq<R>, pages: Seq<Seq<R>>)
    ensures
        all_rows(Seq::<Seq<R>>::empty()) == Seq::<R>::empty(),
        all_rows(seq![first] + pages) == first + all_rows(pages),
{
    assert((seq![first] + pages).drop_first() =~= pages);
}

/// A batch that starts with nothing left over and nothing to be skipped, and is finished, holds what
/// its selection selects of the rows of the pages, and it took no more pages than it needed.
pub proof fn fresh_batches_are_selections<R>(pending: Seq<RowSelector>, pages: Seq<Seq<R>>)
    ensures
        ({
            let p = Progress { out: Seq::empty(), pending, leftovers: None, skip_front: 0 };
            let (end, used) = run(p, pages);
            &&& used <= pages.len()
            &&& end.pending.len() == 0 ==> end.out == selected(pending, all_rows(pages))
            &&& total(pending) <= all_rows(pages).len() ==> end.pending.len() == 0 && end.out.len()
                == selected_count(pending)
        }),
{
    let p = Progress { out: Seq::<R>::empty(), pending, leftovers: None, skip_front: 0 };
    let rows = all_rows(pages);
    finished_batch_is_selection(p, pages);
    assert(behind(rows, 0) =~= rows);
    assert(Seq::<R>::empty() + selected(pending, rows) =~= selected(pending, rows));
    if total(pending) <= rows.len() {
        batch_finishes(p, pages);
    }
}

/// What comes next is what is left over and then the pages, or where nothing is left over the pages
/// without the rows that are to be skipped of them. The batch is what it has and what is selected of
/// that, and what comes after it is the rest.
pub proof fn rows_ahead<R>(p: Progress<R>, rows: Seq<R>)
    ensures
        p.leftovers matches Some(l) ==> p.ahead(rows) == l + rows,
        p.leftovers is None && p.skip_front <= rows.len() ==> p.ahead(rows) == rows.skip(
            p.skip_front as int,
        ),
        p.leftovers is None && p.skip_front > rows.len() ==> p.ahead(rows).len() == 0,
        p.batch(rows) == p.out + selected(p.pending, p.ahead(rows)),
        total(p.pending) <= p.ahead(rows).len() ==> p.after(rows) == p.ahead(rows).skip(
            total(p.pending) as int,
        ),
        total(p.pending) > p.ahead(rows).len() ==> p.after(rows).len() == 0,
        p.needs_page() <==> p.pending.len() > 0 && p.leftovers is None && !p.pending[0].skip
            && p.pending[0].row_count > 0,
{
}

} // verus!
