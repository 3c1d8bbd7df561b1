//! The bytes on their way to the file.
use vstd::prelude::*;

verus! {

/// Takes the bytes of a column chunk and counts them.
///
/// The bytes are kept until they are taken out with `take_pending`, to be written to the file.
#[derive(Debug)]
pub struct TrackedWrite {
    pending: Vec<u8>,
    bytes_written: usize,
}

/// A sink as a value: what it has not handed on yet, and how much it was given in all.
#[verifier::ext_equal]
pub struct SinkModel {
    pub pending: Seq<u8>,
    pub bytes_written: usize,
}

impl SinkModel {
    /// The sink after it was given `bytes`.
    pub open spec fn with(self, bytes: Seq<u8>) -> Self {
        SinkModel {
            pending: self.pending + bytes,
            bytes_written: (self.bytes_written + bytes.len()) as usize,
        }
    }
}

impl View for TrackedWrite {
    type V = SinkModel;

    closed spec fn view(&self) -> SinkModel {
        SinkModel { pending: self.pending@, bytes_written: self.bytes_written }
    }
}

impl TrackedWrite {
    /// A sink at the start of a file.
    pub fn new() -> (sink: Self)
        ensures
            sink@ == (SinkModel { pending: Seq::empty(), bytes_written: 0 }),
    {
        let sink = TrackedWrite { pending: Vec::new(), bytes_written: 0 };
        assert(sink@ =~= SinkModel { pending: Seq::empty(), bytes_written: 0 });
        sink
    }

    /// A sink behind `bytes_written` bytes that are already in the file.
    pub fn at(bytes_written: usize) -> (sink: Self)
        ensures
            sink@ == (SinkModel { pending: Seq::empty(), bytes_written }),
    {
        let sink = TrackedWrite { pending: Vec::new(), bytes_written };
        assert(sink@ =~= SinkModel { pending: Seq::empty(), bytes_written });
        sink
    }

    /// How many bytes the sink was given in all.
    pub fn bytes_written(&self) -> (n: usize)
        ensures
            n == self@.bytes_written,
    {
        self.bytes_written
    }

    /// Gives `bytes` to the sink.
    pub fn write_all(&mut self, bytes: &[u8])
        requires
            old(self)@.bytes_written + bytes.len() <= usize::MAX,
        ensures
            final(self)@ == old(self)@.with(bytes@),
            final(self)@.pending == old(self)@.pending + bytes@,
            final(self)@.bytes_written == old(self)@.bytes_written + bytes.len(),
    {
        let ghost start = self.pending@;
        self.pending.extend_from_slice(bytes);
        self.bytes_written = self.bytes_written + bytes.len();
        assert(self.pending@ =~= start + bytes@);
    }

    /// Takes out the bytes that were not taken out before.
    pub fn take_pending(&mut self) -> (bytes: Vec<u8>)
        ensures
            bytes@ == old(self)@.pending,
            final(self)@ == (SinkModel { pending: Seq::empty(), ..old(self)@ }),
    {
        let mut bytes: Vec<u8> = Vec::new();
        std::mem::swap(&mut bytes, &mut self.pending);
        assert(self@ =~= SinkModel { pending: Seq::empty(), ..old(self)@ });
        bytes
    }
}

/// A sink keeps what it is given, behind what it has, and counts it.
pub proof fn sinks_keep_and_count(sink: SinkModel, bytes: Seq<u8>)
    requires
        sink.bytes_written + bytes.len() <= usize::MAX,
    ensures
        sink.with(bytes).pending == sink.pending + bytes,
        sink.with(bytes).bytes_written == sink.bytes_written + bytes.len(),
{
}

} // verus!
