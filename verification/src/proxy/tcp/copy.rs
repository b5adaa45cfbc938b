//! Copying one direction of a TCP connection.

use vstd::prelude::*;

use crate::metrics::MetricEvent;
use crate::proxy::tcp::{Dir, End};

verus! {

/// Relay buffer size, per direction: how much is read at once.
pub const BUF_SIZE: usize = 16 * 1024;

/// What one direction is doing.
enum CopyPhase {
    /// Waiting for bytes to read, or to be cancelled.
    Reading,
    /// Writing these bytes.
    Writing(Vec<u8>),
    /// Ended.
    Ended(End),
}

/// What happens to one direction.
pub enum CopyEvent {
    /// The connection was cancelled while waiting for bytes.
    Cancelled,
    /// These bytes were read; none at the end of the stream.
    Read(Vec<u8>),
    /// The read failed.
    ReadFailed,
    /// What was read has been written in full.
    Written,
    /// The write failed.
    WriteFailed,
}

/// What to do next.
#[derive(Clone, Copy, Debug, PartialEq, Eq, Structural)]
pub enum CopyAction {
    /// Wait for bytes to read, or to be cancelled.
    Read,
    /// Note that bytes moved now, and write those that are pending.
    Write,
    /// Report the end of the direction; where `shut_writer`, half-close the peer's write
    /// side first.
    Finish { end: End, shut_writer: bool },
    /// Nothing: the event was not one that this phase waits for.
    Ignore,
}

/// Copies one direction until EOF, error, or cancellation.
pub struct CopyLoop {
    dir: Dir,
    total: u64,
    phase: CopyPhase,
}

// ── Model ────────────────────────────────────────────────────────────────────

/// What one direction is doing, as a value.
pub enum CopyStage {
    Reading,
    Writing(Seq<u8>),
    Ended(End),
}

/// One direction as a value.
pub struct CopyView {
    pub dir: Dir,
    /// Bytes copied so far: those that arrived on the other side.
    pub total: nat,
    pub stage: CopyStage,
}

impl View for CopyLoop {
    type V = CopyView;

    closed spec fn view(&self) -> CopyView {
        CopyView {
            dir: self.dir,
            total: self.total as nat,
            stage: match self.phase {
                CopyPhase::Reading => CopyStage::Reading,
                CopyPhase::Writing(data) => CopyStage::Writing(data@),
                CopyPhase::Ended(end) => CopyStage::Ended(end),
            },
        }
    }
}

impl CopyView {
    /// A direction that has copied nothing yet.
    pub open spec fn fresh(dir: Dir) -> CopyView {
        CopyView { dir, total: 0, stage: CopyStage::Reading }
    }

    /// The bytes that the event brings in.
    pub open spec fn taken(self, event: CopyEvent) -> Seq<u8> {
        match (self.stage, event) {
            (CopyStage::Reading, CopyEvent::Read(data)) => data@,
            _ => Seq::empty(),
        }
    }

    /// The bytes that the event shows to have arrived on the other side.
    pub open spec fn delivered(self, event: CopyEvent) -> Seq<u8> {
        match (self.stage, event) {
            (CopyStage::Writing(data), CopyEvent::Written) => data,
            _ => Seq::empty(),
        }
    }

    /// What to do on an event.
    pub open spec fn action(self, event: CopyEvent) -> CopyAction {
        match (self.stage, event) {
            (CopyStage::Reading, CopyEvent::Cancelled) => CopyAction::Finish {
                end: End::Eof,
                shut_writer: false,
            },
            (CopyStage::Reading, CopyEvent::Read(data)) => if data@.len() == 0 {
                CopyAction::Finish { end: End::Eof, shut_writer: true }
            } else {
                CopyAction::Write
            },
            (CopyStage::Reading, CopyEvent::ReadFailed) => CopyAction::Finish {
                end: End::Error,
                shut_writer: true,
            },
            (CopyStage::Writing(_), CopyEvent::Written) => CopyAction::Read,
            (CopyStage::Writing(_), CopyEvent::WriteFailed) => CopyAction::Finish {
                end: End::Error,
                shut_writer: false,
            },
            _ => CopyAction::Ignore,
        }
    }

    /// The direction after an event.
    pub open spec fn after(self, event: CopyEvent) -> CopyView {
        CopyView {
            dir: self.dir,
            total: self.total + self.delivered(event).len(),
            stage: match self.action(event) {
                CopyAction::Read => CopyStage::Reading,
                CopyAction::Write => CopyStage::Writing(self.taken(event)),
                CopyAction::Finish { end, .. } => CopyStage::Ended(end),
                CopyAction::Ignore => self.stage,
            },
        }
    }

    /// What the event adds to the metrics: bytes count once they are written.
    pub open spec fn counted(self, event: CopyEvent) -> Option<MetricEvent> {
        match (self.stage, event) {
            (CopyStage::Writing(data), CopyEvent::Written) => Some(
                MetricEvent::Relayed(self.dir, data.len() as u64),
            ),
            _ => None,
        }
    }
}

// ── Copy loop ────────────────────────────────────────────────────────────────

impl CopyLoop {
    /// A direction that has copied nothing yet.
    pub fn new(dir: Dir) -> (r: CopyLoop)
        ensures
            r@ == CopyView::fresh(dir),
    {
        CopyLoop { dir, total: 0, phase: CopyPhase::Reading }
    }

    /// Bytes copied so far: those that arrived on the other side.
    pub fn total(&self) -> (r: u64)
        ensures
            r == self@.total,
    {
        self.total
    }

    /// The bytes to write: those of the last read, until they are written.
    pub fn pending(&self) -> (r: Option<&Vec<u8>>)
        ensures
            match r {
                Some(data) => self@.stage == CopyStage::Writing(data@),
                None => !(self@.stage is Writing),
            },
    {
        match &self.phase {
            CopyPhase::Writing(data) => Some(data),
            _ => None,
        }
    }

    /// Take an event in. Returns what to do next and what to count. The byte count must be
    /// able to hold what was written.
    pub fn on_event(&mut self, event: CopyEvent) -> (r: (CopyAction, Option<MetricEvent>))
        requires
            old(self)@.total + old(self)@.delivered(event).len() <= u64::MAX,
        ensures
            r.0 == old(self)@.action(event),
            r.1 == old(self)@.counted(event),
            final(self)@ == old(self)@.after(event),
    {
        match (&self.phase, event) {
            (CopyPhase::Reading, CopyEvent::Cancelled) => {
                self.phase = CopyPhase::Ended(End::Eof);
                (CopyAction::Finish { end: End::Eof, shut_writer: false }, None)
            },
            (CopyPhase::Reading, CopyEvent::Read(data)) => {
                if data.len() == 0 {
                    // Clean EOF: half-close the peer's write side.
                    self.phase = CopyPhase::Ended(End::Eof);
                    (CopyAction::Finish { end: End::Eof, shut_writer: true }, None)
                } else {
                    self.phase = CopyPhase::Writing(data);
                    (CopyAction::Write, None)
                }
            },
            (CopyPhase::Reading, CopyEvent::ReadFailed) => {
                self.phase = CopyPhase::Ended(End::Error);
                (CopyAction::Finish { end: End::Error, shut_writer: true }, None)
            },
            (CopyPhase::Writing(data), CopyEvent::Written) => {
                let n = data.len() as u64;
                self.total = self.total + n;
                self.phase = CopyPhase::Reading;
                (CopyAction::Read, Some(MetricEvent::Relayed(self.dir, n)))
            },
            (CopyPhase::Writing(_), CopyEvent::WriteFailed) => {
                self.phase = CopyPhase::Ended(End::Error);
                (CopyAction::Finish { end: End::Error, shut_writer: false }, None)
            },
            _ => (CopyAction::Ignore, None),
        }
    }
}

// ── Laws ─────────────────────────────────────────────────────────────────────

impl CopyView {
    /// The direction after a history of events.
    pub open spec fn after_all(self, events: Seq<CopyEvent>) -> CopyView
        decreases events.len(),
    {
        if events.len() == 0 {
            self
        } else {
            self.after_all(events.drop_last()).after(events.last())
        }
    }

    /// All bytes that a history brings in, in order.
    pub open spec fn all_taken(self, events: Seq<CopyEvent>) -> Seq<u8>
        decreases events.len(),
    {
        if events.len() == 0 {
            Seq::empty()
        } else {
            self.all_taken(events.drop_last()) + self.after_all(events.drop_last()).taken(
                events.last(),
            )
        }
    }

    /// All bytes that a history shows to have arrived on the other side, in order.
    pub open spec fn all_delivered(self, events: Seq<CopyEvent>) -> Seq<u8>
        decreases events.len(),
    {
        if events.len() == 0 {
            Seq::empty()
        } else {
            self.all_delivered(events.drop_last()) + self.after_all(
                events.drop_last(),
            ).delivered(events.last())
        }
    }

    /// All bytes that a history counts in the metrics.
    pub open spec fn all_counted(self, events: Seq<CopyEvent>) -> nat
        decreases events.len(),
    {
        if events.len() == 0 {
            0
        } else {
            self.all_counted(events.drop_last()) + match self.after_all(
                events.drop_last(),
            ).counted(events.last()) {
                Some(MetricEvent::Relayed(_, n)) => n as nat,
                _ => 0,
            }
        }
    }
}

/// Bytes pass through untouched: whatever happens, what has arrived on the other side is
/// what was read, in order, less what is being written now. Where the direction ended
/// cleanly nothing is missing; where it ended with an error, what arrived is the beginning
/// of what was read. The bytes copied are those that arrived.
pub proof fn law_bytes_pass_untouched(dir: Dir, events: Seq<CopyEvent>)
    ensures
        ({
            let start = CopyView::fresh(dir);
            let taken = start.all_taken(events);
            let delivered = start.all_delivered(events);
            &&& start.after_all(events).total == delivered.len()
            &&& match start.after_all(events).stage {
                CopyStage::Reading => taken == delivered,
                CopyStage::Writing(data) => taken == delivered + data,
                CopyStage::Ended(End::Eof) => taken == delivered,
                CopyStage::Ended(End::Error) => delivered.is_prefix_of(taken),
            }
        }),
    decreases events.len(),
{
    let start = CopyView::fresh(dir);
    if events.len() > 0 {
        let init = events.drop_last();
        law_bytes_pass_untouched(dir, init);
        let before = start.after_all(init);
        let taken = start.all_taken(events);
        let delivered = start.all_delivered(events);
        if before.taken(events.last()).len() == 0 {
            assert(taken =~= start.all_taken(init));
        }
        if before.delivered(events.last()).len() == 0 {
            assert(delivered =~= start.all_delivered(init));
        }
        match before.stage {
            CopyStage::Writing(data) => {
                assert(start.all_delivered(init).is_prefix_of(start.all_delivered(init) + data));
            },
            _ => {},
        }
    }
}

/// Every byte that arrived on the other side is counted, once.
pub proof fn law_every_delivered_byte_is_counted(dir: Dir, events: Seq<CopyEvent>)
    ensures
        CopyView::fresh(dir).all_counted(events) == CopyView::fresh(dir).all_delivered(
            events,
        ).len(),
    decreases events.len(),
{
    if events.len() > 0 {
        law_every_delivered_byte_is_counted(dir, events.drop_last());
        lemma_chunk_fits(dir, events.drop_last());
    }
}

/// What is being written came from one read, so its length is one of memory.
proof fn lemma_chunk_fits(dir: Dir, events: Seq<CopyEvent>)
    ensures
        CopyView::fresh(dir).after_all(events).stage matches CopyStage::Writing(data)
            ==> data.len() <= usize::MAX,
    decreases events.len(),
{
    if events.len() > 0 {
        lemma_chunk_fits(dir, events.drop_last());
        match events.last() {
            CopyEvent::Read(data) => {
                assert(data@.len() == data.len());
            },
            _ => {},
        }
    }
}

impl CopyView {
    /// How often a history reports the end of the direction.
    pub open spec fn ends_reported(self, events: Seq<CopyEvent>) -> nat
        decreases events.len(),
    {
        if events.len() == 0 {
            0
        } else {
            self.ends_reported(events.drop_last()) + if self.after_all(events.drop_last()).action(
                events.last(),
            ) is Finish {
                1nat
            } else {
                0
            }
        }
    }

    /// Whether a read or a write failed in a history, while the direction waited for it.
    pub open spec fn fails(self, events: Seq<CopyEvent>) -> bool
        decreases events.len(),
    {
        events.len() > 0 && (self.fails(events.drop_last()) || {
            let before = self.after_all(events.drop_last());
            ||| before.stage is Reading && events.last() is ReadFailed
            ||| before.stage is Writing && events.last() is WriteFailed
        })
    }
}

/// The end of a direction is reported exactly once, when it ends, and it is reported as an
/// error exactly where a read or a write failed.
pub proof fn law_end_is_reported_once(dir: Dir, events: Seq<CopyEvent>)
    ensures
        ({
            let start = CopyView::fresh(dir);
            let stage = start.after_all(events).stage;
            &&& start.ends_reported(events) == if stage is Ended {
                1nat
            } else {
                0
            }
            &&& start.fails(events) <==> stage == CopyStage::Ended(End::Error)
        }),
    decreases events.len(),
{
    if events.len() > 0 {
        law_end_is_reported_once(dir, events.drop_last());
    }
}

/// The peer's write side is half-closed at the end of the stream and after a failed read,
/// not after a failed write or a cancellation; and bytes that were read, and nothing else,
/// are activity.
pub proof fn law_half_close_and_activity(copy: CopyView, event: CopyEvent)
    ensures
        copy.action(event) matches CopyAction::Finish { end, shut_writer } ==> {
            &&& shut_writer <==> event is Read || event is ReadFailed
            &&& copy.after(event).stage == CopyStage::Ended(end)
        },
        copy.action(event) == CopyAction::Write <==> copy.taken(event).len() > 0,
{
}

/// A direction that has ended stays ended and does nothing more.
pub proof fn law_ended_copy_stays_ended(copy: CopyView, events: Seq<CopyEvent>)
    requires
        copy.stage is Ended,
    ensures
        copy.after_all(events) == copy,
        copy.all_taken(events) == Seq::<u8>::empty(),
        copy.all_delivered(events) == Seq::<u8>::empty(),
    decreases events.len(),
{
    if events.len() > 0 {
        law_ended_copy_stays_ended(copy, events.drop_last());
        assert(copy.all_taken(events) =~= Seq::<u8>::empty());
        assert(copy.all_delivered(events) =~= Seq::<u8>::empty());
    }
}

/// Cancelling counts as a clean end, and so does the end of the stream; only a failed read
/// or write counts as an error.
pub proof fn law_only_failures_are_errors(copy: CopyView, event: CopyEvent)
    ensures
        copy.action(event) matches CopyAction::Finish { end, .. } ==> {
            end == End::Error <==> event is ReadFailed || event is WriteFailed
        },
{
}

/// What one step does: bytes that were read are written next, all of them and no others;
/// once written, they count; and nothing else moves bytes.
pub proof fn law_step_moves_the_bytes_read(copy: CopyView, event: CopyEvent)
    ensures
        copy.after(event).dir == copy.dir,
        copy.stage is Reading ==> (event matches CopyEvent::Read(data) ==> {
            &&& data@.len() > 0 ==> {
                &&& copy.after(event).stage == CopyStage::Writing(data@)
                &&& copy.action(event) == CopyAction::Write
            }
            &&& data@.len() == 0 ==> {
                &&& copy.after(event).stage == CopyStage::Ended(End::Eof)
                &&& copy.action(event) == (CopyAction::Finish { end: End::Eof, shut_writer: true })
            }
            &&& copy.after(event).total == copy.total
            &&& copy.taken(event) == data@
        }),
        copy.stage is Reading && event is ReadFailed ==> {
            &&& copy.after(event).stage == CopyStage::Ended(End::Error)
            &&& copy.action(event) == (CopyAction::Finish { end: End::Error, shut_writer: true })
        },
        copy.stage is Reading && event is Cancelled ==> {
            &&& copy.after(event).stage == CopyStage::Ended(End::Eof)
            &&& copy.action(event) == (CopyAction::Finish { end: End::Eof, shut_writer: false })
        },
        copy.stage matches CopyStage::Writing(data) ==> {
            &&& event is Written ==> {
                &&& copy.after(event).stage is Reading
                &&& copy.action(event) == CopyAction::Read
                &&& copy.delivered(event) == data
                &&& copy.after(event).total == copy.total + data.len()
                &&& data.len() <= u64::MAX ==> (copy.counted(event) matches Some(
                    MetricEvent::Relayed(dir, n),
                ) && dir == copy.dir && n == data.len())
            }
            &&& event is WriteFailed ==> {
                &&& copy.after(event).stage == CopyStage::Ended(End::Error)
                &&& copy.action(event) == (CopyAction::Finish {
                    end: End::Error,
                    shut_writer: false,
                })
            }
            &&& !(event is Written) && !(event is WriteFailed) ==> copy.after(event) == copy
                && copy.action(event) == CopyAction::Ignore
        },
        !(copy.stage is Writing && event is Written) ==> {
            &&& copy.delivered(event).len() == 0
            &&& copy.after(event).total == copy.total
            &&& copy.counted(event) is None
        },
        copy.stage is Reading && (event is Written || event is WriteFailed) ==> copy.after(event)
            == copy && copy.action(event) == CopyAction::Ignore,
        copy.stage is Ended ==> copy.after(event) == copy && copy.action(event)
            == CopyAction::Ignore,
{
}

/// The data of all reads of a history, one after the other.
pub open spec fn data_read(events: Seq<CopyEvent>) -> Seq<u8>
    decreases events.len(),
{
    if events.len() == 0 {
        Seq::empty()
    } else {
        match events.last() {
            CopyEvent::Read(data) => data_read(events.drop_last()) + data@,
            _ => data_read(events.drop_last()),
        }
    }
}

/// Whether each read of a history comes when the direction waits for one.
pub open spec fn reads_are_awaited(start: CopyView, events: Seq<CopyEvent>) -> bool
    decreases events.len(),
{
    events.len() == 0 || {
        &&& reads_are_awaited(start, events.drop_last())
        &&& events.last() is Read ==> start.after_all(events.drop_last()).stage is Reading
    }
}

/// What arrives on the other side is the data of the reads, in order and whole: all of it
/// while the direction waits for the next read and after a clean end, all but the chunk
/// being written while it writes, and its beginning after an error.
pub proof fn law_what_arrives_is_what_was_read(dir: Dir, events: Seq<CopyEvent>)
    requires
        reads_are_awaited(CopyView::fresh(dir), events),
    ensures
        ({
            let start = CopyView::fresh(dir);
            let arrived = start.all_delivered(events);
            match start.after_all(events).stage {
                CopyStage::Reading => arrived == data_read(events),
                CopyStage::Writing(data) => arrived + data == data_read(events) && data.len() > 0,
                CopyStage::Ended(End::Eof) => arrived == data_read(events),
                CopyStage::Ended(End::Error) => arrived.is_prefix_of(data_read(events)),
            }
        }),
        CopyView::fresh(dir).all_taken(events) == data_read(events),
    decreases events.len(),
{
    let start = CopyView::fresh(dir);
    law_bytes_pass_untouched(dir, events);
    if events.len() > 0 {
        let init = events.drop_last();
        law_what_arrives_is_what_was_read(dir, init);
        let before = start.after_all(init);
        law_step_moves_the_bytes_read(before, events.last());
        if !(events.last() is Read) {
            assert(before.taken(events.last()) =~= Seq::<u8>::empty());
            assert(start.all_taken(events) =~= start.all_taken(init));
        }
    }
}

/// The history of a direction on which these chunks are read and written one by one.
pub open spec fn chunk_by_chunk(chunks: Seq<Vec<u8>>) -> Seq<CopyEvent>
    decreases chunks.len(),
{
    if chunks.len() == 0 {
        Seq::empty()
    } else {
        chunk_by_chunk(chunks.drop_last()).push(CopyEvent::Read(chunks.last())).push(
            CopyEvent::Written,
        )
    }
}

/// The bytes of some chunks, one after the other.
pub open spec fn bytes_of(chunks: Seq<Vec<u8>>) -> Seq<u8>
    decreases chunks.len(),
{
    if chunks.len() == 0 {
        Seq::empty()
    } else {
        bytes_of(chunks.drop_last()) + chunks.last()@
    }
}

/// However many chunks of whatever length are relayed, the other side gets all their bytes
/// in order, and as many are counted.
pub proof fn law_chunks_arrive_in_full(dir: Dir, chunks: Seq<Vec<u8>>)
    requires
        forall|i: int| 0 <= i < chunks.len() ==> (#[trigger] chunks[i])@.len() > 0,
    ensures
        ({
            let start = CopyView::fresh(dir);
            let events = chunk_by_chunk(chunks);
            &&& start.after_all(events).stage is Reading
            &&& start.all_delivered(events) == bytes_of(chunks)
            &&& start.after_all(events).total == bytes_of(chunks).len()
            &&& start.all_counted(events) == bytes_of(chunks).len()
        }),
    decreases chunks.len(),
{
    let start = CopyView::fresh(dir);
    let events = chunk_by_chunk(chunks);
    law_every_delivered_byte_is_counted(dir, events);
    if chunks.len() > 0 {
        let init = chunks.drop_last();
        assert forall|i: int| 0 <= i < init.len() implies (#[trigger] init[i])@.len() > 0 by {
            assert(init[i] == chunks[i]);
        }
        law_chunks_arrive_in_full(dir, init);
        let before = chunk_by_chunk(init);
        let read = before.push(CopyEvent::Read(chunks.last()));
        assert(chunks[chunks.len() - 1]@.len() > 0);
        assert(events.drop_last() =~= read);
        assert(read.drop_last() =~= before);
        law_step_moves_the_bytes_read(start.after_all(before), CopyEvent::Read(chunks.last()));
        law_step_moves_the_bytes_read(start.after_all(read), CopyEvent::Written);
        assert(start.all_delivered(read) =~= start.all_delivered(before));
    }
}

/// Sixteen kibibytes are read at once at most.
pub proof fn law_buffer_is_sixteen_kibibytes()
    ensures
        BUF_SIZE == 16 * 1024,
{
}

} // verus!
