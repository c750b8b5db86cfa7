//! The primary's frame log and its snapshot.
//!
//! Frames are numbered from 1 without gaps. The log holds the frames after
//! the compaction boundary; the snapshot holds, encoded, the frames up to it.

use vstd::prelude::*;
use vstd::slice::*;
use crate::frame::{decoded, Frame, FrameError, FrameView, FRAME_HEADER_SIZE};

verus! {

/// A replication epoch of a primary.
#[derive(Clone, Copy, Debug, PartialEq, Eq, Structural)]
pub struct Generation {
    pub id: u128,
    pub start_index: u64,
}

/// Why the log cannot hand out a frame.
#[derive(Clone, Copy, Debug, PartialEq, Eq, Structural)]
pub enum LogReadError {
    /// The frame was compacted away: the reader needs the snapshot.
    SnapshotRequired,
}

/// Why the log refuses a frame.
#[derive(Clone, Copy, Debug, PartialEq, Eq, Structural)]
pub enum AppendError {
    /// The frame does not carry the number that follows the tail.
    OutOfOrder { expected: u64 },
    /// The log ends at the last frame number that it can hold.
    Full,
    /// The page image is too large to encode.
    PayloadTooLarge,
}

/// A frozen run of encoded frames.
#[derive(Debug)]
pub struct Snapshot {
    records: Vec<Vec<u8>>,
}

/// What a run of records yields to a reader that wants the frames from `from`
/// on: the first record that is no frame fails the read, and frames below
/// `from` are passed over.
pub open spec fn frames_from(records: Seq<Seq<u8>>, from: u64) -> Result<Seq<FrameView>, FrameError>
    decreases records.len(),
{
    if records.len() == 0 {
        Ok(Seq::empty())
    } else {
        match frames_from(records.drop_last(), from) {
            Err(e) => Err(e),
            Ok(fs) => match decoded(records.last()) {
                Err(e) => Err(e),
                Ok(f) => if f.frame_no >= from {
                    Ok(fs.push(f))
                } else {
                    Ok(fs)
                },
            },
        }
    }
}

/// Of records that hold the frames 1, 2, 3 and so on, a reader gets the frames
/// from `from` on, in order.
pub proof fn lemma_frames_from_dense(records: Seq<Seq<u8>>, from: u64)
    requires
        forall|i: int|
            0 <= i < records.len() ==> decoded(#[trigger] records[i]) is Ok && decoded(
                records[i],
            )->Ok_0.frame_no == i + 1,
    ensures
        frames_from(records, from) is Ok,
        from <= 1 ==> frames_from(records, from)->Ok_0.len() == records.len(),
        1 <= from <= records.len() + 1 ==> frames_from(records, from)->Ok_0.len() == records.len()
            + 1 - from,
        from > records.len() ==> frames_from(records, from)->Ok_0.len() == 0,
        forall|k: int|
            0 <= k < frames_from(records, from)->Ok_0.len() ==> (#[trigger] frames_from(
                records,
                from,
            )->Ok_0[k]) == decoded(records[k + (if from <= 1 { 0int } else { from - 1 })])->Ok_0,
    decreases records.len(),
{
    if records.len() > 0 {
        let init = records.drop_last();
        assert forall|i: int| 0 <= i < init.len() implies decoded(#[trigger] init[i]) is Ok
            && decoded(init[i])->Ok_0.frame_no == i + 1 by {
            assert(init[i] == records[i]);
        }
        lemma_frames_from_dense(init, from);
        assert(decoded(records.last()) is Ok);
        let fs = frames_from(init, from)->Ok_0;
        let out = frames_from(records, from)->Ok_0;
        let base: int = if from <= 1 { 0int } else { from - 1 };
        assert forall|k: int| 0 <= k < out.len() implies (#[trigger] out[k]) == decoded(
            records[k + base],
        )->Ok_0 by {
            if k < fs.len() {
                assert(out[k] == fs[k]);
                assert(init[k + base] == records[k + base]);
            }
        }
    }
}

impl Snapshot {
    /// The records, each as its bytes.
    pub closed spec fn records(&self) -> Seq<Seq<u8>> {
        Seq::new(self.records@.len(), |i: int| self.records@[i]@)
    }

    /// A snapshot of the given records, in their order.
    pub fn from_records(records: Vec<Vec<u8>>) -> (s: Snapshot)
        ensures
            s.records() == Seq::new(records@.len(), |i: int| records@[i]@),
    {
        Snapshot { records }
    }

    /// How many records the snapshot holds.
    pub fn len(&self) -> (n: usize)
        ensures
            n == self.records().len(),
    {
        self.records.len()
    }

    /// The record at `index`.
    pub fn record(&self, index: usize) -> (r: &[u8])
        requires
            index < self.records().len(),
        ensures
            r@ == self.records()[index as int],
    {
        self.records[index].as_slice()
    }
}

/// The write-ahead log of a primary.
#[derive(Debug)]
pub struct FrameLog {
    generation: Generation,
    database_id: u128,
    boundary: u64,
    frames: Vec<Frame>,
    snapshot: Snapshot,
}

impl FrameLog {
    /// The replication epoch.
    pub closed spec fn generation(&self) -> Generation {
        self.generation
    }

    /// The identity of the database that the log belongs to.
    pub closed spec fn database_id(&self) -> u128 {
        self.database_id
    }

    /// The highest frame number that compaction has moved to the snapshot; 0
    /// before the first compaction.
    pub closed spec fn boundary(&self) -> u64 {
        self.boundary
    }

    /// The frames that the log holds, oldest first.
    pub closed spec fn log_frames(&self) -> Seq<FrameView> {
        Seq::new(self.frames@.len(), |i: int| self.frames@[i]@)
    }

    /// The records of the snapshot, oldest first.
    pub closed spec fn snapshot_records(&self) -> Seq<Seq<u8>> {
        self.snapshot.records()
    }

    /// The highest frame number that was appended; 0 for an empty history.
    pub open spec fn tail(&self) -> int {
        self.boundary() + self.log_frames().len()
    }

    /// The frame numbers that a reader of the log can get.
    pub open spec fn visible(&self) -> Set<int> {
        Set::new(
            |n: int|
                exists|i: int|
                    0 <= i < self.log_frames().len() && #[trigger] self.log_frames()[i].frame_no
                        == n,
        )
    }

    /// Every frame that was ever appended, oldest first: those of the
    /// snapshot, then those of the log.
    pub open spec fn history(&self) -> Seq<FrameView> {
        Seq::new(self.snapshot_records().len(), |i: int| decoded(self.snapshot_records()[i])->Ok_0)
            + self.log_frames()
    }

    /// The log holds the frames after the boundary, each under its number,
    /// and the snapshot holds one record for each frame up to the boundary.
    pub open spec fn wf(&self) -> bool {
        &&& self.tail() < u64::MAX
        &&& self.generation().start_index <= self.tail()
        &&& forall|i: int|
            0 <= i < self.log_frames().len() ==> {
                &&& (#[trigger] self.log_frames()[i]).frame_no == self.boundary() + 1 + i
                &&& self.log_frames()[i].payload.len() + FRAME_HEADER_SIZE <= usize::MAX
            }
        &&& self.snapshot_records().len() == self.boundary()
    }

    /// Whether the snapshot is intact: every record is a frame, under the
    /// number of its place. A snapshot that the log made itself is intact;
    /// one that was read from a store may be damaged.
    pub open spec fn intact(&self) -> bool {
        forall|i: int|
            0 <= i < self.snapshot_records().len() ==> {
                &&& decoded(#[trigger] self.snapshot_records()[i]) is Ok
                &&& decoded(self.snapshot_records()[i])->Ok_0.frame_no == i + 1
            }
    }

    /// The visible frame numbers are those after the boundary up to the tail,
    /// and no others.
    pub proof fn lemma_visible_contiguous(&self)
        requires
            self.wf(),
        ensures
            self.visible() == Set::new(|n: int| self.boundary() < n <= self.tail()),
    {
        let want = Set::new(|n: int| self.boundary() < n <= self.tail());
        assert forall|n: int| self.visible().contains(n) <==> want.contains(n) by {
            if want.contains(n) {
                let i = n - self.boundary() - 1;
                assert(self.log_frames()[i].frame_no == n);
            }
        }
        assert(self.visible() =~= want);
    }

    /// The history of a log with an intact snapshot holds the frames 1 up to
    /// the tail, each at its place.
    pub proof fn lemma_history_dense(&self)
        requires
            self.wf(),
            self.intact(),
        ensures
            self.history().len() == self.tail(),
            forall|i: int|
                0 <= i < self.history().len() ==> (#[trigger] self.history()[i]).frame_no == i + 1,
    {
    }

    /// An empty log in its first generation, which starts at index 0.
    pub fn new(generation_id: u128, database_id: u128) -> (log: FrameLog)
        ensures
            log.wf(),
            log.intact(),
            log.generation() == (Generation { id: generation_id, start_index: 0 }),
            log.database_id() == database_id,
            log.boundary() == 0,
            log.log_frames() == Seq::<FrameView>::empty(),
            log.snapshot_records() == Seq::<Seq<u8>>::empty(),
    {
        let log = FrameLog {
            generation: Generation { id: generation_id, start_index: 0 },
            database_id,
            boundary: 0,
            frames: Vec::new(),
            snapshot: Snapshot { records: Vec::new() },
        };
        assert(log.log_frames() =~= Seq::<FrameView>::empty());
        assert(log.snapshot_records() =~= Seq::<Seq<u8>>::empty());
        log
    }

    /// The log of a primary that starts again from a snapshot of its store:
    /// the snapshot's records stand for the frames up to the boundary, the
    /// log itself is empty, and a new generation starts at the boundary. The
    /// records are taken as they are. There is no such log for more records
    /// than there are frame numbers.
    pub fn restore(generation_id: u128, database_id: u128, snapshot: Snapshot) -> (r: Option<
        FrameLog,
    >)
        ensures
            r is Some <==> snapshot.records().len() < u64::MAX,
            r matches Some(log) ==> {
                &&& log.wf()
                &&& log.generation() == (Generation {
                    id: generation_id,
                    start_index: snapshot.records().len() as u64,
                })
                &&& log.database_id() == database_id
                &&& log.boundary() == snapshot.records().len()
                &&& log.log_frames() == Seq::<FrameView>::empty()
                &&& log.snapshot_records() == snapshot.records()
            },
    {
        let count: usize = snapshot.len();
        if count as u64 == u64::MAX {
            return None;
        }
        let boundary: u64 = count as u64;
        let log = FrameLog {
            generation: Generation { id: generation_id, start_index: boundary },
            database_id,
            boundary,
            frames: Vec::new(),
            snapshot,
        };
        assert(log.log_frames() =~= Seq::<FrameView>::empty());
        Some(log)
    }

    /// Starts a new generation at the tail, as a primary does when it restarts
    /// or is reset. The frames stay.
    pub fn start_generation(&mut self, generation_id: u128)
        requires
            old(self).wf(),
        ensures
            final(self).wf(),
            final(self).generation() == (Generation {
                id: generation_id,
                start_index: old(self).tail() as u64,
            }),
            final(self).database_id() == old(self).database_id(),
            final(self).boundary() == old(self).boundary(),
            final(self).log_frames() == old(self).log_frames(),
            final(self).snapshot_records() == old(self).snapshot_records(),
    {
        let tail: u64 = self.max_available_frame_no();
        self.generation = Generation { id: generation_id, start_index: tail };
    }

    /// The replication epoch.
    pub fn current_generation(&self) -> (g: Generation)
        ensures
            g == self.generation(),
    {
        self.generation
    }

    /// The identity of the database that the log belongs to.
    pub fn current_database_id(&self) -> (id: u128)
        ensures
            id == self.database_id(),
    {
        self.database_id
    }

    /// The highest frame number compacted away; 0 when nothing was.
    pub fn compaction_boundary(&self) -> (b: u64)
        ensures
            b == self.boundary(),
    {
        self.boundary
    }

    /// The highest frame number that the log or its snapshot holds.
    pub fn max_available_frame_no(&self) -> (n: u64)
        requires
            self.wf(),
        ensures
            n == self.tail(),
    {
        let len: u64 = self.frames.len() as u64;
        self.boundary + len
    }

    /// Adds a frame at the tail. The frame must carry the number that follows
    /// the tail; the log is unchanged where it is refused.
    pub fn append(&mut self, frame: Frame) -> (r: Result<u64, AppendError>)
        requires
            old(self).wf(),
        ensures
            final(self).wf(),
            final(self).generation() == old(self).generation(),
            final(self).database_id() == old(self).database_id(),
            final(self).boundary() == old(self).boundary(),
            final(self).snapshot_records() == old(self).snapshot_records(),
            r == if old(self).tail() + 1 == u64::MAX {
                Err::<u64, AppendError>(AppendError::Full)
            } else if frame.frame_no != old(self).tail() + 1 {
                Err(AppendError::OutOfOrder { expected: (old(self).tail() + 1) as u64 })
            } else if frame.payload@.len() + FRAME_HEADER_SIZE > usize::MAX {
                Err(AppendError::PayloadTooLarge)
            } else {
                Ok(frame.frame_no)
            },
            r is Ok ==> final(self).log_frames() == old(self).log_frames().push(frame@),
            r is Ok ==> final(self).history() == old(self).history().push(frame@),
            r is Err ==> final(self).log_frames() == old(self).log_frames(),
    {
        let tail: u64 = self.max_available_frame_no();
        if tail == u64::MAX - 1 {
            return Err(AppendError::Full);
        }
        if frame.frame_no != tail + 1 {
            return Err(AppendError::OutOfOrder { expected: tail + 1 });
        }
        if frame.payload.len() > usize::MAX - FRAME_HEADER_SIZE {
            return Err(AppendError::PayloadTooLarge);
        }
        let frame_no: u64 = frame.frame_no;
        let ghost before = self.log_frames();
        let ghost added = frame@;
        let ghost history = self.history();
        self.frames.push(frame);
        assert(self.log_frames() =~= before.push(added));
        assert(self.history() =~= history.push(added));
        Ok(frame_no)
    }

    /// The frame that follows frame number `current`, as a reader of the log
    /// sees it: the snapshot is required where that frame was compacted away,
    /// and there is none past the tail.
    pub fn frame_after(&self, current: u64) -> (r: Result<Option<&Frame>, LogReadError>)
        requires
            self.wf(),
        ensures
            current < self.boundary() <==> r == Err::<Option<&Frame>, LogReadError>(
                LogReadError::SnapshotRequired,
            ),
            current >= self.tail() <==> r == Ok::<Option<&Frame>, LogReadError>(None),
            self.boundary() <= current < self.tail() ==> r is Ok && r->Ok_0 is Some && r->Ok_0->0@
                == self.log_frames()[current - self.boundary()] && r->Ok_0->0.frame_no == current
                + 1 && r->Ok_0->0.wf(),
    {
        if current < self.boundary {
            return Err(LogReadError::SnapshotRequired);
        }
        let at: u64 = current - self.boundary;
        let len: u64 = self.frames.len() as u64;
        if at >= len {
            return Ok(None);
        }
        let frame = &self.frames[at as usize];
        assert(frame@ == self.log_frames()[at as int]);
        Ok(Some(frame))
    }

    /// Up to `limit` frames from frame number `offset` on, in order. Offset 0
    /// reads as 1. The snapshot is required where `offset` lies at or below
    /// the boundary.
    pub fn stream_from(&self, offset: u64, limit: usize) -> (r: Result<Vec<Frame>, LogReadError>)
        requires
            self.wf(),
        ensures
            r is Err <==> read_start(offset) <= self.boundary(),
            r matches Ok(frames) ==> {
                &&& frames@.len() == stream_len(
                    self.tail(),
                    read_start(offset) as int,
                    limit as int,
                )
                &&& forall|k: int|
                    0 <= k < frames@.len() ==> (#[trigger] frames@[k])@ == self.log_frames()[
                    read_start(offset) - 1 - self.boundary() + k] && frames@[k].wf()
            },
    {
        let start: u64 = if offset == 0 {
            1
        } else {
            offset
        };
        if start <= self.boundary {
            return Err(LogReadError::SnapshotRequired);
        }
        let mut out: Vec<Frame> = Vec::new();
        let mut current: u64 = start - 1;
        let tail: u64 = self.max_available_frame_no();
        while out.len() < limit && current < tail
            invariant
                self.wf(),
                tail == self.tail(),
                start == read_start(offset),
                start > self.boundary(),
                start - 1 <= current,
                current <= tail || out@.len() == 0,
                out@.len() == current - (start - 1),
                out@.len() <= limit,
                forall|k: int|
                    0 <= k < out@.len() ==> (#[trigger] out@[k])@ == self.log_frames()[start - 1
                        - self.boundary() + k] && out@[k].wf(),
            decreases tail - current,
        {
            match self.frame_after(current) {
                Ok(Some(frame)) => {
                    out.push(frame.duplicate());
                    current = current + 1;
                },
                _ => {
                    assert(false);
                },
            }
        }
        Ok(out)
    }

    /// The snapshot that a reader needs who wants the frames from `from` on:
    /// there is one where `from` lies at or below the boundary.
    pub fn get_snapshot(&self, from: u64) -> (s: Option<&Snapshot>)
        ensures
            s is Some <==> from <= self.boundary() && self.boundary() > 0,
            s matches Some(snapshot) ==> snapshot.records() == self.snapshot_records(),
    {
        if self.boundary > 0 && from <= self.boundary {
            Some(&self.snapshot)
        } else {
            None
        }
    }

    /// Whether the log has grown past `max_log_size` frames.
    pub fn should_compact(&self, max_log_size: usize) -> (b: bool)
        ensures
            b == (self.log_frames().len() > max_log_size),
    {
        self.frames.len() > max_log_size
    }

    /// Moves the frames up to `through` from the log to the snapshot and
    /// returns the new boundary. `through` is the lowest frame number that
    /// every active replica has acknowledged: compaction goes no further, nor
    /// past the tail, and never back. No frame is lost.
    pub fn compact(&mut self, through: u64) -> (boundary: u64)
        requires
            old(self).wf(),
        ensures
            final(self).wf(),
            old(self).intact() ==> final(self).intact(),
            boundary == final(self).boundary(),
            boundary == compaction_target(old(self).boundary(), old(self).tail(), through),
            final(self).tail() == old(self).tail(),
            final(self).history() == old(self).history(),
            final(self).generation() == old(self).generation(),
            final(self).database_id() == old(self).database_id(),
            final(self).log_frames() == old(self).log_frames().skip(boundary - old(self).boundary()),
    {
        let tail: u64 = self.max_available_frame_no();
        let target: u64 = if through <= self.boundary {
            self.boundary
        } else if through >= tail {
            tail
        } else {
            through
        };
        let len: usize = self.frames.len();
        let distance: u64 = target - self.boundary;
        assert(distance <= len);
        let count: usize = distance as usize;
        let ghost before = *self;
        let mut i: usize = 0;
        while i < count
            invariant
                before.wf(),
                i <= count,
                count == target - before.boundary(),
                count <= before.log_frames().len(),
                self.frames == before.frames,
                self.boundary == before.boundary,
                self.generation == before.generation,
                self.database_id == before.database_id,
                self.snapshot_records().len() == before.boundary() + i,
                forall|k: int|
                    0 <= k < before.boundary() ==> (#[trigger] self.snapshot_records()[k])
                        == before.snapshot_records()[k],
                forall|k: int|
                    0 <= k < i ==> decoded(
                        #[trigger] self.snapshot_records()[before.boundary() + k],
                    ) == Ok::<FrameView, FrameError>(before.log_frames()[k]),
            decreases count - i,
        {
            let ghost records_before = self.snapshot_records();
            let frame = &self.frames[i];
            assert(frame@ == before.log_frames()[i as int]);
            let bytes: Vec<u8> = frame.to_bytes();
            self.snapshot.records.push(bytes);
            assert(self.snapshot_records() =~= records_before.push(bytes@));
            i += 1;
        }
        let rest: Vec<Frame> = self.frames.split_off(count);
        self.frames = rest;
        self.boundary = target;
        assert(self.log_frames() =~= before.log_frames().skip(count as int));
        assert forall|i: int| 0 <= i < self.log_frames().len() implies (
        #[trigger] self.log_frames()[i]).frame_no == self.boundary() + 1 + i
            && self.log_frames()[i].payload.len() + FRAME_HEADER_SIZE <= usize::MAX by {
            assert(self.log_frames()[i] == before.log_frames()[i + count]);
        }
        assert forall|i: int|
            before.intact() && 0 <= i < self.snapshot_records().len() implies decoded(
            #[trigger] self.snapshot_records()[i],
        ) is Ok && decoded(self.snapshot_records()[i])->Ok_0.frame_no == i + 1 by {
            if i < before.boundary() {
                assert(self.snapshot_records()[i] == before.snapshot_records()[i]);
            } else {
                let k = i - before.boundary();
                assert(decoded(self.snapshot_records()[before.boundary() + k]) == Ok::<
                    FrameView,
                    FrameError,
                >(before.log_frames()[k]));
            }
        }
        assert(self.history().len() == before.history().len());
        assert forall|j: int| 0 <= j < self.history().len() implies self.history()[j]
            == before.history()[j] by {
            if j < before.boundary() {
                assert(self.snapshot_records()[j] == before.snapshot_records()[j]);
            } else if j < target {
                let k = j - before.boundary();
                assert(decoded(self.snapshot_records()[before.boundary() + k]) == Ok::<
                    FrameView,
                    FrameError,
                >(before.log_frames()[k]));
            }
        }
        assert(self.history() =~= before.history());
        target
    }
}

/// Where a read starts that was asked to start at `offset`: frame numbers
/// start at 1.
pub open spec fn read_start(offset: u64) -> u64 {
    if offset == 0 {
        1
    } else {
        offset
    }
}

/// How many frames a read of at most `limit` frames from `start` on yields
/// from a log that ends at `tail`.
pub open spec fn stream_len(tail: int, start: int, limit: int) -> int {
    if start > tail {
        0
    } else if tail - start + 1 < limit {
        tail - start + 1
    } else {
        limit
    }
}

/// The boundary after a compaction through `through`: no further than
/// `through`, not past the tail, never back.
pub open spec fn compaction_target(boundary: u64, tail: int, through: u64) -> int {
    if through <= boundary {
        boundary as int
    } else if through >= tail {
        tail
    } else {
        through as int
    }
}

} // verus!
