//! The replica's side of replication: what it has applied, what it asks for
//! next, and what it does with each answer of its primary.

use vstd::prelude::*;
use crate::frame::{Frame, FrameView};
use crate::log::{lemma_frames_from_dense, read_start, FrameLog, Generation};
use crate::replication::{
    MAX_FRAMES_IN_SINGLE_RESPONSE, capped, lemma_answer_is_bounded, frames_response, handle_frames, log_run, snapshot_frames, Frames,
    FramesRequest, FramesResponse, FramesResponseView, Hello, ReplicationHandlerState,
};

verus! {

/// Why a replica refuses a frame.
#[derive(Clone, Copy, Debug, PartialEq, Eq, Structural)]
pub enum ApplyError {
    /// The frame is not newer than the last one applied.
    Stale { frame_no: u64, last_applied: u64 },
}

/// What a primary's greeting meant to the replica.
#[derive(Clone, Copy, Debug, PartialEq, Eq, Structural)]
pub enum HandshakeOutcome {
    /// The replica had no generation yet and took the primary's.
    FirstContact,
    /// The primary is in the generation that the replica knows.
    SameGeneration,
    /// The primary is in another generation: the replica dropped its frames
    /// past the start of that generation and goes on from `last_applied`.
    Resync { last_applied: u64 },
}

/// What a replica does after an answer.
#[derive(Clone, Copy, Debug, PartialEq, Eq, Structural)]
pub enum PullAction {
    /// Frames were applied: ask for more at once.
    PullAgain,
    /// Nothing new: wait, then ask again.
    Wait,
    /// The primary failed: wait longer with each failure in a row, then ask
    /// again.
    RetryAfterError { failures: u32 },
    /// The primary refused the request for good, with this status.
    GiveUp { status: u16 },
    /// An answer held a frame that the replica cannot apply.
    Rejected(ApplyError),
}

/// The shortest wait after a failure of the primary, in milliseconds.
pub const BACKOFF_BASE_MS: u64 = 100;

/// The longest wait after a failure of the primary, before the jitter, in
/// milliseconds.
pub const BACKOFF_CAP_MS: u64 = 10_000;

/// How long a replica waits after `failures` failures in a row, in
/// milliseconds: the shortest wait, doubled with each failure after the
/// first up to the longest wait, plus a part of the shortest wait that
/// `jitter` picks.
pub open spec fn backoff_ms(failures: u32, jitter: u64) -> int {
    let doubled = if failures == 0 {
        0int
    } else if failures >= 8 {
        BACKOFF_CAP_MS as int
    } else {
        BACKOFF_BASE_MS * vstd::arithmetic::power2::pow2((failures - 1) as nat)
    };
    doubled + jitter % BACKOFF_BASE_MS
}

/// How long a replica waits after `failures` failures in a row, in
/// milliseconds. `jitter` is any number, drawn at random, that spreads the
/// replicas.
pub fn backoff_delay_ms(failures: u32, jitter: u64) -> (delay: u64)
    ensures
        delay == backoff_ms(failures, jitter),
        delay < BACKOFF_CAP_MS + BACKOFF_BASE_MS,
{
    let spread: u64 = jitter % BACKOFF_BASE_MS;
    if failures == 0 {
        return spread;
    }
    if failures >= 8 {
        return BACKOFF_CAP_MS + spread;
    }
    let mut doubled: u64 = BACKOFF_BASE_MS;
    let mut i: u32 = 1;
    proof {
        vstd::arithmetic::power2::lemma2_to64();
    }
    while i < failures
        invariant
            1 <= i <= failures < 8,
            doubled == BACKOFF_BASE_MS * vstd::arithmetic::power2::pow2((i - 1) as nat),
            doubled <= BACKOFF_BASE_MS * 64,
        decreases failures - i,
    {
        proof {
            vstd::arithmetic::power2::lemma2_to64();
            vstd::arithmetic::power2::lemma_pow2_unfold(i as nat);
        }
        doubled = doubled * 2;
        i = i + 1;
    }
    doubled + spread
}

/// The state of a replica after it was offered `frames` in order, starting
/// from `last_applied`: the last frame number applied, and the refusal that
/// stopped it, if one did. A frame is applied if it is newer than the last.
pub open spec fn apply_run(last_applied: u64, frames: Seq<FrameView>) -> (u64, Option<ApplyError>)
    decreases frames.len(),
{
    if frames.len() == 0 {
        (last_applied, None)
    } else if frames[0].frame_no <= last_applied {
        (last_applied, Some(ApplyError::Stale { frame_no: frames[0].frame_no, last_applied }))
    } else {
        apply_run(frames[0].frame_no, frames.skip(1))
    }
}

/// A run of frames numbered without gaps from `last_applied + 1` on is
/// applied whole.
pub proof fn lemma_apply_dense(last_applied: u64, frames: Seq<FrameView>)
    requires
        last_applied + frames.len() <= u64::MAX,
        forall|k: int| 0 <= k < frames.len() ==> (#[trigger] frames[k]).frame_no == last_applied + 1 + k,
    ensures
        apply_run(last_applied, frames) == ((last_applied + frames.len()) as u64, None::<ApplyError>),
    decreases frames.len(),
{
    if frames.len() > 0 {
        let rest = frames.skip(1);
        assert forall|k: int| 0 <= k < rest.len() implies (#[trigger] rest[k]).frame_no
            == frames[0].frame_no + 1 + k by {
            assert(rest[k] == frames[k + 1]);
        }
        lemma_apply_dense(frames[0].frame_no, rest);
    }
}

/// Applying frames never moves a replica back.
pub proof fn lemma_apply_monotone(last_applied: u64, frames: Seq<FrameView>)
    ensures
        apply_run(last_applied, frames).0 >= last_applied,
    decreases frames.len(),
{
    if frames.len() > 0 && frames[0].frame_no > last_applied {
        lemma_apply_monotone(frames[0].frame_no, frames.skip(1));
    }
}

/// What a primary with the log `log` answers to a replica that has applied
/// `last_applied` and is entitled to ask.
pub open spec fn answer_to(log: &FrameLog, last_applied: u64) -> FramesResponseView
    recommends
        last_applied < u64::MAX,
{
    frames_response(
        log,
        Ok(()),
        Ok(FramesRequest { next_offset: (last_applied + 1) as u64 }),
    )
}

/// Where a replica stands after one round with its primary: a replica that
/// is not behind stays; any other moves on by the frames of one answer, which
/// come from the snapshot up to the compaction boundary and from the log up
/// to the tail.
pub open spec fn pulled(log: &FrameLog, last_applied: u64) -> int {
    if last_applied >= log.tail() {
        last_applied as int
    } else if last_applied < log.boundary() {
        if log.boundary() - last_applied < MAX_FRAMES_IN_SINGLE_RESPONSE {
            log.boundary() as int
        } else {
            last_applied + MAX_FRAMES_IN_SINGLE_RESPONSE
        }
    } else if log.tail() - last_applied < MAX_FRAMES_IN_SINGLE_RESPONSE {
        log.tail()
    } else {
        last_applied + MAX_FRAMES_IN_SINGLE_RESPONSE
    }
}

/// Where a replica stands after an answer: frames are applied in order, and
/// any other answer leaves it where it was.
pub open spec fn applied_after(last_applied: u64, answer: FramesResponseView) -> u64 {
    match answer {
        FramesResponseView::Frames(fs) => apply_run(last_applied, fs).0,
        _ => last_applied,
    }
}

/// How many failures in a row a replica counts after an answer: one more
/// after a failure of the primary, none after any other answer.
pub open spec fn failures_after(failures: u32, answer: FramesResponseView) -> u32 {
    match answer {
        FramesResponseView::Failed(_) => if failures == u32::MAX {
            u32::MAX
        } else {
            (failures + 1) as u32
        },
        _ => 0u32,
    }
}

/// What a replica does after an answer.
pub open spec fn action_after(last_applied: u64, failures: u32, answer: FramesResponseView) -> PullAction {
    match answer {
        FramesResponseView::Frames(fs) => match apply_run(last_applied, fs).1 {
            None => PullAction::PullAgain,
            Some(e) => PullAction::Rejected(e),
        },
        FramesResponseView::NoContent => PullAction::Wait,
        FramesResponseView::Unauthorized(_) => PullAction::GiveUp { status: 401 },
        FramesResponseView::BadRequest(_) => PullAction::GiveUp { status: 400 },
        FramesResponseView::Failed(_) => PullAction::RetryAfterError {
            failures: failures_after(failures, answer),
        },
    }
}

/// A run of frames that is applied whole and is not empty takes a replica
/// forward.
pub proof fn lemma_apply_progress(last_applied: u64, frames: Seq<FrameView>)
    requires
        frames.len() > 0,
        apply_run(last_applied, frames).1 is None,
    ensures
        apply_run(last_applied, frames).0 > last_applied,
{
    lemma_apply_monotone(frames[0].frame_no, frames.skip(1));
}

/// How many of the frames a replica applies that is offered them in order:
/// those before the first that is not newer than the one before it.
pub open spec fn applied_count(last_applied: u64, frames: Seq<FrameView>) -> nat
    decreases frames.len(),
{
    if frames.len() == 0 || frames[0].frame_no <= last_applied {
        0
    } else {
        1 + applied_count(frames[0].frame_no, frames.skip(1))
    }
}

/// Whether a replica's primary can serve it without a damaged snapshot in
/// the way: the snapshot is intact, or the replica is past it.
pub open spec fn servable(log: &FrameLog, last_applied: u64) -> bool {
    log.intact() || last_applied >= log.boundary()
}

/// A replica that is behind its primary gets frames that take it forward and
/// not past the primary's tail; one that has caught up gets no content. So a
/// replica that pulls until it gets no content ends at the primary's tail.
/// This holds where no damaged snapshot is in the way.
pub proof fn lemma_pull_converges(log: &FrameLog, last_applied: u64)
    requires
        log.wf(),
        servable(log, last_applied),
        last_applied <= log.tail(),
    ensures
        answer_to(log, last_applied) is NoContent <==> last_applied == log.tail(),
        last_applied < log.tail() ==> {
            &&& answer_to(log, last_applied) matches FramesResponseView::Frames(fs)
            &&& 1 <= fs.len() <= MAX_FRAMES_IN_SINGLE_RESPONSE
            &&& apply_run(last_applied, fs).1 is None
            &&& last_applied < apply_run(last_applied, fs).0 <= log.tail()
            &&& apply_run(last_applied, fs).0 == pulled(log, last_applied)
        },
{
    let start = (last_applied + 1) as u64;
    assert(read_start(start) == start);
    if last_applied < log.tail() {
        if start <= log.boundary() {
            lemma_frames_from_dense(log.snapshot_records(), start);
            let all = snapshot_frames(log, start)->Ok_0;
            assert(all.len() == log.boundary() + 1 - start);
            let fs = capped(all);
            assert forall|k: int| 0 <= k < fs.len() implies (#[trigger] fs[k]).frame_no
                == last_applied + 1 + k by {
                assert(fs[k] == all[k]);
                assert(all[k] == crate::frame::decoded(
                    log.snapshot_records()[k + (start - 1)],
                )->Ok_0);
            }
            lemma_apply_dense(last_applied, fs);
        } else {
            let fs = log_run(log, start);
            assert forall|k: int| 0 <= k < fs.len() implies (#[trigger] fs[k]).frame_no
                == last_applied + 1 + k by {
                assert(fs[k] == log.log_frames()[start - 1 - log.boundary() + k]);
            }
            lemma_apply_dense(last_applied, fs);
        }
    }
}

/// A replica of one database.
#[derive(Debug)]
pub struct Replica {
    generation: Option<Generation>,
    last_applied: u64,
    failures: u32,
}

impl Replica {
    /// The generation of the primary that the replica follows.
    pub closed spec fn generation(&self) -> Option<Generation> {
        self.generation
    }

    /// The number of the last frame applied; 0 before the first.
    pub closed spec fn last_applied(&self) -> u64 {
        self.last_applied
    }

    /// How many answers in a row reported a failure of the primary.
    pub closed spec fn failures(&self) -> u32 {
        self.failures
    }

    /// A replica that has applied nothing and knows no primary.
    pub fn new() -> (replica: Replica)
        ensures
            replica.generation() is None,
            replica.last_applied() == 0,
            replica.failures() == 0,
    {
        Replica { generation: None, last_applied: 0, failures: 0 }
    }

    /// The number of the last frame applied; 0 before the first.
    pub fn last_applied_frame_no(&self) -> (n: u64)
        ensures
            n == self.last_applied(),
    {
        self.last_applied
    }

    /// Takes note of the primary's greeting. Where the primary is in another
    /// generation than the one the replica knows, the replica drops what it
    /// applied past the start of the new generation.
    pub fn handshake(&mut self, hello: &Hello) -> (outcome: HandshakeOutcome)
        ensures
            final(self).generation() == Some(
                Generation { id: hello.generation_id, start_index: hello.generation_start_index },
            ),
            final(self).failures() == old(self).failures(),
            outcome == match old(self).generation() {
                None => HandshakeOutcome::FirstContact,
                Some(known) => if known.id == hello.generation_id {
                    HandshakeOutcome::SameGeneration
                } else {
                    HandshakeOutcome::Resync { last_applied: final(self).last_applied() }
                },
            },
            final(self).last_applied() == if outcome is Resync && old(self).last_applied()
                > hello.generation_start_index {
                hello.generation_start_index
            } else {
                old(self).last_applied()
            },
    {
        let theirs = Generation {
            id: hello.generation_id,
            start_index: hello.generation_start_index,
        };
        let outcome = match self.generation {
            None => HandshakeOutcome::FirstContact,
            Some(known) => {
                if known.id == theirs.id {
                    HandshakeOutcome::SameGeneration
                } else {
                    if self.last_applied > theirs.start_index {
                        self.last_applied = theirs.start_index;
                    }
                    HandshakeOutcome::Resync { last_applied: self.last_applied }
                }
            },
        };
        self.generation = Some(theirs);
        outcome
    }

    /// The request for the frames after the last one applied. There is none
    /// once the last frame number there is has been applied.
    pub fn next_request(&self) -> (req: Option<FramesRequest>)
        ensures
            req == if self.last_applied() == u64::MAX {
                None::<FramesRequest>
            } else {
                Some(FramesRequest { next_offset: (self.last_applied() + 1) as u64 })
            },
    {
        if self.last_applied == u64::MAX {
            None
        } else {
            Some(FramesRequest { next_offset: self.last_applied + 1 })
        }
    }

    /// Applies a frame if it is newer than the last one applied. Afterwards
    /// the last applied frame number is at least the frame's, applied or not.
    pub fn apply(&mut self, frame: &Frame) -> (r: Result<(), ApplyError>)
        ensures
            r == if frame.frame_no > old(self).last_applied() {
                Ok::<(), ApplyError>(())
            } else {
                Err(
                    ApplyError::Stale {
                        frame_no: frame.frame_no,
                        last_applied: old(self).last_applied(),
                    },
                )
            },
            final(self).last_applied() == if r is Ok {
                frame.frame_no
            } else {
                old(self).last_applied()
            },
            final(self).last_applied() >= frame.frame_no,
            final(self).last_applied() >= old(self).last_applied(),
            final(self).generation() == old(self).generation(),
            final(self).failures() == old(self).failures(),
    {
        if frame.frame_no > self.last_applied {
            self.last_applied = frame.frame_no;
            Ok(())
        } else {
            Err(ApplyError::Stale { frame_no: frame.frame_no, last_applied: self.last_applied })
        }
    }

    /// Applies the frames in order and stops at the first that is refused.
    pub fn apply_all(&mut self, frames: &Frames) -> (r: Result<(), ApplyError>)
        ensures
            final(self).last_applied() == apply_run(old(self).last_applied(), frames@).0,
            r == match apply_run(old(self).last_applied(), frames@).1 {
                None => Ok::<(), ApplyError>(()),
                Some(e) => Err(e),
            },
            final(self).last_applied() >= old(self).last_applied(),
            final(self).generation() == old(self).generation(),
            final(self).failures() == old(self).failures(),
    {
        let count: usize = frames.len();
        let mut i: usize = 0;
        proof {
            assert(frames@.skip(0) =~= frames@);
            lemma_apply_monotone(self.last_applied(), frames@);
        }
        while i < count
            invariant
                i <= count,
                count == frames@.len(),
                apply_run(old(self).last_applied(), frames@) == apply_run(
                    self.last_applied(),
                    frames@.skip(i as int),
                ),
                self.generation() == old(self).generation(),
                self.failures() == old(self).failures(),
                apply_run(old(self).last_applied(), frames@).0 >= old(self).last_applied(),
            decreases count - i,
        {
            let frame = &frames.frames[i];
            assert(frames@.skip(i as int)[0] == frame@);
            assert(frames@.skip(i as int).skip(1) =~= frames@.skip(i + 1));
            match self.apply(frame) {
                Ok(_) => {},
                Err(e) => {
                    return Err(e);
                },
            }
            i += 1;
        }
        Ok(())
    }

    /// How many of the frames the replica will apply when it is offered
    /// them in order: the frames before the first that it refuses.
    pub fn accepted(&self, frames: &Frames) -> (n: usize)
        ensures
            n == applied_count(self.last_applied(), frames@),
            n <= frames@.len(),
    {
        let count: usize = frames.len();
        let mut last: u64 = self.last_applied;
        let mut i: usize = 0;
        assert(frames@.skip(0) =~= frames@);
        while i < count
            invariant
                i <= count,
                count == frames@.len(),
                applied_count(self.last_applied(), frames@) == i + applied_count(
                    last,
                    frames@.skip(i as int),
                ),
            decreases count - i,
        {
            let frame = &frames.frames[i];
            assert(frames@.skip(i as int)[0] == frame@);
            assert(frames@.skip(i as int).skip(1) =~= frames@.skip(i + 1));
            if frame.frame_no <= last {
                return i;
            }
            last = frame.frame_no;
            i += 1;
        }
        i
    }

    /// Takes an answer of the primary and says what to do next. Frames are
    /// applied in order; an answer without content leaves the replica as it
    /// is; a failure of the primary is counted, and the count starts again
    /// with the next answer that is none.
    pub fn on_response(&mut self, response: &FramesResponse) -> (action: PullAction)
        ensures
            final(self).generation() == old(self).generation(),
            final(self).last_applied() == applied_after(old(self).last_applied(), response@),
            final(self).failures() == failures_after(old(self).failures(), response@),
            action == action_after(old(self).last_applied(), old(self).failures(), response@),
            final(self).last_applied() >= old(self).last_applied(),
    {
        match response {
            FramesResponse::Frames(frames) => {
                self.failures = 0;
                match self.apply_all(frames) {
                    Ok(_) => PullAction::PullAgain,
                    Err(e) => PullAction::Rejected(e),
                }
            },
            FramesResponse::NoContent => {
                self.failures = 0;
                PullAction::Wait
            },
            FramesResponse::Unauthorized(_) => {
                self.failures = 0;
                PullAction::GiveUp { status: 401 }
            },
            FramesResponse::BadRequest(_) => {
                self.failures = 0;
                PullAction::GiveUp { status: 400 }
            },
            FramesResponse::Failed(_) => self.on_error(),
        }
    }

    /// Takes note that the primary could not be reached or failed without
    /// an answer: the failure is counted, and the replica stays as it is.
    pub fn on_error(&mut self) -> (action: PullAction)
        ensures
            final(self).generation() == old(self).generation(),
            final(self).last_applied() == old(self).last_applied(),
            final(self).failures() == if old(self).failures() == u32::MAX {
                u32::MAX
            } else {
                (old(self).failures() + 1) as u32
            },
            action == (PullAction::RetryAfterError { failures: final(self).failures() }),
    {
        if self.failures < u32::MAX {
            self.failures = self.failures + 1;
        }
        PullAction::RetryAfterError { failures: self.failures }
    }

    /// One round with a primary in the same process: asks for the frames
    /// after the last one applied and takes the answer. A replica behind the
    /// primary moves forward, never past the primary's tail, unless a damaged
    /// snapshot is in the way; a replica that is not behind gets no content
    /// and stays.
    pub fn pull(&mut self, primary: &ReplicationHandlerState) -> (action: PullAction)
        requires
            primary.logger.wf(),
        ensures
            final(self).generation() == old(self).generation(),
            final(self).last_applied() >= old(self).last_applied(),
            old(self).last_applied() == u64::MAX ==> action == PullAction::Wait && final(self).last_applied() == old(self).last_applied() && final(self).failures() == old(self).failures(),
            old(self).last_applied() < u64::MAX ==> {
                let answer = answer_to(&primary.logger, old(self).last_applied());
                &&& final(self).last_applied() == applied_after(old(self).last_applied(), answer)
                &&& final(self).failures() == failures_after(old(self).failures(), answer)
                &&& action == action_after(
                    old(self).last_applied(),
                    old(self).failures(),
                    answer,
                )
            },
            action == PullAction::PullAgain ==> final(self).last_applied() > old(self).last_applied(),
            servable(&primary.logger, old(self).last_applied()) ==> {
                &&& final(self).last_applied() == pulled(
                    &primary.logger,
                    old(self).last_applied(),
                )
                &&& old(self).last_applied() < primary.logger.tail() ==> action
                    == PullAction::PullAgain && old(self).last_applied() < final(self).last_applied() <= primary.logger.tail()
            },
            old(self).last_applied() >= primary.logger.tail() ==> action == PullAction::Wait
                && final(self).last_applied() == old(self).last_applied(),
    {
        let request = match self.next_request() {
            Some(request) => request,
            None => {
                return PullAction::Wait;
            },
        };
        proof {
            let answer = answer_to(&primary.logger, self.last_applied());
            if self.last_applied() <= primary.logger.tail() && servable(
                &primary.logger,
                self.last_applied(),
            ) {
                lemma_pull_converges(&primary.logger, self.last_applied());
            }
            if let FramesResponseView::Frames(fs) = answer {
                lemma_answer_is_bounded(
                    &primary.logger,
                    Ok(()),
                    Ok(FramesRequest { next_offset: (self.last_applied() + 1) as u64 }),
                );
                if apply_run(self.last_applied(), fs).1 is None {
                    lemma_apply_progress(self.last_applied(), fs);
                }
            }
        }
        let response = handle_frames(primary, Ok(()), Ok(request));
        self.on_response(&response)
    }

    /// Pulls from a primary in the same process for as long as frames come,
    /// and says what ended it. A replica that was not ahead of the primary
    /// ends at the primary's tail, with nothing left to wait for but new
    /// frames, unless a damaged snapshot is in the way.
    pub fn catch_up(&mut self, primary: &ReplicationHandlerState) -> (action: PullAction)
        requires
            primary.logger.wf(),
        ensures
            final(self).generation() == old(self).generation(),
            final(self).last_applied() >= old(self).last_applied(),
            action != PullAction::PullAgain,
            servable(&primary.logger, old(self).last_applied()) ==> action == PullAction::Wait
                && final(self).last_applied() == if old(self).last_applied()
                <= primary.logger.tail() {
                primary.logger.tail() as u64
            } else {
                old(self).last_applied()
            },
            old(self).last_applied() > primary.logger.tail() ==> action == PullAction::Wait
                && final(self).last_applied() == old(self).last_applied(),
    {
        let tail: u64 = primary.logger.max_available_frame_no();
        while self.last_applied < tail
            invariant
                primary.logger.wf(),
                tail == primary.logger.tail(),
                self.generation() == old(self).generation(),
                self.last_applied() >= old(self).last_applied(),
                servable(&primary.logger, old(self).last_applied()) ==> servable(
                    &primary.logger,
                    self.last_applied(),
                ),
                servable(&primary.logger, old(self).last_applied()) && old(self).last_applied()
                    <= tail ==> self.last_applied() <= tail,
                old(self).last_applied() > tail ==> self.last_applied() == old(self).last_applied(),
            decreases
                    (if tail > self.last_applied() {
                        tail - self.last_applied()
                    } else {
                        0
                    }),
        {
            let action = self.pull(primary);
            if action != PullAction::PullAgain {
                return action;
            }
        }
        PullAction::Wait
    }
}

} // verus!
