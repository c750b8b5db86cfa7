//! The replication protocol between a primary and its replicas: what the
//! primary answers to a request for frames, and what a replica does with the
//! answer.

use vstd::prelude::*;
use vstd::string::*;
use crate::frame::{decoded, Frame, FrameError, FrameView};
use crate::http::Method;
use crate::log::{
    frames_from, read_start, stream_len, FrameLog, Generation, LogReadError, Snapshot,
};

verus! {

/// The most frames that one answer carries from the log.
pub const MAX_FRAMES_IN_SINGLE_RESPONSE: usize = 256;

/// A replica's request for the frames from `next_offset` on.
#[derive(Clone, Copy, Debug, PartialEq, Eq, Structural)]
pub struct FramesRequest {
    pub next_offset: u64,
}

/// A run of frames, as an answer carries it.
#[derive(Debug, PartialEq, Eq)]
pub struct Frames {
    pub frames: Vec<Frame>,
}

impl View for Frames {
    type V = Seq<FrameView>;

    open spec fn view(&self) -> Seq<FrameView> {
        Seq::new(self.frames@.len(), |i: int| self.frames@[i]@)
    }
}

impl Frames {
    /// No frames.
    pub fn new() -> (frames: Frames)
        ensures
            frames@ == Seq::<FrameView>::empty(),
    {
        let frames = Frames { frames: Vec::new() };
        assert(frames@ =~= Seq::<FrameView>::empty());
        frames
    }

    /// Adds a frame at the end.
    pub fn push(&mut self, frame: Frame)
        ensures
            final(self)@ == old(self)@.push(frame@),
    {
        let ghost before = self@;
        let ghost added = frame@;
        self.frames.push(frame);
        assert(self@ =~= before.push(added));
    }

    /// Whether there is no frame.
    pub fn is_empty(&self) -> (b: bool)
        ensures
            b == (self@.len() == 0),
    {
        self.frames.is_empty()
    }

    /// How many frames there are.
    pub fn len(&self) -> (n: usize)
        ensures
            n == self@.len(),
    {
        self.frames.len()
    }

    /// Keeps the first `len` frames and drops the rest; keeps all where
    /// there are no more than `len`.
    pub fn truncate(&mut self, len: usize)
        ensures
            final(self)@ == if len < old(self)@.len() {
                old(self)@.take(len as int)
            } else {
                old(self)@
            },
    {
        let ghost before = self@;
        self.frames.truncate(len);
        proof {
            if len < before.len() {
                assert(self@ =~= before.take(len as int));
            } else {
                assert(self@ =~= before);
            }
        }
    }
}

/// What a primary tells a replica that opens a session.
#[derive(Clone, Copy, Debug, PartialEq, Eq, Structural)]
pub struct Hello {
    pub generation_id: u128,
    pub generation_start_index: u64,
    pub database_id: u128,
}

/// What the replication endpoint works on.
#[derive(Debug)]
pub struct ReplicationHandlerState {
    pub logger: FrameLog,
}

impl ReplicationHandlerState {
    /// The state of an endpoint that serves `logger`.
    pub fn new(logger: FrameLog) -> (state: ReplicationHandlerState)
        ensures
            state.logger == logger,
    {
        ReplicationHandlerState { logger }
    }

    /// Answers a request to the endpoint, by its method and the bytes of
    /// its path: `GET /v1/replication/hello` is answered with the greeting
    /// and `POST /v1/replication/frames` with frames; there is nothing
    /// under any other path, and no other method is allowed on these two.
    /// `auth` and `request` are looked at for a request for frames only.
    pub fn handle(
        &self,
        method: Method,
        path: &[u8],
        auth: Result<(), String>,
        request: Result<FramesRequest, String>,
    ) -> (r: ReplicationResponse)
        requires
            self.logger.wf(),
        ensures
            r@ == replication_response(self, method, path@, auth_view(auth), request_view(request)),
    {
        let hello: [u8; 21] = [
            47, 118, 49, 47, 114, 101, 112, 108, 105, 99, 97, 116, 105, 111, 110, 47, 104, 101, 108,
            108, 111,
        ];
        let frames: [u8; 22] = [
            47, 118, 49, 47, 114, 101, 112, 108, 105, 99, 97, 116, 105, 111, 110, 47, 102, 114, 97,
            109, 101, 115,
        ];
        assert(hello@ =~= hello_path());
        assert(frames@ =~= frames_path());
        if same_path(path, hello.as_slice()) {
            match method {
                Method::Get => ReplicationResponse::Hello(handle_hello(self)),
                _ => ReplicationResponse::MethodNotAllowed,
            }
        } else if same_path(path, frames.as_slice()) {
            match method {
                Method::Post => ReplicationResponse::Frames(handle_frames(self, auth, request)),
                _ => ReplicationResponse::MethodNotAllowed,
            }
        } else {
            ReplicationResponse::NotFound
        }
    }
}

/// The bytes of the path `/v1/replication/hello`.
pub open spec fn hello_path() -> Seq<u8> {
    seq![
        47u8,
        118u8,
        49u8,
        47u8,
        114u8,
        101u8,
        112u8,
        108u8,
        105u8,
        99u8,
        97u8,
        116u8,
        105u8,
        111u8,
        110u8,
        47u8,
        104u8,
        101u8,
        108u8,
        108u8,
        111u8,
    ]
}

/// The bytes of the path `/v1/replication/frames`.
pub open spec fn frames_path() -> Seq<u8> {
    seq![
        47u8,
        118u8,
        49u8,
        47u8,
        114u8,
        101u8,
        112u8,
        108u8,
        105u8,
        99u8,
        97u8,
        116u8,
        105u8,
        111u8,
        110u8,
        47u8,
        102u8,
        114u8,
        97u8,
        109u8,
        101u8,
        115u8,
    ]
}

/// Whether `path` is the bytes `want`.
fn same_path(path: &[u8], want: &[u8]) -> (same: bool)
    ensures
        same == (path@ == want@),
{
    let n: usize = path.len();
    if n != want.len() {
        return false;
    }
    let mut i: usize = 0;
    while i < n
        invariant
            i <= n,
            n == path@.len(),
            n == want@.len(),
            forall|k: int| 0 <= k < i ==> path@[k] == want@[k],
        decreases n - i,
    {
        if path[i] != want[i] {
            return false;
        }
        i += 1;
    }
    assert(path@ =~= want@);
    true
}

/// The answer of the replication endpoint.
#[derive(Debug, PartialEq, Eq)]
pub enum ReplicationResponse {
    /// Status 200: the greeting.
    Hello(Hello),
    /// The answer to a request for frames.
    Frames(FramesResponse),
    /// Status 404.
    NotFound,
    /// Status 405.
    MethodNotAllowed,
}

/// The mathematical content of an answer of the endpoint.
pub enum ReplicationResponseView {
    Hello(Hello),
    Frames(FramesResponseView),
    NotFound,
    MethodNotAllowed,
}

impl View for ReplicationResponse {
    type V = ReplicationResponseView;

    open spec fn view(&self) -> ReplicationResponseView {
        match self {
            ReplicationResponse::Hello(hello) => ReplicationResponseView::Hello(*hello),
            ReplicationResponse::Frames(frames) => ReplicationResponseView::Frames(frames@),
            ReplicationResponse::NotFound => ReplicationResponseView::NotFound,
            ReplicationResponse::MethodNotAllowed => ReplicationResponseView::MethodNotAllowed,
        }
    }
}

impl ReplicationResponse {
    /// The HTTP status that carries this answer.
    pub fn status(&self) -> (code: u16)
        ensures
            code == match self {
                ReplicationResponse::Hello(_) => 200u16,
                ReplicationResponse::Frames(frames) => match frames@ {
                    FramesResponseView::Frames(_) => 200u16,
                    FramesResponseView::NoContent => 204u16,
                    FramesResponseView::Unauthorized(_) => 401u16,
                    FramesResponseView::BadRequest(_) => 400u16,
                    FramesResponseView::Failed(_) => 500u16,
                },
                ReplicationResponse::NotFound => 404u16,
                ReplicationResponse::MethodNotAllowed => 405u16,
            },
    {
        match self {
            ReplicationResponse::Hello(_) => 200,
            ReplicationResponse::Frames(frames) => frames.status(),
            ReplicationResponse::NotFound => 404,
            ReplicationResponse::MethodNotAllowed => 405,
        }
    }
}

/// The greeting of a primary with the given state.
pub open spec fn greeting(state: &ReplicationHandlerState) -> Hello {
    Hello {
        generation_id: state.logger.generation().id,
        generation_start_index: state.logger.generation().start_index,
        database_id: state.logger.database_id(),
    }
}

/// The answer that the endpoint owes to a request.
pub open spec fn replication_response(
    state: &ReplicationHandlerState,
    method: Method,
    path: Seq<u8>,
    auth: Result<(), Seq<char>>,
    request: Result<FramesRequest, Seq<char>>,
) -> ReplicationResponseView {
    if path == hello_path() {
        if method == Method::Get {
            ReplicationResponseView::Hello(greeting(state))
        } else {
            ReplicationResponseView::MethodNotAllowed
        }
    } else if path == frames_path() {
        if method == Method::Post {
            ReplicationResponseView::Frames(frames_response(&state.logger, auth, request))
        } else {
            ReplicationResponseView::MethodNotAllowed
        }
    } else {
        ReplicationResponseView::NotFound
    }
}

/// The answer to a request for frames.
#[derive(Debug, PartialEq, Eq)]
pub enum FramesResponse {
    /// Status 200: the frames.
    Frames(Frames),
    /// Status 204: nothing to send from that offset on.
    NoContent,
    /// Status 401, with the reason.
    Unauthorized(String),
    /// Status 400, with the reason.
    BadRequest(String),
    /// Status 500: a record of the snapshot is no frame.
    Failed(FrameError),
}

/// The mathematical content of an answer.
pub enum FramesResponseView {
    Frames(Seq<FrameView>),
    NoContent,
    Unauthorized(Seq<char>),
    BadRequest(Seq<char>),
    Failed(FrameError),
}

impl View for FramesResponse {
    type V = FramesResponseView;

    open spec fn view(&self) -> FramesResponseView {
        match self {
            FramesResponse::Frames(frames) => FramesResponseView::Frames(frames@),
            FramesResponse::NoContent => FramesResponseView::NoContent,
            FramesResponse::Unauthorized(reason) => FramesResponseView::Unauthorized(reason@),
            FramesResponse::BadRequest(reason) => FramesResponseView::BadRequest(reason@),
            FramesResponse::Failed(e) => FramesResponseView::Failed(*e),
        }
    }
}

impl FramesResponse {
    /// The text that goes out as the body of an answer without frames:
    /// nothing where there is no content, the reason of a refusal, and the
    /// failure of the replication.
    pub fn body_text(&self) -> (text: Option<String>)
        ensures
            match self@ {
                FramesResponseView::Frames(_) => text is None,
                FramesResponseView::NoContent => text matches Some(t) && t@ == Seq::<char>::empty(),
                FramesResponseView::Unauthorized(reason) => text matches Some(t) && t@ == reason,
                FramesResponseView::BadRequest(reason) => text matches Some(t) && t@ == reason,
                FramesResponseView::Failed(e) => text matches Some(t) && t@
                    == "Replication failed: "@ + e.message_text(),
            },
    {
        match self {
            FramesResponse::Frames(_) => None,
            FramesResponse::NoContent => Some(String::new()),
            FramesResponse::Unauthorized(reason) => Some(reason.clone()),
            FramesResponse::BadRequest(reason) => Some(reason.clone()),
            FramesResponse::Failed(e) => {
                let message = e.message();
                Some(String::from_str("Replication failed: ").concat(message.as_str()))
            },
        }
    }

    /// The HTTP status that carries this answer.
    pub fn status(&self) -> (code: u16)
        ensures
            code == match self@ {
                FramesResponseView::Frames(_) => 200u16,
                FramesResponseView::NoContent => 204u16,
                FramesResponseView::Unauthorized(_) => 401u16,
                FramesResponseView::BadRequest(_) => 400u16,
                FramesResponseView::Failed(_) => 500u16,
            },
    {
        match self {
            FramesResponse::Frames(_) => 200,
            FramesResponse::NoContent => 204,
            FramesResponse::Unauthorized(_) => 401,
            FramesResponse::BadRequest(_) => 400,
            FramesResponse::Failed(_) => 500,
        }
    }
}

/// What the snapshot of `log` yields to a reader that wants the frames from
/// `from` on: nothing where no snapshot covers `from`.
pub open spec fn snapshot_frames(log: &FrameLog, from: u64) -> Result<Seq<FrameView>, FrameError> {
    if from <= log.boundary() && log.boundary() > 0 {
        frames_from(log.snapshot_records(), from)
    } else {
        Ok(Seq::empty())
    }
}

/// The frames of one answer: the first `MAX_FRAMES_IN_SINGLE_RESPONSE` of
/// those that are there.
pub open spec fn capped(frames: Seq<FrameView>) -> Seq<FrameView> {
    if frames.len() > MAX_FRAMES_IN_SINGLE_RESPONSE {
        frames.take(MAX_FRAMES_IN_SINGLE_RESPONSE as int)
    } else {
        frames
    }
}

/// The frames that the log itself yields from `start` on, at most
/// `MAX_FRAMES_IN_SINGLE_RESPONSE` of them.
pub open spec fn log_run(log: &FrameLog, start: u64) -> Seq<FrameView>
    recommends
        log.boundary() < start <= log.tail(),
{
    log.log_frames().subrange(
        start - 1 - log.boundary(),
        start - 1 - log.boundary() + stream_len(
            log.tail(),
            start as int,
            MAX_FRAMES_IN_SINGLE_RESPONSE as int,
        ),
    )
}

/// The answer that a primary with the log `log` owes to a request.
///
/// `auth` is what the check of the caller's credentials gave, `request` what
/// reading the request's body gave; either failure is answered with its
/// reason. A request for offset 0 reads as one for offset 1. Past the tail
/// there is nothing to send. At or below the compaction boundary the answer
/// is the snapshot's frames from the offset on, and a snapshot with a record
/// that is no frame fails the request; above the boundary the answer is the
/// log's frames from the offset on. Either way one answer holds at most
/// `MAX_FRAMES_IN_SINGLE_RESPONSE` frames.
pub open spec fn frames_response(
    log: &FrameLog,
    auth: Result<(), Seq<char>>,
    request: Result<FramesRequest, Seq<char>>,
) -> FramesResponseView {
    match auth {
        Err(reason) => FramesResponseView::Unauthorized(reason),
        Ok(_) => match request {
            Err(reason) => FramesResponseView::BadRequest(reason),
            Ok(req) => {
                let start = read_start(req.next_offset);
                if log.tail() < start {
                    FramesResponseView::NoContent
                } else if start <= log.boundary() {
                    match snapshot_frames(log, start) {
                        Err(e) => FramesResponseView::Failed(e),
                        Ok(fs) => if fs.len() == 0 {
                            FramesResponseView::NoContent
                        } else {
                            FramesResponseView::Frames(capped(fs))
                        },
                    }
                } else {
                    FramesResponseView::Frames(log_run(log, start))
                }
            },
        },
    }
}

/// The outcome of a credentials check, as contracts see it.
pub open spec fn auth_view(auth: Result<(), String>) -> Result<(), Seq<char>> {
    match auth {
        Ok(_) => Ok(()),
        Err(reason) => Err(reason@),
    }
}

/// The outcome of reading a request, as contracts see it.
pub open spec fn request_view(request: Result<FramesRequest, String>) -> Result<
    FramesRequest,
    Seq<char>,
> {
    match request {
        Ok(req) => Ok(req),
        Err(reason) => Err(reason@),
    }
}

/// A failed read of a shorter run of records is the failure of the whole run.
proof fn lemma_frames_from_fails(records: Seq<Seq<u8>>, from: u64, n: int)
    requires
        0 <= n <= records.len(),
        frames_from(records.take(n), from) is Err,
    ensures
        frames_from(records, from) == frames_from(records.take(n), from),
    decreases records.len() - n,
{
    if n < records.len() {
        let longer = records.take(n + 1);
        assert(longer.drop_last() =~= records.take(n));
        lemma_frames_from_fails(records, from, n + 1);
    } else {
        assert(records.take(n) =~= records);
    }
}

/// Reads from a snapshot the frames from `from` on, in the order of the
/// records. A record that is no frame fails the read, with the fault of the
/// first such record; nothing is then handed out.
pub fn read_snapshot(snapshot: &Snapshot, from: u64) -> (r: Result<Frames, FrameError>)
    ensures
        r is Ok <==> frames_from(snapshot.records(), from) is Ok,
        r matches Ok(frames) ==> frames@ == frames_from(snapshot.records(), from)->Ok_0,
        r matches Err(e) ==> frames_from(snapshot.records(), from) == Err::<
            Seq<FrameView>,
            FrameError,
        >(e),
{
    let mut frames = Frames::new();
    let count: usize = snapshot.len();
    let ghost records = snapshot.records();
    let mut i: usize = 0;
    assert(records.take(0) =~= Seq::<Seq<u8>>::empty());
    while i < count
        invariant
            i <= count,
            count == records.len(),
            records == snapshot.records(),
            frames_from(records.take(i as int), from) == Ok::<Seq<FrameView>, FrameError>(frames@),
        decreases count - i,
    {
        let bytes = snapshot.record(i);
        proof {
            assert(records.take(i + 1).drop_last() =~= records.take(i as int));
            assert(records.take(i + 1).last() == records[i as int]);
        }
        match Frame::try_from_bytes(bytes) {
            Ok(frame) => {
                if frame.frame_no >= from {
                    frames.push(frame);
                }
            },
            Err(e) => {
                proof {
                    let shorter = records.take(i + 1);
                    assert(decoded(shorter.last()) == Err::<FrameView, FrameError>(e));
                    assert(frames_from(shorter, from) == Err::<Seq<FrameView>, FrameError>(e));
                    lemma_frames_from_fails(records, from, i + 1);
                }
                return Err(e);
            },
        }
        i += 1;
    }
    assert(records.take(count as int) =~= records);
    Ok(frames)
}

/// Reads from the snapshot of `logger` the frames from `from` on. Where no
/// snapshot covers `from` there are no frames; a record that is no frame
/// fails the read.
pub fn load_snapshot(logger: &FrameLog, from: u64) -> (r: Result<Frames, FrameError>)
    ensures
        r is Ok <==> snapshot_frames(logger, from) is Ok,
        r matches Ok(frames) ==> frames@ == snapshot_frames(logger, from)->Ok_0,
        r matches Err(e) ==> snapshot_frames(logger, from) == Err::<Seq<FrameView>, FrameError>(e),
{
    match logger.get_snapshot(from) {
        Some(snapshot) => read_snapshot(snapshot, from),
        None => Ok(Frames::new()),
    }
}

/// An answer with frames holds at least one frame and at most
/// `MAX_FRAMES_IN_SINGLE_RESPONSE`, whether the frames come from the log or
/// from the snapshot.
pub proof fn lemma_answer_is_bounded(
    log: &FrameLog,
    auth: Result<(), Seq<char>>,
    request: Result<FramesRequest, Seq<char>>,
)
    requires
        log.wf(),
    ensures
        frames_response(log, auth, request) matches FramesResponseView::Frames(fs) ==> 1
            <= fs.len() <= MAX_FRAMES_IN_SINGLE_RESPONSE,
{
}

/// What a primary tells a replica that opens a session: its generation and
/// the identity of its database.
pub fn handle_hello(state: &ReplicationHandlerState) -> (hello: Hello)
    ensures
        hello == greeting(state),
{
    let generation: Generation = state.logger.current_generation();
    Hello {
        generation_id: generation.id,
        generation_start_index: generation.start_index,
        database_id: state.logger.current_database_id(),
    }
}

/// Answers a replica's request for frames.
///
/// `auth` is what the check of the caller's credentials gave and `request`
/// what reading the request's body gave.
pub fn handle_frames(
    state: &ReplicationHandlerState,
    auth: Result<(), String>,
    request: Result<FramesRequest, String>,
) -> (response: FramesResponse)
    requires
        state.logger.wf(),
    ensures
        response@ == frames_response(&state.logger, auth_view(auth), request_view(request)),
        response@ matches FramesResponseView::Frames(fs) ==> 1 <= fs.len()
            <= MAX_FRAMES_IN_SINGLE_RESPONSE,
{
    let logger = &state.logger;
    match auth {
        Ok(_) => {},
        Err(reason) => {
            return FramesResponse::Unauthorized(reason);
        },
    }
    let req: FramesRequest = match request {
        Ok(req) => req,
        Err(reason) => {
            return FramesResponse::BadRequest(reason);
        },
    };
    let next_offset: u64 = if req.next_offset == 0 {
        1
    } else {
        req.next_offset
    };
    let max_available: u64 = logger.max_available_frame_no();
    if max_available < next_offset {
        return FramesResponse::NoContent;
    }
    let ghost boundary = logger.boundary();
    let mut frames = Frames::new();
    let mut current: u64 = next_offset - 1;
    let mut rounds: usize = 0;
    while rounds < MAX_FRAMES_IN_SINGLE_RESPONSE
        invariant_except_break
            current < max_available,
            frames@.len() == rounds,
            current == next_offset - 1 + rounds,
            next_offset <= boundary ==> rounds == 0,
            next_offset > boundary ==> frames@ == logger.log_frames().subrange(
                next_offset - 1 - boundary,
                current - boundary,
            ),
        invariant
            logger.wf(),
            boundary == logger.boundary(),
            max_available == logger.tail(),
            1 <= next_offset <= max_available,
            rounds <= MAX_FRAMES_IN_SINGLE_RESPONSE,
            logger == &state.logger,
            auth_view(auth) is Ok,
            request_view(request) == Ok::<FramesRequest, Seq<char>>(req),
            next_offset == read_start(req.next_offset),
        ensures
            next_offset > boundary ==> frames@ == log_run(logger, next_offset),
            next_offset <= boundary ==> snapshot_frames(logger, next_offset) is Ok && frames@
                == capped(snapshot_frames(logger, next_offset)->Ok_0),
        decreases MAX_FRAMES_IN_SINGLE_RESPONSE - rounds,
    {
        match logger.frame_after(current) {
            Ok(Some(frame)) => {
                frames.push(frame.duplicate());
                current = current + 1;
                assert(frames@ =~= logger.log_frames().subrange(
                    next_offset - 1 - boundary,
                    current - boundary,
                ));
            },
            Err(LogReadError::SnapshotRequired) => {
                if frames.is_empty() {
                    match load_snapshot(logger, next_offset) {
                        Ok(loaded) => {
                            frames = loaded;
                            frames.truncate(MAX_FRAMES_IN_SINGLE_RESPONSE);
                        },
                        Err(e) => {
                            return FramesResponse::Failed(e);
                        },
                    }
                }
                break ;
            },
            Ok(None) => {
                assert(false);
                break ;
            },
        }
        rounds = rounds + 1;
        if max_available <= current {
            break ;
        }
    }
    if frames.is_empty() {
        return FramesResponse::NoContent;
    }
    FramesResponse::Frames(frames)
}

} // verus!
