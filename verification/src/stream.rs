//! The registry of streams: the sessions of clients that speak Hrana over
//! HTTP, each resumed by the baton that the last answer carried.
//!
//! A stream is idle in the registry or checked out to one request. A baton
//! resumes its stream once: the stream then expects the next sequence
//! number.

use std::collections::HashMap;
use vstd::prelude::*;
use vstd::std_specs::iter::IteratorSpec;
use crate::allocation::{is_next_free, AllocError, Allocation, ConnectionId};
use crate::baton::{baton_of, named_seq, named_stream, BatonKey};
use crate::error::StreamError;

verus! {

broadcast use vstd::std_specs::hash::group_hash_axioms;

/// How long a stream may be idle before it expires, in milliseconds.
pub const IDLE_TIMEOUT_MS: u64 = 10_000;

/// A session of a client: the connection that it runs on and the SQL texts
/// that it holds by number.
#[derive(Debug)]
pub struct Stream {
    pub stream_id: u64,
    pub conn: ConnectionId,
    pub sqls: HashMap<i32, String>,
}

/// Where a stream is.
pub enum SlotState {
    /// In the registry. `seq` is the sequence number of the baton that
    /// resumes it, `last_used` the time at which it came back.
    Idle { stream: Stream, seq: u64, last_used: u64 },
    /// With a request.
    CheckedOut,
}

/// A stream in the hands of one request.
#[derive(Debug)]
pub struct StreamGuard {
    /// The stream itself.
    stream: Stream,
    /// The sequence number of the baton that resumed the stream; `None` for
    /// a stream that was just made.
    presented: Option<u64>,
    /// Whether the client asked to close the stream.
    closed: bool,
}

/// Why a request gets no stream.
#[derive(Clone, Copy, Debug, PartialEq, Eq, Structural)]
pub enum AcquireError {
    /// The baton does not resume a stream.
    Stream(StreamError),
    /// The allocation gives out no connection for a new stream.
    Alloc(AllocError),
    /// Every stream number was given out.
    Exhausted,
}

/// What comes of a stream that a request gives back.
#[derive(Debug, PartialEq, Eq)]
pub struct Released {
    /// The baton that resumes the stream; none where the stream has ended.
    pub baton: Option<String>,
    /// The connection to close; one where the stream has ended.
    pub close_conn: Option<ConnectionId>,
}

impl StreamGuard {
    /// The stream in the guard's hands.
    pub closed spec fn stream(&self) -> Stream {
        self.stream
    }

    /// The sequence number of the baton that resumed the stream.
    pub closed spec fn presented(&self) -> Option<u64> {
        self.presented
    }

    /// Whether the client asked to close the stream.
    pub closed spec fn is_closed(&self) -> bool {
        self.closed
    }

    /// Whether the stream was just made, so that its connection is to be
    /// opened.
    pub fn is_fresh(&self) -> (b: bool)
        ensures
            b == (self.presented() is None),
    {
        self.presented.is_none()
    }

    /// Takes note that the client asked to close the stream.
    pub fn close(&mut self)
        ensures
            final(self).is_closed(),
            final(self).presented() == old(self).presented(),
            final(self).stream() == old(self).stream(),
    {
        self.closed = true;
    }

    /// The number of the stream.
    pub fn stream_id(&self) -> (id: u64)
        ensures
            id == self.stream().stream_id,
    {
        self.stream.stream_id
    }

    /// The connection that the stream runs on.
    pub fn conn(&self) -> (conn: ConnectionId)
        ensures
            conn == self.stream().conn,
    {
        self.stream.conn
    }

    /// The SQL texts that the stream holds by number.
    pub fn sqls(&self) -> (sqls: &HashMap<i32, String>)
        ensures
            *sqls == self.stream().sqls,
    {
        &self.stream.sqls
    }

    /// Holds the SQL text `sql` under the number `sql_id` from now on.
    pub fn store_sql(&mut self, sql_id: i32, sql: String)
        ensures
            final(self).stream().sqls@ == old(self).stream().sqls@.insert(sql_id, sql),
            final(self).stream().stream_id == old(self).stream().stream_id,
            final(self).stream().conn == old(self).stream().conn,
            final(self).presented() == old(self).presented(),
            final(self).is_closed() == old(self).is_closed(),
    {
        self.stream.sqls.insert(sql_id, sql);
    }

    /// Holds no SQL text under the number `sql_id` any more.
    pub fn close_sql(&mut self, sql_id: i32)
        ensures
            final(self).stream().sqls@ == old(self).stream().sqls@.remove(sql_id),
            final(self).stream().stream_id == old(self).stream().stream_id,
            final(self).stream().conn == old(self).stream().conn,
            final(self).presented() == old(self).presented(),
            final(self).is_closed() == old(self).is_closed(),
    {
        self.stream.sqls.remove(&sql_id);
    }
}


/// The streams of a server, each under its number.
pub struct ServerStreamState {
    streams: HashMap<u64, SlotState>,
    next_stream_id: u64,
}

/// The part of the server that speaks Hrana over HTTP.
pub struct Server {
    self_url: Option<String>,
    baton_key: BatonKey,
    stream_state: ServerStreamState,
}

/// Whether a stream has been idle for longer than `timeout` at the time
/// `now`.
pub open spec fn is_stale(state: SlotState, now: u64, timeout: u64) -> bool {
    state matches SlotState::Idle { last_used, .. } && now > last_used && now - last_used > timeout
}

impl Server {
    /// The address under which clients reach this server, if it has one.
    pub closed spec fn self_url(&self) -> Option<String> {
        self.self_url
    }

    /// The bytes of the key that marks the batons.
    pub closed spec fn key(&self) -> Seq<u8> {
        self.baton_key.bytes()
    }

    /// The streams that the registry knows, by their numbers.
    pub closed spec fn streams(&self) -> Map<u64, SlotState> {
        self.stream_state.streams@
    }

    /// The number that the next new stream gets.
    pub closed spec fn next_stream_id(&self) -> u64 {
        self.stream_state.next_stream_id
    }

    /// Where the stream `id` is, if the registry knows it.
    pub open spec fn stream(&self, id: u64) -> Option<SlotState> {
        if self.streams().contains_key(id) {
            Some(self.streams()[id])
        } else {
            None
        }
    }

    /// The registry knows finitely many streams, the number of each was
    /// given out, and each idle stream stands under its own number.
    pub open spec fn wf(&self) -> bool {
        &&& self.streams().dom().finite()
        &&& forall|id: u64| #[trigger]
            self.streams().contains_key(id) ==> {
                &&& id < self.next_stream_id()
                &&& self.streams()[id] matches SlotState::Idle { stream, .. } ==> stream.stream_id
                    == id
            }
    }

    /// A server without streams, with a key drawn at random.
    pub fn new(self_url: Option<String>) -> (server: Server)
        ensures
            server.wf(),
            server.self_url() == self_url,
            server.streams() == Map::<u64, SlotState>::empty(),
            server.next_stream_id() == 0,
    {
        Server::with_key(self_url, BatonKey::generate())
    }

    /// A server without streams, with the given key.
    pub fn with_key(self_url: Option<String>, baton_key: BatonKey) -> (server: Server)
        ensures
            server.wf(),
            server.self_url() == self_url,
            server.key() == baton_key.bytes(),
            server.streams() == Map::<u64, SlotState>::empty(),
            server.next_stream_id() == 0,
    {
        Server {
            self_url,
            baton_key,
            stream_state: ServerStreamState { streams: HashMap::new(), next_stream_id: 0 },
        }
    }

    /// The address under which clients reach this server, if it has one.
    pub fn base_url(&self) -> (url: Option<String>)
        ensures
            url == self.self_url(),
    {
        self.self_url.clone()
    }

    /// How many streams the registry knows.
    pub fn stream_count(&self) -> (n: usize)
        ensures
            n == self.streams().len(),
    {
        self.stream_state.streams.len()
    }


    /// Why a request with this baton gets no stream, if it gets none.
    ///
    /// Without a baton the request wants a new stream: there must be a
    /// stream number left and a connection to have. With one, the baton
    /// must be one of this server, its stream must be known and idle, and it
    /// must carry the sequence number that the stream expects.
    pub open spec fn acquire_fault(&self, baton: Option<Seq<char>>, alloc: &Allocation) -> Option<
        AcquireError,
    > {
        match baton {
            None => if self.next_stream_id() == u64::MAX {
                Some(AcquireError::Exhausted)
            } else if alloc.live().len() >= alloc.max_concurrent_connections() {
                Some(
                    AcquireError::Alloc(
                        AllocError::TooManyConnections { max: alloc.max_concurrent_connections() },
                    ),
                )
            } else {
                None
            },
            Some(text) => match baton_of(self.key(), text) {
                None => Some(AcquireError::Stream(StreamError::BatonInvalid)),
                Some((id, seq)) => match self.stream(id) {
                    None => Some(AcquireError::Stream(StreamError::BatonExpired)),
                    Some(SlotState::CheckedOut) => Some(
                        AcquireError::Stream(StreamError::BatonReused),
                    ),
                    Some(SlotState::Idle { seq: expected, .. }) => if seq != expected {
                        Some(AcquireError::Stream(StreamError::BatonReused))
                    } else {
                        None
                    },
                },
            },
        }
    }

    /// The stream that a request with this baton means: the one that the
    /// baton names, or the next new one.
    pub open spec fn acquired_id(&self, baton: Option<Seq<char>>) -> u64 {
        match baton {
            None => self.next_stream_id(),
            Some(text) => named_stream(self.key(), text),
        }
    }

    /// A baton that is older than the one that the stream expects is refused
    /// as used, and so is every baton but the expected one.
    pub proof fn lemma_old_baton_is_reused(&self, text: Seq<char>, alloc: &Allocation)
        requires
            self.wf(),
            baton_of(self.key(), text) is Some,
            self.stream(named_stream(self.key(), text)) matches Some(SlotState::Idle { seq, .. })
                && named_seq(self.key(), text) != seq,
        ensures
            self.acquire_fault(Some(text), alloc) == Some(
                AcquireError::Stream(StreamError::BatonReused),
            ),
    {
    }

    /// While a request holds a stream, no baton gets that stream for
    /// another.
    pub proof fn lemma_checked_out_is_exclusive(&self, text: Seq<char>, alloc: &Allocation)
        requires
            self.wf(),
            baton_of(self.key(), text) is Some,
            self.stream(named_stream(self.key(), text)) == Some(SlotState::CheckedOut),
        ensures
            self.acquire_fault(Some(text), alloc) == Some(
                AcquireError::Stream(StreamError::BatonReused),
            ),
    {
    }

    /// Hands the stream that the baton names to a request, or a new stream
    /// where there is no baton. A new stream gets a connection of `alloc`.
    /// The stream is then with the request until it is given back.
    pub fn acquire(&mut self, baton: Option<&str>, alloc: &mut Allocation) -> (r: Result<
        StreamGuard,
        AcquireError,
    >)
        requires
            old(self).wf(),
            old(alloc).wf(),
        ensures
            final(self).wf(),
            final(alloc).wf(),
            final(self).key() == old(self).key(),
            final(self).self_url() == old(self).self_url(),
            final(alloc).database() == old(alloc).database(),
            final(alloc).database_id() == old(alloc).database_id(),
            final(alloc).max_concurrent_connections() == old(alloc).max_concurrent_connections(),
            final(alloc).db_name() == old(alloc).db_name(),
            r is Err <==> old(self).acquire_fault(text_view(baton), old(alloc)) is Some,
            r matches Err(e) ==> Some(e) == old(self).acquire_fault(text_view(baton), old(alloc))
                && final(self).streams() == old(self).streams() && final(self).next_stream_id()
                == old(self).next_stream_id() && final(alloc).live() == old(alloc).live()
                && final(alloc).last_id() == old(alloc).last_id(),
            r matches Ok(guard) ==> {
                let id = old(self).acquired_id(text_view(baton));
                &&& guard.stream().stream_id == id
                &&& !guard.is_closed()
                &&& final(self).stream(id) == Some(SlotState::CheckedOut)
                &&& forall|other: u64|
                    other != id ==> final(self).stream(other) == old(self).stream(other)
                &&& match baton {
                    Some(text) => {
                        &&& old(self).stream(id) matches Some(SlotState::Idle { stream, seq, .. })
                        &&& guard.stream() == stream
                        &&& guard.presented() == Some(seq)
                        &&& final(self).next_stream_id() == old(self).next_stream_id()
                        &&& final(alloc).live() == old(alloc).live()
                        &&& final(alloc).last_id() == old(alloc).last_id()
                    },
                    None => {
                        &&& guard.presented() is None
                        &&& guard.stream().sqls@ == Map::<i32, String>::empty()
                        &&& final(self).next_stream_id() == id + 1
                        &&& final(alloc).live() == old(alloc).live().push(guard.stream().conn.id)
                        &&& !old(alloc).live().contains(guard.stream().conn.id)
                        &&& is_next_free(
                            old(alloc).live(),
                            old(alloc).last_id(),
                            guard.stream().conn.id,
                        )
                        &&& final(alloc).last_id() == guard.stream().conn.id
                    },
                }
            },
    {
        match baton {
            None => {
                let id: u64 = self.stream_state.next_stream_id;
                if id == u64::MAX {
                    return Err(AcquireError::Exhausted);
                }
                let conn = match alloc.new_conn() {
                    Ok(conn) => conn,
                    Err(e) => {
                        return Err(AcquireError::Alloc(e));
                    },
                };
                self.stream_state.streams.insert(id, SlotState::CheckedOut);
                self.stream_state.next_stream_id = id + 1;
                Ok(
                    StreamGuard {
                        stream: Stream { stream_id: id, conn, sqls: HashMap::new() },
                        presented: None,
                        closed: false,
                    },
                )
            },
            Some(text) => {
                let (id, seq) = match self.baton_key.decode(text) {
                    Ok(named) => named,
                    Err(e) => {
                        return Err(AcquireError::Stream(e));
                    },
                };
                let is_expected: bool = match self.stream_state.streams.get(&id) {
                    None => {
                        return Err(AcquireError::Stream(StreamError::BatonExpired));
                    },
                    Some(SlotState::CheckedOut) => false,
                    Some(SlotState::Idle { seq: expected, .. }) => *expected == seq,
                };
                if !is_expected {
                    return Err(AcquireError::Stream(StreamError::BatonReused));
                }
                match self.stream_state.streams.insert(id, SlotState::CheckedOut) {
                    Some(SlotState::Idle { stream, seq: expected, .. }) => Ok(
                        StreamGuard { stream, presented: Some(expected), closed: false },
                    ),
                    _ => {
                        assert(false);
                        Err(AcquireError::Stream(StreamError::BatonReused))
                    },
                }
            },
        }
    }
}

/// The text of an optional string.
pub open spec fn text_view(s: Option<&str>) -> Option<Seq<char>> {
    match s {
        Some(s) => Some(s@),
        None => None,
    }
}


/// Whether a stream is known and has been idle for longer than `timeout` at
/// the time `now`.
pub open spec fn is_stale_stream(state: Option<SlotState>, now: u64, timeout: u64) -> bool {
    state matches Some(s) && is_stale(s, now, timeout)
}

/// The sequence number of the baton that a request hands out when it gives
/// its stream back: 0 for a new stream, and the number after the one that
/// was presented for a resumed one. After the last number there is none.
pub open spec fn released_seq(presented: Option<u64>) -> Option<u64> {
    match presented {
        None => Some(0u64),
        Some(seq) => if seq == u64::MAX {
            None
        } else {
            Some((seq + 1) as u64)
        },
    }
}

/// Whether a stream that a request gives back goes on: the registry knows it
/// as checked out, the client did not ask to close it, and a sequence number
/// is left.
pub open spec fn goes_on(server: &Server, guard: StreamGuard) -> bool {
    &&& server.stream(guard.stream().stream_id) == Some(SlotState::CheckedOut)
    &&& !guard.is_closed()
    &&& released_seq(guard.presented()) is Some
}

/// Where a stream is after the request that held it gave it back: idle
/// under its next sequence number, if it goes on, and gone, if it has ended.
/// A stream that the registry did not know as checked out stays as it was.
pub open spec fn released_slot(before: Option<SlotState>, guard: StreamGuard, now: u64) -> Option<
    SlotState,
> {
    if !(before == Some(SlotState::CheckedOut)) {
        before
    } else if guard.is_closed() || released_seq(guard.presented()) is None {
        None
    } else {
        Some(
            SlotState::Idle {
                stream: guard.stream(),
                seq: released_seq(guard.presented())->0,
                last_used: now,
            },
        )
    }
}

/// Where a stream is after the request that held it was cancelled: idle
/// under the sequence number that resumed it, or gone, if it was new. A
/// stream that the registry did not know as checked out stays as it was.
pub open spec fn cancelled_slot(before: Option<SlotState>, guard: StreamGuard, now: u64) -> Option<
    SlotState,
> {
    if !(before == Some(SlotState::CheckedOut)) {
        before
    } else {
        match guard.presented() {
            None => None,
            Some(seq) => Some(SlotState::Idle { stream: guard.stream(), seq, last_used: now }),
        }
    }
}

/// The sequence numbers that resume a stream start at 0 and go up by one:
/// the baton that a request hands out carries the number after the one that
/// the request was resumed with, and that number is higher.
pub proof fn lemma_seq_goes_up(presented: u64)
    requires
        presented < u64::MAX,
    ensures
        released_seq(None) == Some(0u64),
        released_seq(Some(presented)) == Some((presented + 1) as u64),
        released_seq(Some(presented))->0 > presented,
{
}

/// The batons of a stream are good in the order in which they were handed
/// out, each once: after a request gave the stream back, the stream is
/// resumed by the baton with the next sequence number and by no other. Every
/// other baton for the stream, and so every older one, is refused as used.
/// The first baton of a stream carries the number 0.
pub proof fn lemma_baton_order(
    server: &Server,
    guard: StreamGuard,
    now: u64,
    text: Seq<char>,
    alloc: &Allocation,
)
    requires
        server.wf(),
        !guard.is_closed(),
        released_seq(guard.presented()) is Some,
        server.stream(guard.stream().stream_id) == released_slot(
            Some(SlotState::CheckedOut),
            guard,
            now,
        ),
        baton_of(server.key(), text) is Some,
        named_stream(server.key(), text) == guard.stream().stream_id,
    ensures
        server.acquire_fault(Some(text), alloc) is None <==> named_seq(server.key(), text)
            == released_seq(guard.presented())->0,
        named_seq(server.key(), text) != released_seq(guard.presented())->0
            ==> server.acquire_fault(Some(text), alloc) == Some(
            AcquireError::Stream(StreamError::BatonReused),
        ),
        guard.presented() matches Some(presented) ==> released_seq(guard.presented())->0
            > presented,
        guard.presented() is None ==> released_seq(guard.presented())->0 == 0,
{
}

impl Server {
    /// Takes a stream back from a request and hands out the baton that
    /// resumes it. The stream ends, and its connection is to be closed,
    /// where the client asked to close it, where no sequence number is
    /// left, or where the registry does not know the stream as checked out.
    pub fn release(&mut self, guard: StreamGuard, now: u64) -> (r: Released)
        requires
            old(self).wf(),
        ensures
            final(self).wf(),
            final(self).key() == old(self).key(),
            final(self).self_url() == old(self).self_url(),
            final(self).next_stream_id() == old(self).next_stream_id(),
            forall|other: u64|
                other != guard.stream().stream_id ==> final(self).stream(other) == old(self).stream(other),
            final(self).stream(guard.stream().stream_id) == released_slot(
                old(self).stream(guard.stream().stream_id),
                guard,
                now,
            ),
            ({
                let id = guard.stream().stream_id;
                let next = released_seq(guard.presented());
                if !(old(self).stream(id) == Some(SlotState::CheckedOut)) {
                    &&& final(self).stream(id) == old(self).stream(id)
                    &&& r.baton is None
                    &&& r.close_conn == Some(guard.stream().conn)
                } else if guard.is_closed() || next is None {
                    &&& final(self).stream(id) is None
                    &&& r.baton is None
                    &&& r.close_conn == Some(guard.stream().conn)
                } else {
                    &&& final(self).stream(id) == Some(
                        SlotState::Idle { stream: guard.stream(), seq: next->0, last_used: now },
                    )
                    &&& r.baton matches Some(text)
                    &&& baton_of(final(self).key(), text@) == Some((id, next->0))
                    &&& r.close_conn is None
                }
            }),
    {
        let id: u64 = guard.stream.stream_id;
        let conn = guard.stream.conn;
        let checked_out: bool = match self.stream_state.streams.get(&id) {
            Some(SlotState::CheckedOut) => true,
            _ => false,
        };
        if !checked_out {
            return Released { baton: None, close_conn: Some(conn) };
        }
        let next: Option<u64> = match guard.presented {
            None => Some(0),
            Some(seq) => if seq == u64::MAX {
                None
            } else {
                Some(seq + 1)
            },
        };
        self.stream_state.streams.remove(&id);
        if guard.closed {
            return Released { baton: None, close_conn: Some(conn) };
        }
        let seq: u64 = match next {
            Some(seq) => seq,
            None => {
                return Released { baton: None, close_conn: Some(conn) };
            },
        };
        let text = self.baton_key.encode(id, seq);
        self.stream_state.streams.insert(
            id,
            SlotState::Idle { stream: guard.stream, seq, last_used: now },
        );
        Released { baton: Some(text), close_conn: None }
    }


    /// Takes a stream back from a request that was cancelled: the stream
    /// waits again for the baton that resumed it. A stream that was just
    /// made has no baton, so it ends, and its connection is to be closed;
    /// so does one that the registry does not know as checked out.
    pub fn cancel(&mut self, guard: StreamGuard, now: u64) -> (close_conn: Option<ConnectionId>)
        requires
            old(self).wf(),
        ensures
            final(self).wf(),
            final(self).key() == old(self).key(),
            final(self).self_url() == old(self).self_url(),
            final(self).next_stream_id() == old(self).next_stream_id(),
            forall|other: u64|
                other != guard.stream().stream_id ==> final(self).stream(other) == old(self).stream(other),
            final(self).stream(guard.stream().stream_id) == cancelled_slot(
                old(self).stream(guard.stream().stream_id),
                guard,
                now,
            ),
            ({
                let id = guard.stream().stream_id;
                if !(old(self).stream(id) == Some(SlotState::CheckedOut)) {
                    &&& final(self).stream(id) == old(self).stream(id)
                    &&& close_conn == Some(guard.stream().conn)
                } else {
                    match guard.presented() {
                        None => final(self).stream(id) is None && close_conn == Some(
                            guard.stream().conn,
                        ),
                        Some(seq) => final(self).stream(id) == Some(
                            SlotState::Idle { stream: guard.stream(), seq, last_used: now },
                        ) && close_conn is None,
                    }
                }
            }),
    {
        let id: u64 = guard.stream.stream_id;
        let conn = guard.stream.conn;
        let checked_out: bool = match self.stream_state.streams.get(&id) {
            Some(SlotState::CheckedOut) => true,
            _ => false,
        };
        if !checked_out {
            return Some(conn);
        }
        self.stream_state.streams.remove(&id);
        match guard.presented {
            None => Some(conn),
            Some(seq) => {
                self.stream_state.streams.insert(
                    id,
                    SlotState::Idle { stream: guard.stream, seq, last_used: now },
                );
                None
            },
        }
    }

    /// Whether the stream `id` has been idle for longer than `timeout` at
    /// the time `now` and runs on the connection `conn`.
    pub open spec fn stale_on(&self, id: u64, conn: ConnectionId, now: u64, timeout: u64) -> bool {
        self.stream(id) matches Some(SlotState::Idle { stream, last_used, .. }) && stream.conn
            == conn && now > last_used && now - last_used > timeout
    }

    /// Whether some stream has been idle for longer than `timeout` at the
    /// time `now` and runs on the connection `conn`.
    pub open spec fn stale_conn(&self, conn: ConnectionId, now: u64, timeout: u64) -> bool {
        exists|id: u64| #[trigger] self.stale_on(id, conn, now, timeout)
    }


    /// Ends the stream `id`, if it has been idle for longer than `timeout`
    /// at the time `now`, and hands out its connection, which is to be
    /// closed. A stream that is with a request stays, and so does one that
    /// was used of late.
    pub fn expire(&mut self, id: u64, now: u64, timeout: u64) -> (r: Option<ConnectionId>)
        requires
            old(self).wf(),
        ensures
            final(self).wf(),
            final(self).key() == old(self).key(),
            final(self).self_url() == old(self).self_url(),
            final(self).next_stream_id() == old(self).next_stream_id(),
            r is Some <==> is_stale_stream(old(self).stream(id), now, timeout),
            r matches Some(conn) ==> old(self).stale_on(id, conn, now, timeout)
                && final(self).streams() == old(self).streams().remove(id),
            r is None ==> final(self).streams() == old(self).streams(),
    {
        let stale: Option<ConnectionId> = match self.stream_state.streams.get(&id) {
            Some(SlotState::Idle { stream, last_used, .. }) => {
                if now > *last_used && now - *last_used > timeout {
                    Some(stream.conn)
                } else {
                    None
                }
            },
            _ => None,
        };
        if stale.is_some() {
            self.stream_state.streams.remove(&id);
        }
        stale
    }

    /// The numbers of the streams that have been idle for longer than
    /// `timeout` at the time `now`.
    fn stale_ids(&self, now: u64, timeout: u64) -> (ids: Vec<u64>)
        ensures
            forall|k: int|
                0 <= k < ids@.len() ==> is_stale_stream(
                    self.stream(#[trigger] ids@[k]),
                    now,
                    timeout,
                ),
            forall|id: u64| is_stale_stream(self.stream(id), now, timeout) ==> ids@.contains(id),
    {
        let mut ids: Vec<u64> = Vec::new();
        let ghost all = self.stream_state.streams.keys().remaining();
        let ghost mut seen: int = 0;
        for id in it: self.stream_state.streams.keys()
            invariant
                it.seq() == all,
                seen == it.index(),
                all.unref().to_set() == self.streams().dom(),
                forall|k: int|
                    0 <= k < ids@.len() ==> is_stale_stream(
                        self.stream(#[trigger] ids@[k]),
                        now,
                        timeout,
                    ),
                forall|j: int|
                    0 <= j < it.index() && is_stale_stream(
                        self.stream(*(#[trigger] it.seq()[j])),
                        now,
                        timeout,
                    ) ==> ids@.contains(*it.seq()[j]),
        {
            let ghost before = ids@;
            let stale: bool = match self.stream_state.streams.get(id) {
                Some(SlotState::Idle { last_used, .. }) => now > *last_used && now - *last_used
                    > timeout,
                _ => false,
            };
            if stale {
                ids.push(*id);
            }
            proof {
                assert forall|j: int|
                    0 <= j < it.index() + 1 && is_stale_stream(
                        self.stream(*(#[trigger] it.seq()[j])),
                        now,
                        timeout,
                    ) implies ids@.contains(*it.seq()[j]) by {
                    if j < it.index() {
                        let w = choose|w: int| 0 <= w < before.len() && before[w] == *it.seq()[j];
                        assert(ids@[w] == *it.seq()[j]);
                    } else {
                        assert(ids@[ids@.len() - 1] == *id);
                    }
                }
                seen = seen + 1;
            }
        }
        proof {
            assert forall|id: u64| is_stale_stream(self.stream(id), now, timeout) implies ids@.contains(
                id,
            ) by {
                assert(all.unref().to_set().contains(id));
                let j = choose|j: int| 0 <= j < all.unref().len() && all.unref()[j] == id;
                assert(*all[j] == id);
            }
        }
        ids
    }

    /// One round of expiry: ends every stream that has been idle for longer
    /// than `timeout` at the time `now`, and hands out their connections,
    /// which are to be closed. Every other stream stays as it is.
    pub fn run_expire(&mut self, now: u64, timeout: u64) -> (closed: Vec<ConnectionId>)
        requires
            old(self).wf(),
        ensures
            final(self).wf(),
            final(self).key() == old(self).key(),
            final(self).self_url() == old(self).self_url(),
            final(self).next_stream_id() == old(self).next_stream_id(),
            forall|id: u64|
                (#[trigger] final(self).stream(id)) == (if is_stale_stream(
                    old(self).stream(id),
                    now,
                    timeout,
                ) {
                    None
                } else {
                    old(self).stream(id)
                }),
            closed@.len() + final(self).streams().len() == old(self).streams().len(),
            forall|k: int|
                0 <= k < closed@.len() ==> #[trigger] old(self).stale_conn(closed@[k], now, timeout),
            forall|id: u64, conn: ConnectionId| #[trigger]
                old(self).stale_on(id, conn, now, timeout) ==> closed@.contains(conn),
    {
        let ids = self.stale_ids(now, timeout);
        let mut closed: Vec<ConnectionId> = Vec::new();
        let mut i: usize = 0;
        while i < ids.len()
            invariant
                i <= ids@.len(),
                self.wf(),
                self.key() == old(self).key(),
                self.self_url() == old(self).self_url(),
                self.next_stream_id() == old(self).next_stream_id(),
                closed@.len() + self.streams().len() == old(self).streams().len(),
                forall|k: int|
                    0 <= k < ids@.len() ==> is_stale_stream(
                        old(self).stream(#[trigger] ids@[k]),
                        now,
                        timeout,
                    ),
                forall|id: u64|
                    is_stale_stream(old(self).stream(id), now, timeout) ==> ids@.contains(id),
                forall|id: u64| #[trigger]
                    self.streams().contains_key(id) ==> old(self).streams().contains_key(id)
                        && self.streams()[id] == old(self).streams()[id],
                forall|id: u64|
                    old(self).streams().contains_key(id) && !(#[trigger] self.streams().contains_key(
                        id,
                    )) ==> is_stale_stream(old(self).stream(id), now, timeout),
                forall|k: int| 0 <= k < i ==> !self.streams().contains_key(#[trigger] ids@[k]),
                forall|k: int|
                    0 <= k < closed@.len() ==> #[trigger] old(self).stale_conn(closed@[k], now, timeout),
                forall|id: u64, conn: ConnectionId|
                    (#[trigger] old(self).stale_on(id, conn, now, timeout))
                        && !self.streams().contains_key(id) ==> closed@.contains(conn),
            decreases ids@.len() - i,
        {
            let id: u64 = ids[i];
            let ghost mid = self.streams();
            let ghost held = closed@;
            match self.expire(id, now, timeout) {
                Some(conn) => {
                    closed.push(conn);
                    proof {
                        mid.lemma_remove_key_len(id);
                        assert(old(self).stale_on(id, conn, now, timeout));
                        assert forall|k: int| 0 <= k < closed@.len() implies #[trigger] old(
                            self,
                        ).stale_conn(closed@[k], now, timeout) by {
                            if k < held.len() {
                                assert(closed@[k] == held[k]);
                                assert(old(self).stale_conn(held[k], now, timeout));
                            }
                        }
                        assert forall|other: u64, c: ConnectionId|
                            (#[trigger] old(self).stale_on(other, c, now, timeout))
                                && !self.streams().contains_key(other) implies closed@.contains(
                            c,
                        ) by {
                            if other == id {
                                assert(closed@[closed@.len() - 1] == c);
                            } else {
                                assert(!mid.contains_key(other));
                                let w = choose|w: int| 0 <= w < held.len() && held[w] == c;
                                assert(closed@[w] == c);
                            }
                        }
                    }
                },
                None => {},
            }
            i += 1;
        }
        proof {
            assert forall|id: u64|
                (#[trigger] self.stream(id)) == (if is_stale_stream(
                    old(self).stream(id),
                    now,
                    timeout,
                ) {
                    None
                } else {
                    old(self).stream(id)
                }) by {
                if is_stale_stream(old(self).stream(id), now, timeout) {
                    assert(ids@.contains(id));
                    let k = choose|k: int| 0 <= k < ids@.len() && ids@[k] == id;
                    assert(!self.streams().contains_key(ids@[k]));
                }
            }
            assert forall|id: u64, conn: ConnectionId| #[trigger]
                old(self).stale_on(id, conn, now, timeout) implies closed@.contains(conn) by {
                assert(is_stale_stream(old(self).stream(id), now, timeout));
                assert(self.stream(id) is None);
            }
        }
        closed
    }
}

} // verus!
