//! The write proxy of a replica: a connection that reads from the replica's
//! own database and hands everything else to the primary, and that never
//! reads a state older than its own last write.

use vstd::prelude::*;
use crate::error::{Error, StmtError};
use crate::program::Program;

verus! {

/// Where the transaction of a connection lives.
#[derive(Clone, Copy, Debug, PartialEq, Eq, Structural)]
pub enum State {
    /// No transaction is open on the primary.
    Init,
    /// The primary holds an open transaction of this connection.
    TxnOnPrimary { txn_id: u64 },
}

/// Where a program runs.
#[derive(Clone, Copy, Debug, PartialEq, Eq, Structural)]
pub enum Routing {
    /// On the replica's own database, once it has applied the frame
    /// `wait_for`, if there is one to wait for.
    Local { wait_for: Option<u64> },
    /// On the primary, in the transaction `txn_id`, if one is open.
    Remote { txn_id: Option<u64> },
}

/// What the primary answers to a program that was handed to it.
#[derive(Clone, Copy, Debug, PartialEq, Eq, Structural)]
pub struct ProxyResponse {
    /// The number of the frame that a commit ended with, where the program
    /// committed.
    pub frame_no: Option<u64>,
    /// The transaction that is open on the primary after the program, if
    /// one is.
    pub txn_id: Option<u64>,
}

/// What happens to a connection after it handed a program to the primary.
#[derive(Clone, Copy, Debug, PartialEq, Eq, Structural)]
pub enum ProxyEvent {
    /// The primary answered.
    Response(ProxyResponse),
    /// No answer came in time.
    Timeout,
    /// The bus failed.
    BusError,
}

/// What a write proxy knows.
#[derive(Clone, Copy, Debug, PartialEq, Eq, Structural)]
pub struct WriteProxyConnection {
    pub state: State,
    /// The highest frame number that the primary reported for a commit of
    /// this connection.
    pub last_seen_primary_frame_no: u64,
}

/// The larger of two frame numbers.
pub open spec fn later(a: u64, b: u64) -> u64 {
    if a >= b {
        a
    } else {
        b
    }
}

/// Where a program runs: on the replica itself if it only reads and no
/// transaction is open on the primary, and then only once the replica has
/// applied the connection's last write; on the primary in every other case.
pub open spec fn routing(conn: WriteProxyConnection, read_only: bool, local_applied: u64) -> Routing {
    if read_only && conn.state is Init {
        Routing::Local {
            wait_for: if conn.last_seen_primary_frame_no > local_applied {
                Some(conn.last_seen_primary_frame_no)
            } else {
                None
            },
        }
    } else {
        Routing::Remote {
            txn_id: match conn.state {
                State::Init => None,
                State::TxnOnPrimary { txn_id } => Some(txn_id),
            },
        }
    }
}

/// The connection after an event. An answer moves the last seen frame
/// number up to the commit's, and says whether a transaction is open on the
/// primary; a timeout ends the transaction; a failure of the bus changes
/// nothing.
pub open spec fn after(conn: WriteProxyConnection, event: ProxyEvent) -> WriteProxyConnection {
    match event {
        ProxyEvent::Response(response) => WriteProxyConnection {
            state: match response.txn_id {
                Some(txn_id) => State::TxnOnPrimary { txn_id },
                None => State::Init,
            },
            last_seen_primary_frame_no: match response.frame_no {
                Some(frame_no) => later(conn.last_seen_primary_frame_no, frame_no),
                None => conn.last_seen_primary_frame_no,
            },
        },
        ProxyEvent::Timeout => WriteProxyConnection { state: State::Init, ..conn },
        ProxyEvent::BusError => conn,
    }
}

/// The connection after a run of events.
pub open spec fn after_all(conn: WriteProxyConnection, events: Seq<ProxyEvent>) -> WriteProxyConnection
    decreases events.len(),
{
    if events.len() == 0 {
        conn
    } else {
        after_all(after(conn, events[0]), events.skip(1))
    }
}

/// The frame number that the replica has applied when a local read runs: the
/// one that the read waited for, or the one that was applied anyway.
pub open spec fn applied_at_read(route: Routing, local_applied: u64) -> u64 {
    match route {
        Routing::Local { wait_for: Some(frame_no) } => later(frame_no, local_applied),
        _ => local_applied,
    }
}

/// No event moves the last seen frame number back.
pub proof fn lemma_last_seen_grows(conn: WriteProxyConnection, events: Seq<ProxyEvent>)
    ensures
        after_all(conn, events).last_seen_primary_frame_no >= conn.last_seen_primary_frame_no,
    decreases events.len(),
{
    if events.len() > 0 {
        lemma_last_seen_grows(after(conn, events[0]), events.skip(1));
    }
}

/// A read sees the connection's own writes: after the primary has answered
/// a commit at frame `frame_no`, and whatever happens then, a program that
/// runs on the replica itself runs when the replica has applied that frame.
pub proof fn lemma_read_your_writes(
    conn: WriteProxyConnection,
    frame_no: u64,
    txn_id: Option<u64>,
    events: Seq<ProxyEvent>,
    read_only: bool,
    local_applied: u64,
)
    ensures
        ({
            let commit = ProxyEvent::Response(ProxyResponse { frame_no: Some(frame_no), txn_id });
            let then = after_all(after(conn, commit), events);
            let route = routing(then, read_only, local_applied);
            route is Local ==> applied_at_read(route, local_applied) >= frame_no
        }),
{
    let commit = ProxyEvent::Response(ProxyResponse { frame_no: Some(frame_no), txn_id });
    lemma_last_seen_grows(after(conn, commit), events);
}

impl WriteProxyConnection {
    /// A connection that has written nothing yet.
    pub fn new() -> (conn: WriteProxyConnection)
        ensures
            conn == (WriteProxyConnection { state: State::Init, last_seen_primary_frame_no: 0 }),
    {
        WriteProxyConnection { state: State::Init, last_seen_primary_frame_no: 0 }
    }

    /// Where a program runs, for a replica that has applied the frame
    /// `local_applied`.
    pub fn route(&self, program: &Program, local_applied: u64) -> (r: Routing)
        ensures
            r == routing(*self, program.read_only(), local_applied),
            r is Local ==> applied_at_read(r, local_applied) >= self.last_seen_primary_frame_no,
    {
        let local: bool = match self.state {
            State::Init => program.is_read_only(),
            State::TxnOnPrimary { .. } => false,
        };
        if local {
            let wait_for = if self.last_seen_primary_frame_no > local_applied {
                Some(self.last_seen_primary_frame_no)
            } else {
                None
            };
            Routing::Local { wait_for }
        } else {
            let txn_id = match self.state {
                State::Init => None,
                State::TxnOnPrimary { txn_id } => Some(txn_id),
            };
            Routing::Remote { txn_id }
        }
    }

    /// Takes the answer of the primary.
    pub fn on_response(&mut self, response: ProxyResponse)
        ensures
            *final(self) == after(*old(self), ProxyEvent::Response(response)),
            final(self).last_seen_primary_frame_no >= old(self).last_seen_primary_frame_no,
            response.frame_no matches Some(frame_no) ==> final(self).last_seen_primary_frame_no
                >= frame_no,
    {
        self.state = match response.txn_id {
            Some(txn_id) => State::TxnOnPrimary { txn_id },
            None => State::Init,
        };
        match response.frame_no {
            Some(frame_no) => {
                if frame_no > self.last_seen_primary_frame_no {
                    self.last_seen_primary_frame_no = frame_no;
                }
            },
            None => {},
        }
    }

    /// Takes note that the primary did not answer in time: the transaction
    /// is over, and the caller is told so.
    pub fn on_timeout(&mut self) -> (e: StmtError)
        ensures
            *final(self) == after(*old(self), ProxyEvent::Timeout),
            e == StmtError::TransactionTimeout,
    {
        self.state = State::Init;
        StmtError::TransactionTimeout
    }

    /// Takes note that the bus failed: the caller is told that the
    /// connection is closed.
    pub fn on_bus_error(&mut self) -> (e: Error)
        ensures
            *final(self) == after(*old(self), ProxyEvent::BusError),
            e == Error::ConnectionClosed,
    {
        Error::ConnectionClosed
    }
}

/// A database of a replica: it reads from `read_db` and writes through
/// `write_db`.
#[derive(Debug)]
pub struct WriteProxyDatabase<RDB, WDB> {
    pub read_db: RDB,
    pub write_db: WDB,
}

impl<RDB, WDB> WriteProxyDatabase<RDB, WDB> {
    /// The database that reads from `read_db` and writes through
    /// `write_db`.
    pub fn new(read_db: RDB, write_db: WDB) -> (db: WriteProxyDatabase<RDB, WDB>)
        ensures
            db.read_db == read_db,
            db.write_db == write_db,
    {
        WriteProxyDatabase { read_db, write_db }
    }

    /// What a new connection to the database knows: it has written nothing
    /// yet.
    pub fn connect(&self) -> (conn: WriteProxyConnection)
        ensures
            conn == (WriteProxyConnection { state: State::Init, last_seen_primary_frame_no: 0 }),
    {
        WriteProxyConnection::new()
    }
}

} // verus!
