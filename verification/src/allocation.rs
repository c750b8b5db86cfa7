//! The actor of one allocation: it owns the database, gives out connections
//! up to a limit, each under an id of its own, and sorts the messages that
//! arrive for its database.

use vstd::prelude::*;
use vstd::set_lib::*;
use crate::bus::{BusError, Envelope, Message};
use vstd::string::*;
use vstd::utf8::encode_utf8;
use crate::config::{
    database_id, database_id_of, AllocConfig, DatabaseId, DbConfig, Duration, NodeId,
};
use crate::log::FrameLog;
use crate::program::Program;

verus! {

/// How many connection ids there are.
pub const ID_SPACE: u64 = 0x1_0000_0000;

/// The database of an allocation, by its role.
#[derive(Clone, Copy, Debug, PartialEq, Eq, Structural)]
pub enum Database {
    Primary { max_log_size: usize, compact_interval: Option<Duration> },
    Replica { primary_node_id: NodeId, proxy_request_timeout: Duration },
}

/// What kind of connection a database gives out.
#[derive(Clone, Copy, Debug, PartialEq, Eq, Structural)]
pub enum ConnectionKind {
    /// A connection that runs everything on the database itself.
    Direct,
    /// A connection that reads from the database and hands writes to the
    /// primary.
    WriteProxy { primary_node_id: NodeId, proxy_request_timeout: Duration },
}

/// The database that a configuration describes: a primary with its limits,
/// or a replica of the named primary.
pub open spec fn database_of(db_config: DbConfig) -> Database {
    match db_config {
        DbConfig::Primary { max_log_size, replication_log_compact_interval } => Database::Primary {
            max_log_size,
            compact_interval: replication_log_compact_interval,
        },
        DbConfig::Replica { primary_node_id, proxy_request_timeout_duration } => {
            Database::Replica {
                primary_node_id,
                proxy_request_timeout: proxy_request_timeout_duration,
            }
        },
    }
}

impl Database {
    /// The database that a configuration describes.
    pub fn from_config(config: &AllocConfig) -> (db: Database)
        ensures
            db == database_of(config.db_config),
    {
        match config.db_config {
            DbConfig::Primary { max_log_size, replication_log_compact_interval } => {
                Database::Primary { max_log_size, compact_interval: replication_log_compact_interval }
            },
            DbConfig::Replica { primary_node_id, proxy_request_timeout_duration } => {
                Database::Replica {
                    primary_node_id,
                    proxy_request_timeout: proxy_request_timeout_duration,
                }
            },
        }
    }

    /// Whether the log of this database is due for compaction: a primary
    /// compacts a log that has grown past its limit, and a replica has no
    /// log to compact.
    pub fn should_compact(&self, log: &FrameLog) -> (b: bool)
        ensures
            b == match *self {
                Database::Primary { max_log_size, .. } => log.log_frames().len() > max_log_size,
                Database::Replica { .. } => false,
            },
    {
        match *self {
            Database::Primary { max_log_size, .. } => log.should_compact(max_log_size),
            Database::Replica { .. } => false,
        }
    }

    /// The kind of connection that this database gives out.
    pub fn connect(&self) -> (kind: ConnectionKind)
        ensures
            kind == match *self {
                Database::Primary { .. } => ConnectionKind::Direct,
                Database::Replica { primary_node_id, proxy_request_timeout } => {
                    ConnectionKind::WriteProxy { primary_node_id, proxy_request_timeout }
                },
            },
    {
        match *self {
            Database::Primary { .. } => ConnectionKind::Direct,
            Database::Replica { primary_node_id, proxy_request_timeout } => {
                ConnectionKind::WriteProxy { primary_node_id, proxy_request_timeout }
            },
        }
    }
}

/// The id of a connection worker within its allocation.
#[derive(Clone, Copy, Debug, PartialEq, Eq, Structural)]
pub struct ConnectionId {
    pub id: u32,
}

/// Why an allocation gives out no connection.
#[derive(Clone, Copy, Debug, PartialEq, Eq, Structural)]
pub enum AllocError {
    /// As many workers are alive as the allocation may have.
    TooManyConnections { max: u32 },
}

/// A message in the mailbox of an allocation.
#[derive(Debug, PartialEq, Eq)]
pub enum AllocationMessage<P> {
    /// Someone asks for a connection.
    NewConnection,
    /// A pipeline of a client is to be run.
    HranaPipelineReq { req: P },
    /// An envelope arrived from the bus.
    Inbound(Envelope),
}

/// What an allocation does with an envelope from the bus.
#[derive(Debug, PartialEq, Eq)]
pub enum InboundAction {
    /// Run the program on the connection and answer the sender.
    RunProgram { from: NodeId, connection_id: u32, req_id: u32, program: Program },
    /// Hand on the answer of a primary to the connection that waits for it.
    CompleteProxy { connection_id: u32, req_id: u32 },
    /// Interrupt what the connection is running.
    Interrupt { connection_id: u32, req_id: u32 },
    /// Stop the worker of the connection.
    DropConnection { connection_id: u32 },
    /// Hand the message to the replication of this database.
    Replication(Message),
    /// Answer the greeting of a peer.
    Greet { from: NodeId, message: Message },
    /// Answer the sender with an error: the connection is unknown.
    Refuse { to: NodeId, error: BusError },
    /// Take note of an error that a peer reports.
    PeerFailed { from: NodeId, error: BusError },
    /// The envelope is for another database: it does not belong here.
    Misdelivered(Envelope),
}

/// What an allocation does with a message from its mailbox.
#[derive(Debug, PartialEq, Eq)]
pub enum AllocationAction<P> {
    /// Answer the request for a connection: with a new worker to start, or
    /// with the refusal.
    Connection(Result<ConnectionId, AllocError>),
    /// Run the pipeline; the stream may ask for a connection.
    RunPipeline(P),
    /// An envelope was sorted.
    Inbound(InboundAction),
}

/// The id that stands `k` places after `start`, where the ids go round.
pub open spec fn candidate(start: u32, k: int) -> u32 {
    ((start + k) % (ID_SPACE as int)) as u32
}

/// Whether `id` is the first id after `start` that no worker in `live` has.
pub open spec fn is_next_free(live: Seq<u32>, start: u32, id: u32) -> bool {
    exists|k: int|
        1 <= k <= ID_SPACE && #[trigger] candidate(start, k) == id && !live.contains(id)
            && forall|j: int| 1 <= j < k ==> live.contains(#[trigger] candidate(start, j))
}

/// Fewer workers than ids leave an id free.
pub proof fn lemma_some_id_is_free(live: Seq<u32>, start: u32)
    requires
        live.len() < ID_SPACE,
    ensures
        exists|k: int| 1 <= k <= ID_SPACE && !live.contains(#[trigger] candidate(start, k)),
{
    if forall|k: int| 1 <= k <= ID_SPACE ==> live.contains(#[trigger] candidate(start, k)) {
        let ints = live.map_values(|x: u32| x as int);
        let all = set_int_range(0, ID_SPACE as int);
        assert forall|x: int| all.contains(x) implies ints.to_set().contains(x) by {
            let k = if x > start { x - start } else { x - start + ID_SPACE };
            assert(candidate(start, k) == x);
            assert(live.contains(candidate(start, k)));
            let i = choose|i: int| 0 <= i < live.len() && live[i] == candidate(start, k);
            assert(ints[i] == x);
        }
        lemma_int_range(0, ID_SPACE as int);
        ints.lemma_cardinality_of_set();
        lemma_len_subset(all, ints.to_set());
        assert(false);
    }
}

/// The state of the actor of one allocation.
#[derive(Debug)]
pub struct Allocation {
    database: Database,
    db_name: String,
    database_id: DatabaseId,
    next_conn_id: u32,
    max_concurrent_connections: u32,
    connections: Vec<u32>,
}

impl Allocation {
    /// The database of the allocation.
    pub closed spec fn database(&self) -> Database {
        self.database
    }

    /// The name of the database.
    pub closed spec fn db_name(&self) -> Seq<char> {
        self.db_name@
    }

    /// The identity of the database.
    pub closed spec fn database_id(&self) -> DatabaseId {
        self.database_id
    }

    /// The id that was given out last.
    pub closed spec fn last_id(&self) -> u32 {
        self.next_conn_id
    }

    /// How many workers may be alive at once.
    pub closed spec fn max_concurrent_connections(&self) -> u32 {
        self.max_concurrent_connections
    }

    /// The ids of the workers that are alive, oldest first.
    pub closed spec fn live(&self) -> Seq<u32> {
        self.connections@
    }

    /// No two live workers have the same id, and there are no more workers
    /// than the allocation may have.
    pub open spec fn wf(&self) -> bool {
        &&& self.live().len() <= self.max_concurrent_connections()
        &&& forall|i: int, j: int|
            0 <= i < j < self.live().len() ==> self.live()[i] != self.live()[j]
    }

    /// The actor of a fresh allocation: no worker is alive. The identity of
    /// the database is the one that its name gives.
    pub fn new(config: &AllocConfig) -> (alloc: Allocation)
        ensures
            alloc.wf(),
            alloc.database() == database_of(config.db_config),
            alloc.db_name() == config.db_name@,
            alloc.database_id() == database_id_of(encode_utf8(config.db_name@)),
            alloc.last_id() == 0,
            alloc.max_concurrent_connections() == config.max_conccurent_connection,
            alloc.live() == Seq::<u32>::empty(),
    {
        Allocation {
            database: Database::from_config(config),
            db_name: config.db_name.clone(),
            database_id: database_id(config.db_name.as_str()),
            next_conn_id: 0,
            max_concurrent_connections: config.max_conccurent_connection,
            connections: Vec::new(),
        }
    }

    /// The identity of the database.
    pub fn id(&self) -> (id: DatabaseId)
        ensures
            id == self.database_id(),
    {
        self.database_id
    }

    /// How many workers are alive.
    pub fn connection_count(&self) -> (n: usize)
        ensures
            n == self.live().len(),
    {
        self.connections.len()
    }

    /// Whether a live worker has the id `id`.
    pub fn is_live(&self, id: u32) -> (b: bool)
        ensures
            b == self.live().contains(id),
    {
        let n: usize = self.connections.len();
        let mut i: usize = 0;
        while i < n
            invariant
                i <= n,
                n == self.live().len(),
                forall|k: int| 0 <= k < i ==> self.live()[k] != id,
            decreases n - i,
        {
            if self.connections[i] == id {
                return true;
            }
            i += 1;
        }
        false
    }

    /// Takes the next id that no live worker has: the ids are tried one
    /// after the other from the one given out last, and go round. There is
    /// none where every id is taken.
    pub fn next_conn_id(&mut self) -> (r: Option<u32>)
        ensures
            final(self).database() == old(self).database(),
            final(self).db_name() == old(self).db_name(),
            final(self).database_id() == old(self).database_id(),
            final(self).max_concurrent_connections() == old(self).max_concurrent_connections(),
            final(self).live() == old(self).live(),
            r matches Some(id) ==> is_next_free(old(self).live(), old(self).last_id(), id)
                && final(self).last_id() == id,
            r is None ==> final(self).last_id() == old(self).last_id() && forall|k: int|
                1 <= k <= ID_SPACE ==> old(self).live().contains(
                    #[trigger] candidate(old(self).last_id(), k),
                ),
    {
        let start: u32 = self.next_conn_id;
        let mut k: u64 = 1;
        while k <= 0x1_0000_0000
            invariant
                1 <= k <= ID_SPACE + 1,
                start == self.last_id(),
                *self == *old(self),
                forall|j: int| 1 <= j < k ==> self.live().contains(#[trigger] candidate(start, j)),
            decreases ID_SPACE + 1 - k,
        {
            let id: u32 = ((start as u64 + k) % 0x1_0000_0000) as u32;
            assert(id == candidate(start, k as int));
            if !self.is_live(id) {
                self.next_conn_id = id;
                return Some(id);
            }
            k = k + 1;
        }
        None
    }

    /// Gives out a connection, if fewer workers are alive than the
    /// allocation may have: the new worker gets the next id that no live
    /// worker has.
    pub fn new_conn(&mut self) -> (r: Result<ConnectionId, AllocError>)
        requires
            old(self).wf(),
        ensures
            final(self).wf(),
            final(self).database() == old(self).database(),
            final(self).db_name() == old(self).db_name(),
            final(self).database_id() == old(self).database_id(),
            final(self).max_concurrent_connections() == old(self).max_concurrent_connections(),
            r is Ok <==> old(self).live().len() < old(self).max_concurrent_connections(),
            r matches Ok(conn) ==> is_next_free(old(self).live(), old(self).last_id(), conn.id)
                && final(self).live() == old(self).live().push(conn.id)
                && final(self).last_id() == conn.id,
            r matches Err(e) ==> e == (AllocError::TooManyConnections {
                max: old(self).max_concurrent_connections(),
            }) && final(self).live() == old(self).live() && final(self).last_id()
                == old(self).last_id(),
    {
        if self.connections.len() >= self.max_concurrent_connections as usize {
            return Err(AllocError::TooManyConnections { max: self.max_concurrent_connections });
        }
        proof {
            lemma_some_id_is_free(self.live(), self.last_id());
        }
        match self.next_conn_id() {
            Some(id) => {
                let ghost before = self.live();
                self.connections.push(id);
                proof {
                    let after = self.live();
                    assert forall|i: int, j: int| 0 <= i < j < after.len() implies after[i]
                        != after[j] by {
                        if j == before.len() {
                            assert(after[i] == before[i]);
                        }
                    }
                }
                Ok(ConnectionId { id })
            },
            None => {
                assert(false);
                Err(AllocError::TooManyConnections { max: self.max_concurrent_connections })
            },
        }
    }

    /// Takes note that the worker `id` has ended, or is to be dropped: its
    /// id is free again. Says whether there was such a worker.
    pub fn reap(&mut self, id: u32) -> (found: bool)
        requires
            old(self).wf(),
        ensures
            final(self).wf(),
            final(self).database() == old(self).database(),
            final(self).db_name() == old(self).db_name(),
            final(self).database_id() == old(self).database_id(),
            final(self).max_concurrent_connections() == old(self).max_concurrent_connections(),
            final(self).last_id() == old(self).last_id(),
            found == old(self).live().contains(id),
            !final(self).live().contains(id),
            found ==> exists|at: int|
                0 <= at < old(self).live().len() && old(self).live()[at] == id && final(self).live() == old(self).live().remove(at),
            !found ==> final(self).live() == old(self).live(),
    {
        let n: usize = self.connections.len();
        let mut i: usize = 0;
        let ghost before = self.live();
        while i < n
            invariant
                i <= n,
                n == self.live().len(),
                *self == *old(self),
                self.wf(),
                before == self.live(),
                forall|k: int| 0 <= k < i ==> before[k] != id,
            decreases n - i,
        {
            if self.connections[i] == id {
                self.connections.remove(i);
                proof {
                    let after = self.live();
                    assert forall|a: int, b: int| 0 <= a < b < after.len() implies after[a]
                        != after[b] by {
                        let oa = if a < i { a } else { a + 1 };
                        let ob = if b < i { b } else { b + 1 };
                        assert(after[a] == before[oa]);
                        assert(after[b] == before[ob]);
                    }
                    assert forall|a: int| 0 <= a < after.len() implies after[a] != id by {
                        let oa = if a < i { a } else { a + 1 };
                        assert(after[a] == before[oa]);
                    }
                    assert(after == before.remove(i as int));
                }
                return true;
            }
            i += 1;
        }
        false
    }

    /// Whether the actor is done: its mailbox is closed and no worker is
    /// alive.
    pub fn is_finished(&self, mailbox_closed: bool) -> (done: bool)
        ensures
            done == (mailbox_closed && self.live().len() == 0),
    {
        mailbox_closed && self.connections.len() == 0
    }

    /// Sorts an envelope from the bus by the kind of its message. What
    /// names a connection needs that connection to be alive.
    pub fn handle_inbound(&self, envelope: Envelope) -> (action: InboundAction)
        ensures
            action == inbound_action(self.database_id(), self.live(), envelope),
    {
        if envelope.to != Some(self.database_id) {
            return InboundAction::Misdelivered(envelope);
        }
        let from: NodeId = envelope.from;
        match envelope.message {
            Message::ProxyRequest { connection_id, req_id, program } => {
                if self.is_live(connection_id) {
                    InboundAction::RunProgram { from, connection_id, req_id, program }
                } else {
                    InboundAction::Refuse { to: from, error: BusError::NotFound }
                }
            },
            Message::ProxyResponse { connection_id, req_id } => {
                if self.is_live(connection_id) {
                    InboundAction::CompleteProxy { connection_id, req_id }
                } else {
                    InboundAction::Refuse { to: from, error: BusError::NotFound }
                }
            },
            Message::CancelRequest { connection_id, req_id } => {
                if self.is_live(connection_id) {
                    InboundAction::Interrupt { connection_id, req_id }
                } else {
                    InboundAction::Refuse { to: from, error: BusError::NotFound }
                }
            },
            Message::CloseConnection { connection_id } => {
                if self.is_live(connection_id) {
                    InboundAction::DropConnection { connection_id }
                } else {
                    InboundAction::Refuse { to: from, error: BusError::NotFound }
                }
            },
            Message::Replicate { next_frame_no } => InboundAction::Replication(
                Message::Replicate { next_frame_no },
            ),
            Message::Transaction { first_frame_no, frame_count } => InboundAction::Replication(
                Message::Transaction { first_frame_no, frame_count },
            ),
            Message::Handshake { protocol_version } => InboundAction::Greet {
                from,
                message: Message::Handshake { protocol_version },
            },
            Message::ReplicationHandshake { database_name } => InboundAction::Greet {
                from,
                message: Message::ReplicationHandshake { database_name },
            },
            Message::Error(error) => InboundAction::PeerFailed { from, error },
        }
    }

    /// One step of the actor: takes a message from the mailbox and says
    /// what to do.
    pub fn run<P>(&mut self, msg: AllocationMessage<P>) -> (action: AllocationAction<P>)
        requires
            old(self).wf(),
        ensures
            final(self).wf(),
            final(self).database() == old(self).database(),
            final(self).db_name() == old(self).db_name(),
            final(self).database_id() == old(self).database_id(),
            final(self).max_concurrent_connections() == old(self).max_concurrent_connections(),
            match msg {
                AllocationMessage::NewConnection => {
                    &&& action matches AllocationAction::Connection(r)
                    &&& r is Ok <==> old(self).live().len() < old(self).max_concurrent_connections()
                    &&& r matches Ok(conn) ==> is_next_free(
                        old(self).live(),
                        old(self).last_id(),
                        conn.id,
                    ) && final(self).live() == old(self).live().push(conn.id) && final(self).last_id() == conn.id
                    &&& r matches Err(e) ==> e == (AllocError::TooManyConnections {
                        max: old(self).max_concurrent_connections(),
                    }) && final(self).live() == old(self).live() && final(self).last_id() == old(self).last_id()
                },
                AllocationMessage::HranaPipelineReq { req } => action
                    == AllocationAction::RunPipeline(req) && final(self).live() == old(self).live()
                    && final(self).last_id() == old(self).last_id(),
                AllocationMessage::Inbound(envelope) => action == AllocationAction::<
                    P,
                >::Inbound(inbound_action(old(self).database_id(), old(self).live(), envelope))
                    && final(self).live() == old(self).live() && final(self).last_id() == old(self).last_id(),
            },
    {
        match msg {
            AllocationMessage::NewConnection => AllocationAction::Connection(self.new_conn()),
            AllocationMessage::HranaPipelineReq { req } => AllocationAction::RunPipeline(req),
            AllocationMessage::Inbound(envelope) => AllocationAction::Inbound(
                self.handle_inbound(envelope),
            ),
        }
    }
}

/// What an allocation of the database `database` with the live workers
/// `live` does with an envelope.
pub open spec fn inbound_action(database: DatabaseId, live: Seq<u32>, envelope: Envelope) -> InboundAction {
    if envelope.to != Some(database) {
        InboundAction::Misdelivered(envelope)
    } else {
        let from = envelope.from;
        let refuse = InboundAction::Refuse { to: from, error: BusError::NotFound };
        match envelope.message {
            Message::ProxyRequest { connection_id, req_id, program } => if live.contains(
                connection_id,
            ) {
                InboundAction::RunProgram { from, connection_id, req_id, program }
            } else {
                refuse
            },
            Message::ProxyResponse { connection_id, req_id } => if live.contains(connection_id) {
                InboundAction::CompleteProxy { connection_id, req_id }
            } else {
                refuse
            },
            Message::CancelRequest { connection_id, req_id } => if live.contains(connection_id) {
                InboundAction::Interrupt { connection_id, req_id }
            } else {
                refuse
            },
            Message::CloseConnection { connection_id } => if live.contains(connection_id) {
                InboundAction::DropConnection { connection_id }
            } else {
                refuse
            },
            Message::Replicate { next_frame_no } => InboundAction::Replication(
                Message::Replicate { next_frame_no },
            ),
            Message::Transaction { first_frame_no, frame_count } => InboundAction::Replication(
                Message::Transaction { first_frame_no, frame_count },
            ),
            Message::Handshake { protocol_version } => InboundAction::Greet {
                from,
                message: Message::Handshake { protocol_version },
            },
            Message::ReplicationHandshake { database_name } => InboundAction::Greet {
                from,
                message: Message::ReplicationHandshake { database_name },
            },
            Message::Error(error) => InboundAction::PeerFailed { from, error },
        }
    }
}

} // verus!
