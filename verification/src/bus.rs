//! The node bus: the messages that nodes exchange, and where an envelope
//! that arrives goes.

use vstd::prelude::*;
use vstd::bytes::*;
use vstd::slice::*;
use crate::config::{DatabaseId, NodeId};
use crate::program::Program;

verus! {

/// What a node reports to another that asked for something it cannot do.
#[derive(Clone, Copy, Debug, PartialEq, Eq, Structural)]
pub enum BusError {
    /// The envelope names a database that this node does not hold.
    NotFound,
}

/// A message between nodes.
#[derive(Debug, PartialEq, Eq)]
pub enum Message {
    /// Opens a session between two nodes.
    Handshake { protocol_version: u32 },
    /// Asks a primary to open a replication session.
    ReplicationHandshake { database_name: String },
    /// Carries frames from the frame number `next_frame_no` on.
    Replicate { next_frame_no: u64 },
    /// Carries the frames of one transaction.
    Transaction { first_frame_no: u64, frame_count: u64 },
    /// Asks a primary to run a program on behalf of a replica's connection.
    ProxyRequest { connection_id: u32, req_id: u32, program: Program },
    /// Answers a proxy request.
    ProxyResponse { connection_id: u32, req_id: u32 },
    /// Asks to interrupt what a connection is running.
    CancelRequest { connection_id: u32, req_id: u32 },
    /// Asks to drop a connection.
    CloseConnection { connection_id: u32 },
    /// Reports a failure.
    Error(BusError),
}

/// A message with its sender and the database that it is for. A message for
/// the node itself names no database.
#[derive(Debug, PartialEq, Eq)]
pub struct Envelope {
    pub from: NodeId,
    pub to: Option<DatabaseId>,
    pub message: Message,
}

/// Where an envelope goes.
#[derive(Debug, PartialEq, Eq)]
pub enum Delivery {
    /// To the mailbox of the allocation at `index`.
    Forward { index: usize, envelope: Envelope },
    /// Back to the sender, as an error: no allocation holds the database.
    Reject { to: NodeId, database: DatabaseId, error: BusError },
    /// To the bus itself: the envelope names no database.
    Local(Envelope),
}

/// The databases that this node holds, each once.
#[derive(Debug)]
pub struct Router {
    databases: Vec<DatabaseId>,
}

impl Router {
    /// The databases that this node holds, in the order of their
    /// allocations.
    pub closed spec fn databases(&self) -> Seq<DatabaseId> {
        self.databases@
    }

    /// No database is held twice: one allocation for each.
    pub open spec fn wf(&self) -> bool {
        forall|i: int, j: int|
            0 <= i < j < self.databases().len() ==> self.databases()[i] != self.databases()[j]
    }

    /// Whether this node holds `database`.
    pub open spec fn holds(&self, database: DatabaseId) -> bool {
        exists|i: int| 0 <= i < self.databases().len() && self.databases()[i] == database
    }

    /// A router of a node that holds no database.
    pub fn new() -> (router: Router)
        ensures
            router.wf(),
            router.databases() == Seq::<DatabaseId>::empty(),
    {
        Router { databases: Vec::new() }
    }

    /// Where the allocation of `database` is, if this node holds it.
    pub fn find(&self, database: DatabaseId) -> (r: Option<usize>)
        ensures
            r is Some <==> self.holds(database),
            r matches Some(i) ==> i < self.databases().len() && self.databases()[i as int]
                == database,
    {
        let n: usize = self.databases.len();
        let mut i: usize = 0;
        while i < n
            invariant
                i <= n,
                n == self.databases().len(),
                forall|k: int| 0 <= k < i ==> self.databases()[k] != database,
            decreases n - i,
        {
            if self.databases[i] == database {
                return Some(i);
            }
            i += 1;
        }
        None
    }

    /// Takes note of a new allocation. A database that is held already is
    /// not taken twice.
    pub fn register(&mut self, database: DatabaseId) -> (r: Option<usize>)
        requires
            old(self).wf(),
        ensures
            final(self).wf(),
            r is Some <==> !old(self).holds(database),
            r matches Some(i) ==> i == old(self).databases().len() && final(self).databases()
                == old(self).databases().push(database),
            r is None ==> final(self).databases() == old(self).databases(),
    {
        match self.find(database) {
            Some(_) => None,
            None => {
                let index: usize = self.databases.len();
                let ghost before = self.databases();
                self.databases.push(database);
                proof {
                    let after = self.databases();
                    assert forall|i: int, j: int| 0 <= i < j < after.len() implies after[i]
                        != after[j] by {
                        if j == index {
                            assert(after[i] == before[i]);
                        }
                    }
                }
                Some(index)
            },
        }
    }

    /// Forgets the allocation of `database` when it is destroyed. The
    /// allocations after it move up by one.
    pub fn unregister(&mut self, database: DatabaseId) -> (r: Option<usize>)
        requires
            old(self).wf(),
        ensures
            final(self).wf(),
            r is Some <==> old(self).holds(database),
            !final(self).holds(database),
            r matches Some(i) ==> i < old(self).databases().len() && old(self).databases()[i as int]
                == database && final(self).databases() == old(self).databases().remove(i as int),
            r is None ==> final(self).databases() == old(self).databases(),
    {
        match self.find(database) {
            Some(index) => {
                let ghost before = self.databases();
                self.databases.remove(index);
                proof {
                    let after = self.databases();
                    assert forall|i: int, j: int| 0 <= i < j < after.len() implies after[i]
                        != after[j] by {
                        let oi = if i < index { i } else { i + 1 };
                        let oj = if j < index { j } else { j + 1 };
                        assert(after[i] == before[oi]);
                        assert(after[j] == before[oj]);
                    }
                    assert forall|i: int| 0 <= i < after.len() implies after[i] != database by {
                        let oi = if i < index { i } else { i + 1 };
                        assert(after[i] == before[oi]);
                    }
                }
                Some(index)
            },
            None => None,
        }
    }

    /// Where an envelope goes: to the allocation of the database that it
    /// names; back to its sender, if this node does not hold that database;
    /// to the bus itself, if it names none.
    pub fn route(&self, envelope: Envelope) -> (r: Delivery)
        ensures
            r == match envelope.to {
                None => Delivery::Local(envelope),
                Some(database) => if self.holds(database) {
                    Delivery::Forward { index: r->Forward_index, envelope }
                } else {
                    Delivery::Reject { to: envelope.from, database, error: BusError::NotFound }
                },
            },
            r matches Delivery::Forward { index, .. } ==> index < self.databases().len()
                && Some(self.databases()[index as int]) == envelope.to,
    {
        match envelope.to {
            None => Delivery::Local(envelope),
            Some(database) => match self.find(database) {
                Some(index) => Delivery::Forward { index, envelope },
                None => Delivery::Reject {
                    to: envelope.from,
                    database,
                    error: BusError::NotFound,
                },
            },
        }
    }
}

/// How many bytes tell the length of a message on the wire.
pub const LENGTH_PREFIX_SIZE: usize = 4;

/// The largest message that goes over the bus, in bytes.
pub const MAX_MESSAGE_SIZE: usize = 0x0400_0000;

/// The bytes that carry a message over the bus: the length of the message
/// in 4 bytes, little-endian, then the message.
pub open spec fn framed(payload: Seq<u8>) -> Seq<u8> {
    spec_u32_to_le_bytes(payload.len() as u32) + payload
}

/// What the start of a stream of bytes holds.
#[derive(Debug, PartialEq, Eq)]
pub enum Unframed {
    /// A whole message, and how many bytes of the stream it took.
    Message { payload: Vec<u8>, consumed: usize },
    /// Not yet a whole message: more bytes must come.
    Incomplete,
    /// A message that is larger than the bus allows.
    TooLarge { len: u32 },
}

/// The mathematical content of what the start of a stream holds.
pub enum UnframedView {
    Message { payload: Seq<u8>, consumed: int },
    Incomplete,
    TooLarge { len: u32 },
}

impl View for Unframed {
    type V = UnframedView;

    open spec fn view(&self) -> UnframedView {
        match self {
            Unframed::Message { payload, consumed } => UnframedView::Message {
                payload: payload@,
                consumed: *consumed as int,
            },
            Unframed::Incomplete => UnframedView::Incomplete,
            Unframed::TooLarge { len } => UnframedView::TooLarge { len: *len },
        }
    }
}

/// What the start of the bytes `buffer` holds: the message that the first 4
/// bytes announce, once all of it is there.
pub open spec fn unframed(buffer: Seq<u8>) -> UnframedView {
    if buffer.len() < LENGTH_PREFIX_SIZE {
        UnframedView::Incomplete
    } else {
        let len = spec_u32_from_le_bytes(buffer.subrange(0, 4));
        if len > MAX_MESSAGE_SIZE {
            UnframedView::TooLarge { len }
        } else if buffer.len() < LENGTH_PREFIX_SIZE + len {
            UnframedView::Incomplete
        } else {
            UnframedView::Message { payload: buffer.subrange(4, 4 + len), consumed: 4 + len }
        }
    }
}

/// A framed message is read back as itself, whatever follows it in the
/// stream.
pub proof fn lemma_unframe_framed(payload: Seq<u8>, rest: Seq<u8>)
    requires
        payload.len() <= MAX_MESSAGE_SIZE,
    ensures
        unframed(framed(payload) + rest) == (UnframedView::Message {
            payload,
            consumed: 4 + payload.len() as int,
        }),
{
    lemma_auto_spec_u32_to_from_le_bytes();
    let len = payload.len() as u32;
    let all = framed(payload) + rest;
    assert(spec_u32_to_le_bytes(len).len() == 4);
    assert(all.subrange(0, 4) =~= spec_u32_to_le_bytes(len));
    assert(all.subrange(4, 4 + len) =~= payload);
}

/// The bytes that carry a message over the bus. A message that is larger
/// than the bus allows is not framed.
pub fn frame_message(payload: &[u8]) -> (r: Option<Vec<u8>>)
    ensures
        r is Some <==> payload@.len() <= MAX_MESSAGE_SIZE,
        r matches Some(bytes) ==> bytes@ == framed(payload@),
{
    if payload.len() > MAX_MESSAGE_SIZE {
        return None;
    }
    let mut out: Vec<u8> = u32_to_le_bytes(payload.len() as u32);
    let mut body: Vec<u8> = slice_to_vec(payload);
    out.append(&mut body);
    Some(out)
}

/// Reads the first message from the start of a stream of bytes.
pub fn unframe_message(buffer: &[u8]) -> (r: Unframed)
    ensures
        r@ == unframed(buffer@),
{
    if buffer.len() < LENGTH_PREFIX_SIZE {
        return Unframed::Incomplete;
    }
    let len: u32 = u32_from_le_bytes(slice_subrange(buffer, 0, 4));
    if len as usize > MAX_MESSAGE_SIZE {
        return Unframed::TooLarge { len };
    }
    let end: usize = LENGTH_PREFIX_SIZE + len as usize;
    if buffer.len() < end {
        return Unframed::Incomplete;
    }
    Unframed::Message { payload: slice_to_vec(slice_subrange(buffer, 4, end)), consumed: end }
}

} // verus!
