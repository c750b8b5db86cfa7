//! The worker of one connection: it owns the SQL connection and takes one
//! command after the other until it is told to stop.

use vstd::prelude::*;
use crate::allocation::ConnectionId;

verus! {

/// What a worker wakes up to. `C` is a command for the connection.
#[derive(Debug, PartialEq, Eq)]
pub enum WorkerEvent<C> {
    /// The signal to stop.
    Exit,
    /// The next command of the queue.
    Command(C),
    /// The queue was closed: no command will come.
    QueueClosed,
}

/// What a worker does next.
#[derive(Debug, PartialEq, Eq)]
pub enum WorkerStep<C> {
    /// Run the command to its end, then wait again.
    Run(C),
    /// Stop, and report the id.
    Finish(ConnectionId),
}

/// The worker of one connection.
#[derive(Clone, Copy, Debug, PartialEq, Eq, Structural)]
pub struct Connection {
    pub id: u32,
}

impl Connection {
    /// The worker of the connection `id`.
    pub fn new(id: ConnectionId) -> (worker: Connection)
        ensures
            worker.id == id.id,
    {
        Connection { id: id.id }
    }

    /// What the worker does with an event: it runs a command, and it stops
    /// on the signal to stop and when its queue is closed, reporting its id.
    pub fn run<C>(&self, event: WorkerEvent<C>) -> (step: WorkerStep<C>)
        ensures
            step == match event {
                WorkerEvent::Command(command) => WorkerStep::Run(command),
                _ => WorkerStep::<C>::Finish(ConnectionId { id: self.id }),
            },
    {
        match event {
            WorkerEvent::Command(command) => WorkerStep::Run(command),
            WorkerEvent::Exit => WorkerStep::Finish(ConnectionId { id: self.id }),
            WorkerEvent::QueueClosed => WorkerStep::Finish(ConnectionId { id: self.id }),
        }
    }
}

} // verus!
