//! Programs: the statements that a connection runs in one go.

use vstd::prelude::*;
use crate::stmt::{Query, Statement, StmtKind};

verus! {

/// Whether a statement of this kind leaves the database as it is.
pub open spec fn kind_is_read_only(kind: StmtKind) -> bool {
    kind == StmtKind::Read || kind == StmtKind::TxnEnd || kind == StmtKind::TxnBeginReadOnly
}

impl Statement {
    /// Whether the statement leaves the database as it is.
    pub fn is_read_only(&self) -> (b: bool)
        ensures
            b == kind_is_read_only(self.kind),
    {
        match self.kind {
            StmtKind::Read => true,
            StmtKind::TxnEnd => true,
            StmtKind::TxnBeginReadOnly => true,
            _ => false,
        }
    }
}

/// A run of queries for one connection.
#[derive(Debug, PartialEq, Eq)]
pub struct Program {
    pub steps: Vec<Query>,
}

impl Program {
    /// Whether every statement of the program leaves the database as it is.
    pub open spec fn read_only(&self) -> bool {
        forall|i: int|
            0 <= i < self.steps@.len() ==> kind_is_read_only((#[trigger] self.steps@[i]).stmt.kind)
    }

    /// The program of the given queries, in their order.
    pub fn from_queries(steps: Vec<Query>) -> (program: Program)
        ensures
            program.steps == steps,
    {
        Program { steps }
    }

    /// Whether every statement of the program leaves the database as it is.
    pub fn is_read_only(&self) -> (b: bool)
        ensures
            b == self.read_only(),
    {
        let n: usize = self.steps.len();
        let mut i: usize = 0;
        while i < n
            invariant
                i <= n,
                n == self.steps@.len(),
                forall|k: int|
                    0 <= k < i ==> kind_is_read_only((#[trigger] self.steps@[k]).stmt.kind),
            decreases n - i,
        {
            if !self.steps[i].stmt.is_read_only() {
                return false;
            }
            i += 1;
        }
        true
    }
}

} // verus!
