//! The cluster's static membership list.

use vstd::prelude::*;

verus! {

/// One member of the cluster: its id and the address it can be reached at.
#[derive(Clone, Debug)]
pub struct NodeInfo {
    pub id: u32,
    /// `host:port`.
    pub address: String,
}

/// The membership list, the same on every node and fixed for the life of the process.
#[derive(Clone, Debug)]
pub struct Config {
    pub nodes: Vec<NodeInfo>,
}

/// Why a membership list cannot be used to start a node.
#[derive(Clone, Copy, PartialEq, Eq, Debug)]
pub enum ConfigError {
    /// The list has no entry for the node's own id.
    UnknownNode { id: u32 },
    /// Two entries of the list share an id.
    DuplicateId,
}

/// Some entry of the list has the id `id`.
pub open spec fn lists(nodes: Seq<NodeInfo>, id: u32) -> bool {
    exists|i: int| 0 <= i < nodes.len() && (#[trigger] nodes[i]).id == id
}

/// No two entries of the list share an id.
pub open spec fn unique_ids(nodes: Seq<NodeInfo>) -> bool {
    forall|i: int, j: int|
        0 <= i < j < nodes.len() ==> (#[trigger] nodes[i]).id != (#[trigger] nodes[j]).id
}

impl Config {
    /// The position of the first entry with the id `id`.
    pub fn find(&self, id: u32) -> (found: Option<usize>)
        ensures
            (match found {
                Some(i) => {
                    &&& i < self.nodes@.len()
                    &&& self.nodes@[i as int].id == id
                    &&& forall|j: int| 0 <= j < i ==> (#[trigger] self.nodes@[j]).id != id
                },
                None => !lists(self.nodes@, id),
            }),
    {
        let n = self.nodes.len();
        let mut i: usize = 0;
        while i < n
            invariant
                i <= n,
                n == self.nodes@.len(),
                forall|j: int| 0 <= j < i ==> (#[trigger] self.nodes@[j]).id != id,
            decreases n - i,
        {
            if self.nodes[i].id == id {
                return Some(i);
            }
            i += 1;
        }
        None
    }

    /// Whether the list has an entry for `id`.
    pub fn contains(&self, id: u32) -> (listed: bool)
        ensures
            listed == lists(self.nodes@, id),
    {
        self.find(id).is_some()
    }

    /// Whether no two entries share an id.
    pub fn has_unique_ids(&self) -> (unique: bool)
        ensures
            unique == unique_ids(self.nodes@),
    {
        let n = self.nodes.len();
        let mut j: usize = 0;
        while j < n
            invariant
                j <= n,
                n == self.nodes@.len(),
                forall|a: int, b: int|
                    0 <= a < b < j ==> (#[trigger] self.nodes@[a]).id != (
                    #[trigger] self.nodes@[b]).id,
            decreases n - j,
        {
            let mut i: usize = 0;
            while i < j
                invariant
                    i <= j,
                    j < n,
                    n == self.nodes@.len(),
                    forall|a: int|
                        0 <= a < i ==> (#[trigger] self.nodes@[a]).id != self.nodes@[j as int].id,
                decreases j - i,
            {
                if self.nodes[i].id == self.nodes[j].id {
                    return false;
                }
                i += 1;
            }
            j += 1;
        }
        true
    }
}

} // verus!
