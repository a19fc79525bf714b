//! Choosing the peers of a catalog cache node.
//!
//! A node is configured with the addresses of all nodes of the cache, its
//! own among them or not. Its peers are the addresses on other hosts, and
//! there must be exactly two of them.

use vstd::prelude::*;

use crate::bytes::text_eq;

verus! {

/// Why no peers can be chosen.
#[derive(Debug, Clone, Copy, PartialEq, Eq)]
pub enum Error {
    /// The number of addresses on other hosts is not two.
    InvalidPeers,
}

/// The address of a node of the cache.
#[derive(Debug, Clone, PartialEq, Eq)]
pub struct Peer {
    /// The address, as a URL.
    pub url: String,
    /// The host that the URL names, if it names one.
    pub host: Option<String>,
}

/// What a catalog cache node is told of itself and the other nodes.
#[derive(Debug, Clone, PartialEq, Eq)]
pub struct CatalogConfig {
    /// The host name of this node. Addresses on this host are not peers.
    pub hostname: Option<String>,
    /// The addresses of the nodes of the cache.
    pub peers: Vec<Peer>,
}

/// True when an address is on another host than `hostname`: it is, unless
/// both hosts are known and the same.
pub open spec fn spec_is_other(peer: Peer, hostname: Option<String>) -> bool {
    match (peer.host, hostname) {
        (Some(host), Some(own)) => host@ != own@,
        _ => true,
    }
}

/// The indices of the first `count` addresses that are on another host, in
/// order.
pub open spec fn spec_others(peers: Seq<Peer>, hostname: Option<String>, count: int) -> Seq<int>
    decreases count,
{
    if count <= 0 {
        Seq::empty()
    } else if spec_is_other(peers[count - 1], hostname) {
        spec_others(peers, hostname, count - 1).push(count - 1)
    } else {
        spec_others(peers, hostname, count - 1)
    }
}

impl CatalogConfig {
    /// The indices of the addresses on other hosts.
    pub open spec fn spec_peer_indices(&self) -> Seq<int> {
        spec_others(self.peers@, self.hostname, self.peers@.len() as int)
    }

    /// Tells whether an address is on another host than this node.
    fn is_other(&self, index: usize) -> (other: bool)
        requires
            index < self.peers@.len(),
        ensures
            other == spec_is_other(self.peers@[index as int], self.hostname),
    {
        match (&self.peers[index].host, &self.hostname) {
            (Some(host), Some(own)) => !text_eq(host.as_str(), own.as_str()),
            _ => true,
        }
    }

    /// The addresses of the two other nodes of the cache, in the order in
    /// which they are configured.
    ///
    /// Fails with `InvalidPeers` unless exactly two addresses are on other
    /// hosts.
    pub fn peers(&self) -> (result: Result<(String, String), Error>)
        ensures
            match result {
                Ok((first, second)) => self.spec_peer_indices().len() == 2 && first
                    == self.peers@[self.spec_peer_indices()[0]].url && second
                    == self.peers@[self.spec_peer_indices()[1]].url,
                Err(error) => error is InvalidPeers && self.spec_peer_indices().len() != 2,
            },
    {
        let mut found: Vec<usize> = Vec::new();
        let mut i: usize = 0;
        while i < self.peers.len()
            invariant
                i <= self.peers@.len(),
                found@.len() <= i,
                found@.len() == spec_others(self.peers@, self.hostname, i as int).len(),
                forall|k: int|
                    0 <= k < found@.len() ==> #[trigger] found@[k] == spec_others(
                        self.peers@,
                        self.hostname,
                        i as int,
                    )[k],
                forall|k: int| 0 <= k < found@.len() ==> #[trigger] found@[k] < i,
            decreases self.peers@.len() - i,
        {
            if self.is_other(i) {
                found.push(i);
            }
            i = i + 1;
        }
        if found.len() != 2 {
            return Err(Error::InvalidPeers);
        }
        let first = self.peers[found[0]].url.clone();
        let second = self.peers[found[1]].url.clone();
        Ok((first, second))
    }
}

} // verus!
