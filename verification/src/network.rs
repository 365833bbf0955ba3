//! Addresses of the gRPC peers a node talks to.

use vstd::prelude::*;
use vstd::string::*;

use crate::raft_node::{Node, NodeId};

verus! {

/// The text `http://`.
pub open spec fn http_scheme() -> Seq<char> {
    seq!['h', 't', 't', 'p', ':', '/', '/']
}

/// The URL of the gRPC endpoint at `addr`.
pub open spec fn http_endpoint_of(addr: Seq<char>) -> Seq<char> {
    http_scheme() + addr
}

/// Every endpoint URL starts with the same scheme, `http://`, whatever the
/// address, and holds the whole address after it; distinct addresses give
/// distinct URLs.
pub proof fn lemma_http_endpoint_shape(addr: Seq<char>, other: Seq<char>)
    ensures
        http_endpoint_of(addr).len() == addr.len() + 7,
        http_endpoint_of(addr).take(7) == seq!['h', 't', 't', 'p', ':', '/', '/'],
        http_endpoint_of(addr).take(7) == http_endpoint_of(other).take(7),
        http_endpoint_of(addr).skip(7) == addr,
        http_endpoint_of(addr) == http_endpoint_of(other) ==> addr == other,
{
    assert(http_endpoint_of(addr).take(7) =~= seq!['h', 't', 't', 'p', ':', '/', '/']);
    assert(http_endpoint_of(other).take(7) =~= seq!['h', 't', 't', 'p', ':', '/', '/']);
    assert(http_endpoint_of(addr).skip(7) =~= addr);
    assert(http_endpoint_of(other).skip(7) =~= other);
}

/// The URL of the gRPC endpoint at `addr`: `http://` then the address.
pub fn http_endpoint(addr: &str) -> (url: String)
    ensures
        url@ == http_endpoint_of(addr@),
{
    proof {
        reveal_strlit("http://");
    }
    let mut url = String::from_str("http://");
    url.append(addr);
    url
}

/// Makes the connections that raft uses to reach other nodes.
pub struct NetworkFactory {}

/// A connection to one node, known by the URL of its gRPC endpoint.
pub struct NetworkConnection {
    addr: String,
}

impl NetworkFactory {
    /// A factory; it holds no state.
    pub fn new() -> (f: NetworkFactory) {
        NetworkFactory {  }
    }

    /// The connection to the node `_target`, whose gRPC address `node`
    /// gives.
    pub fn connection_to(&mut self, _target: NodeId, node: &Node) -> (c: NetworkConnection)
        ensures
            c.endpoint() == http_endpoint_of(node.grpc_addr@),
    {
        NetworkConnection { addr: http_endpoint(node.grpc_addr.as_str()) }
    }
}

impl NetworkConnection {
    /// The URL of the node's gRPC endpoint.
    pub closed spec fn endpoint(&self) -> Seq<char> {
        self.addr@
    }

    /// The URL of the node's gRPC endpoint.
    pub fn addr(&self) -> (a: &String)
        ensures
            a@ == self.endpoint(),
    {
        &self.addr
    }
}

} // verus!
