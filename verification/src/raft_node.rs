//! The replicated key/value store of a node: its members, its state
//! machine, how writes are routed to the leader, and its raft settings.

use vstd::prelude::*;
use vstd::pervasive::VecAdditionalExecFns;
use vstd::string::*;

use crate::network::{http_endpoint, http_endpoint_of};

verus! {

/// The id of a node in the cluster.
pub type NodeId = u64;

/// Heartbeat interval of the raft configuration, in milliseconds.
pub const HEARTBEAT_INTERVAL: u64 = 500;

/// Lower bound of the election timeout, in milliseconds.
pub const ELECTION_TIMEOUT_MIN: u64 = 1500;

/// Upper bound of the election timeout, in milliseconds.
pub const ELECTION_TIMEOUT_MAX: u64 = 3000;

/// A member of the cluster, known by its gRPC address.
pub struct Node {
    pub grpc_addr: String,
}

impl Clone for Node {
    fn clone(&self) -> (n: Node)
        ensures
            n == *self,
    {
        Node { grpc_addr: self.grpc_addr.clone() }
    }
}

impl PartialEq for Node {
    fn eq(&self, other: &Node) -> (b: bool) {
        self.grpc_addr == other.grpc_addr
    }
}

impl vstd::std_specs::cmp::PartialEqSpecImpl for Node {
    open spec fn obeys_eq_spec() -> bool {
        true
    }

    open spec fn eq_spec(&self, other: &Node) -> bool {
        self.grpc_addr@ == other.grpc_addr@
    }
}

impl Eq for Node {}

impl Default for Node {
    fn default() -> (n: Node)
        ensures
            n.grpc_addr@ == Seq::<char>::empty(),
    {
        Node { grpc_addr: String::new() }
    }
}

/// `Node { grpc_addr: <addr>}`.
pub open spec fn node_description(addr: Seq<char>) -> Seq<char> {
    seq!['N', 'o', 'd', 'e', ' ', '{', ' ', 'g', 'r', 'p', 'c', '_', 'a', 'd', 'd', 'r', ':', ' ']
        + addr + seq!['}']
}

impl Node {
    /// How a node is shown: `Node { grpc_addr: <addr>}`.
    pub fn describe(&self) -> (s: String)
        ensures
            s@ == node_description(self.grpc_addr@),
    {
        proof {
            reveal_strlit("Node { grpc_addr: ");
            reveal_strlit("}");
        }
        let mut s = String::from_str("Node { grpc_addr: ");
        s.append(self.grpc_addr.as_str());
        s.append("}");
        assert(s@ =~= node_description(self.grpc_addr@));
        s
    }
}

/// A change to the store, as raft replicates it.
pub enum Request {
    /// Sets `key` to `value`.
    Put { key: String, value: String },
}

/// What applying a request answers.
pub struct Response {
    pub value: Option<String>,
}

impl Request {
    /// The request that sets `key` to `value`.
    pub fn set(key: &str, value: &str) -> (r: Request)
        ensures
            r matches Request::Put { key: k, value: v } && k@ == key@ && v@ == value@,
    {
        Request::Put { key: String::from_str(key), value: String::from_str(value) }
    }
}

/// The store after `key` is set to `value`.
pub open spec fn apply_set(m: Map<Seq<char>, Seq<char>>, key: Seq<char>, value: Seq<char>) -> Map<
    Seq<char>,
    Seq<char>,
> {
    m.insert(key, value)
}

/// What a read of `key` answers: its value, or the empty text where the
/// store does not hold it.
pub open spec fn read_value(m: Map<Seq<char>, Seq<char>>, key: Seq<char>) -> Seq<char> {
    if m.contains_key(key) {
        m[key]
    } else {
        Seq::empty()
    }
}

/// A read gives back the value last written under its key; a write leaves
/// the other keys as they were.
pub proof fn lemma_read_your_write(
    m: Map<Seq<char>, Seq<char>>,
    key: Seq<char>,
    value: Seq<char>,
    other: Seq<char>,
)
    ensures
        read_value(apply_set(m, key, value), key) == value,
        other != key ==> read_value(apply_set(m, key, value), other) == read_value(m, other),
{
}

/// The store that a list of entries describes: each entry sets its key,
/// later entries over earlier ones.
pub open spec fn entries_map(entries: Seq<(String, String)>) -> Map<Seq<char>, Seq<char>>
    decreases entries.len(),
{
    if entries.len() == 0 {
        Map::empty()
    } else {
        apply_set(entries_map(entries.drop_last()), entries.last().0@, entries.last().1@)
    }
}

/// Whether no two entries of the list have the same key.
pub open spec fn keys_distinct(entries: Seq<(String, String)>) -> bool {
    forall|i: int, j: int|
        0 <= i < entries.len() && 0 <= j < entries.len() && i != j ==> #[trigger] entries[i].0@
            != #[trigger] entries[j].0@
}

/// A key is in the store exactly where some entry has it.
proof fn lemma_entries_map_dom(entries: Seq<(String, String)>, key: Seq<char>)
    ensures
        entries_map(entries).contains_key(key) <==> exists|i: int|
            0 <= i < entries.len() && #[trigger] entries[i].0@ == key,
    decreases entries.len(),
{
    if entries.len() > 0 {
        let init = entries.drop_last();
        lemma_entries_map_dom(init, key);
        if entries_map(init).contains_key(key) {
            let i = choose|i: int| 0 <= i < init.len() && #[trigger] init[i].0@ == key;
            assert(entries[i].0@ == key);
        }
        if exists|i: int| 0 <= i < entries.len() && #[trigger] entries[i].0@ == key {
            let i = choose|i: int| 0 <= i < entries.len() && #[trigger] entries[i].0@ == key;
            if i < entries.len() - 1 {
                assert(init[i].0@ == key);
            }
        }
    }
}

/// With distinct keys, the store holds each entry's value under its key.
proof fn lemma_entries_map_value(entries: Seq<(String, String)>, i: int)
    requires
        keys_distinct(entries),
        0 <= i < entries.len(),
    ensures
        entries_map(entries).contains_key(entries[i].0@),
        entries_map(entries)[entries[i].0@] == entries[i].1@,
    decreases entries.len(),
{
    let init = entries.drop_last();
    if i < entries.len() - 1 {
        assert(keys_distinct(init)) by {
            assert forall|a: int, b: int|
                0 <= a < init.len() && 0 <= b < init.len() && a != b implies #[trigger] init[a].0@
                != #[trigger] init[b].0@ by {
                assert(init[a] == entries[a] && init[b] == entries[b]);
            }
        }
        lemma_entries_map_value(init, i);
        assert(init[i] == entries[i]);
        assert(entries[i].0@ != entries[entries.len() - 1].0@);
    }
}

/// With distinct keys, replacing the entry of a key sets that key.
proof fn lemma_entries_map_update(entries: Seq<(String, String)>, i: int, e: (String, String))
    requires
        keys_distinct(entries),
        0 <= i < entries.len(),
        entries[i].0@ == e.0@,
    ensures
        keys_distinct(entries.update(i, e)),
        entries_map(entries.update(i, e)) == apply_set(entries_map(entries), e.0@, e.1@),
{
    let u = entries.update(i, e);
    assert(keys_distinct(u)) by {
        assert forall|a: int, b: int|
            0 <= a < u.len() && 0 <= b < u.len() && a != b implies #[trigger] u[a].0@
            != #[trigger] u[b].0@ by {
            assert(u[a].0@ == entries[a].0@ && u[b].0@ == entries[b].0@);
        }
    }
    let m1 = entries_map(u);
    let m2 = apply_set(entries_map(entries), e.0@, e.1@);
    assert forall|k: Seq<char>| m1.contains_key(k) <==> m2.contains_key(k) by {
        lemma_entries_map_dom(u, k);
        lemma_entries_map_dom(entries, k);
        if exists|j: int| 0 <= j < u.len() && #[trigger] u[j].0@ == k {
            let j = choose|j: int| 0 <= j < u.len() && #[trigger] u[j].0@ == k;
            assert(entries[j].0@ == k);
        }
        if exists|j: int| 0 <= j < entries.len() && #[trigger] entries[j].0@ == k {
            let j = choose|j: int| 0 <= j < entries.len() && #[trigger] entries[j].0@ == k;
            assert(u[j].0@ == k);
        }
    }
    assert forall|k: Seq<char>| #[trigger] m1.contains_key(k) implies m1[k] == m2[k] by {
        lemma_entries_map_dom(u, k);
        let j = choose|j: int| 0 <= j < u.len() && #[trigger] u[j].0@ == k;
        lemma_entries_map_value(u, j);
        if j != i {
            lemma_entries_map_value(entries, j);
            assert(entries[j] == u[j]);
        }
    }
    assert(m1 =~= m2);
}

/// The replicated data of a node: the value of each key, held as a list
/// of entries with distinct keys.
pub struct KvStateMachine {
    entries: Vec<(String, String)>,
}

impl View for KvStateMachine {
    type V = Map<Seq<char>, Seq<char>>;

    closed spec fn view(&self) -> Map<Seq<char>, Seq<char>> {
        entries_map(self.entries@)
    }
}

impl KvStateMachine {
    /// The entries hold each key at most once.
    #[verifier::type_invariant]
    closed spec fn wf(&self) -> bool {
        keys_distinct(self.entries@)
    }

    /// A store that holds no key.
    pub fn new() -> (s: KvStateMachine)
        ensures
            s@ == Map::<Seq<char>, Seq<char>>::empty(),
    {
        KvStateMachine { entries: Vec::new() }
    }

    /// The position of the entry for `key`, if any.
    fn find(&self, key: &String) -> (r: Option<usize>)
        ensures
            r is Some <==> self@.contains_key(key@),
            r matches Some(i) ==> i < self.entries@.len() && self.entries@[i as int].0@ == key@,
    {
        proof {
            lemma_entries_map_dom(self.entries@, key@);
        }
        let mut i: usize = 0;
        while i < self.entries.len()
            invariant
                i <= self.entries@.len(),
                forall|k: int| 0 <= k < i ==> #[trigger] self.entries@[k].0@ != key@,
                self@.contains_key(key@) <==> exists|k: int|
                    0 <= k < self.entries@.len() && #[trigger] self.entries@[k].0@ == key@,
            decreases self.entries@.len() - i,
        {
            if self.entries[i].0 == *key {
                return Some(i);
            }
            i = i + 1;
        }
        None
    }

    /// The value of `key`, where the store holds it.
    pub fn get(&self, key: &str) -> (r: Option<String>)
        ensures
            r is Some <==> self@.contains_key(key@),
            r matches Some(v) ==> v@ == self@[key@],
    {
        proof {
            use_type_invariant(self);
        }
        let k = String::from_str(key);
        match self.find(&k) {
            Some(i) => {
                proof {
                    lemma_entries_map_value(self.entries@, i as int);
                }
                Some(self.entries[i].1.clone())
            },
            None => None,
        }
    }

    /// Reads `key`: its value, or the empty text where it is not held.
    pub fn read(&self, key: &str) -> (v: String)
        ensures
            v@ == read_value(self@, key@),
    {
        match self.get(key) {
            Some(v) => v,
            None => String::new(),
        }
    }

    /// Sets `key` to `value`.
    fn put(&mut self, key: String, value: String)
        ensures
            final(self)@ == apply_set(old(self)@, key@, value@),
    {
        proof {
            use_type_invariant(&*self);
        }
        match self.find(&key) {
            Some(i) => {
                proof {
                    lemma_entries_map_update(self.entries@, i as int, (key, value));
                }
                let mut entries: Vec<(String, String)> = Vec::new();
                std::mem::swap(&mut entries, &mut self.entries);
                entries.set(i, (key, value));
                self.entries = entries;
            },
            None => {
                let ghost before = self.entries@;
                proof {
                    lemma_entries_map_dom(before, key@);
                }
                let mut entries: Vec<(String, String)> = Vec::new();
                std::mem::swap(&mut entries, &mut self.entries);
                entries.push((key, value));
                proof {
                    assert(entries@.drop_last() =~= before);
                    assert(keys_distinct(entries@)) by {
                        assert forall|a: int, b: int|
                            0 <= a < entries@.len() && 0 <= b < entries@.len() && a != b implies
                            #[trigger] entries@[a].0@ != #[trigger] entries@[b].0@ by {
                            if a < before.len() && b < before.len() {
                                assert(entries@[a] == before[a] && entries@[b] == before[b]);
                            } else if a < before.len() {
                                assert(entries@[a] == before[a]);
                            } else {
                                assert(entries@[b] == before[b]);
                            }
                        }
                    }
                }
                self.entries = entries;
            },
        }
    }

    /// Applies a replicated request. Setting a key answers the value set.
    pub fn apply(&mut self, req: Request) -> (r: Response)
        ensures
            match req {
                Request::Put { key, value } => {
                    &&& final(self)@ == apply_set(old(self)@, key@, value@)
                    &&& r.value matches Some(v) && v@ == value@
                },
            },
    {
        match req {
            Request::Put { key, value } => {
                let answer = value.clone();
                self.put(key, value);
                Response { value: Some(answer) }
            },
        }
    }

    /// The entries of the store, each key once, for a snapshot.
    pub fn entries(&self) -> (r: Vec<(String, String)>)
        ensures
            entries_map(r@) == self@,
            keys_distinct(r@),
    {
        proof {
            use_type_invariant(self);
        }
        let mut r: Vec<(String, String)> = Vec::new();
        let mut i: usize = 0;
        while i < self.entries.len()
            invariant
                i <= self.entries@.len(),
                r@ == self.entries@.take(i as int),
            decreases self.entries@.len() - i,
        {
            let e = (self.entries[i].0.clone(), self.entries[i].1.clone());
            r.push(e);
            i = i + 1;
            assert(r@ =~= self.entries@.take(i as int));
        }
        assert(r@ =~= self.entries@);
        r
    }

    /// The store that a snapshot's entries describe: each entry sets its
    /// key, later entries over earlier ones.
    pub fn from_entries(list: Vec<(String, String)>) -> (s: KvStateMachine)
        ensures
            s@ == entries_map(list@),
    {
        let mut s = KvStateMachine::new();
        let mut i: usize = 0;
        proof {
            assert(list@.take(0) =~= Seq::<(String, String)>::empty());
        }
        while i < list.len()
            invariant
                i <= list@.len(),
                s@ == entries_map(list@.take(i as int)),
            decreases list@.len() - i,
        {
            proof {
                assert(list@.take(i + 1).drop_last() =~= list@.take(i as int));
                assert(list@.take(i + 1).last() == list@[i as int]);
            }
            s.put(list[i].0.clone(), list[i].1.clone());
            i = i + 1;
        }
        proof {
            assert(list@.take(i as int) =~= list@);
        }
        s
    }
}

/// Where a write goes.
pub enum WriteRoute {
    /// This node leads: the write is proposed here.
    Local,
    /// Another node leads: the write is forwarded to its gRPC endpoint.
    Forward { endpoint: String },
    /// No leader is known, or the leader is not a known member.
    NoLeader,
}

/// Routes a write by what this node knows of the cluster: its own id, the
/// current leader, and the member entry of that leader.
pub fn route_write(my_id: NodeId, current_leader: Option<NodeId>, leader_node: Option<Node>) -> (r:
    WriteRoute)
    ensures
        match current_leader {
            None => r is NoLeader,
            Some(leader) => if leader == my_id {
                r is Local
            } else {
                match leader_node {
                    Some(n) => r matches WriteRoute::Forward { endpoint } && endpoint@
                        == http_endpoint_of(n.grpc_addr@),
                    None => r is NoLeader,
                }
            },
        },
{
    match current_leader {
        None => WriteRoute::NoLeader,
        Some(leader) => {
            if leader == my_id {
                WriteRoute::Local
            } else {
                match leader_node {
                    Some(n) => WriteRoute::Forward { endpoint: http_endpoint(n.grpc_addr.as_str()) },
                    None => WriteRoute::NoLeader,
                }
            }
        },
    }
}

/// The member a node starts a new cluster with: itself, at `addr`. A node
/// that joins an existing cluster starts with none.
pub fn bootstrap_member(id: NodeId, addr: &String, new_cluster: bool) -> (r: Option<(NodeId, Node)>)
    ensures
        r is Some <==> new_cluster,
        r matches Some(m) ==> m.0 == id && m.1.grpc_addr == addr,
{
    if new_cluster {
        Some((id, Node { grpc_addr: addr.clone() }))
    } else {
        None
    }
}

/// Declares `openraft::Config`, the settings of a raft node.
#[verifier::external_type_specification]
#[verifier::external_body]
pub struct ExRaftConfig(openraft::Config);

/// Declares `openraft::ConfigError`.
#[verifier::external_type_specification]
#[verifier::external_body]
pub struct ExRaftConfigError(openraft::ConfigError);

/// The default `openraft::Config` with the given heartbeat interval and
/// election timeout bounds.
pub uninterp spec fn raft_config(heartbeat_interval: u64, election_timeout_min: u64, election_timeout_max: u64) -> openraft::Config;

/// The heartbeat interval of an `openraft::Config` (its public field).
pub uninterp spec fn raft_heartbeat_interval(config: openraft::Config) -> u64;

/// The lower election timeout bound of an `openraft::Config` (its public
/// field).
pub uninterp spec fn raft_election_timeout_min(config: openraft::Config) -> u64;

/// The upper election timeout bound of an `openraft::Config` (its public
/// field).
pub uninterp spec fn raft_election_timeout_max(config: openraft::Config) -> u64;

/// Wraps `openraft::Config::validate` on the default configuration with
/// the given heartbeat interval and election timeout bounds. Its source
/// accepts exactly where the lower bound is below the upper one, the
/// heartbeat is below the lower bound, and `max_payload_entries` is not 0,
/// which its default (300) is not; what it accepts is that configuration
/// itself, named by `raft_config`.
#[verifier::external_body]
fn validated_raft_config(heartbeat_interval: u64, election_timeout_min: u64, election_timeout_max: u64) -> (r: Result<
    openraft::Config,
    openraft::ConfigError,
>)
    ensures
        r is Ok <==> (election_timeout_min < election_timeout_max && heartbeat_interval
            < election_timeout_min),
        r matches Ok(c) ==> c == raft_config(
            heartbeat_interval,
            election_timeout_min,
            election_timeout_max,
        ),
        r is Ok ==> raft_heartbeat_interval(r->Ok_0) == heartbeat_interval,
        r is Ok ==> raft_election_timeout_min(r->Ok_0) == election_timeout_min,
        r is Ok ==> raft_election_timeout_max(r->Ok_0) == election_timeout_max,
{
    openraft::Config {
        heartbeat_interval,
        election_timeout_min,
        election_timeout_max,
        ..Default::default()
    }.validate()
}

/// The raft settings of a node: heartbeat every 500 ms, elections after
/// 1500 to 3000 ms. They always validate.
pub fn node_config() -> (c: openraft::Config)
    ensures
        c == raft_config(HEARTBEAT_INTERVAL, ELECTION_TIMEOUT_MIN, ELECTION_TIMEOUT_MAX),
        raft_heartbeat_interval(c) == 500,
        raft_election_timeout_min(c) == 1500,
        raft_election_timeout_max(c) == 3000,
{
    validated_raft_config(HEARTBEAT_INTERVAL, ELECTION_TIMEOUT_MIN, ELECTION_TIMEOUT_MAX).unwrap()
}

} // verus!
