use optics::membership::{after_learner_added, after_membership_change, next_node_id, plan_join};
use optics::network::{http_endpoint, NetworkFactory};
use optics::raft_node::{
    bootstrap_member, node_config, route_write, KvStateMachine, Node, Request, WriteRoute,
};

fn node(addr: &str) -> Node {
    Node { grpc_addr: addr.to_string() }
}

#[test]
fn read_after_write_on_state_machine() {
    let mut sm = KvStateMachine::new();
    assert_eq!(sm.read("foo"), "");
    assert_eq!(sm.get("foo"), None);
    let r = sm.apply(Request::set("foo", "bar"));
    assert_eq!(r.value.as_deref(), Some("bar"));
    assert_eq!(sm.read("foo"), "bar");
    sm.apply(Request::set("foo", "baz"));
    sm.apply(Request::set("other", "x"));
    assert_eq!(sm.read("foo"), "baz");
    assert_eq!(sm.get("other").as_deref(), Some("x"));
    sm.apply(Request::set("foo", "qux"));
    assert_eq!(sm.read("foo"), "qux");
    assert_eq!(sm.read("other"), "x");
}

#[test]
fn write_on_leader_is_local() {
    assert!(matches!(route_write(1, Some(1), None), WriteRoute::Local));
}

#[test]
fn write_on_follower_is_forwarded() {
    match route_write(2, Some(1), Some(node("127.0.0.1:50051"))) {
        WriteRoute::Forward { endpoint } => assert_eq!(endpoint, "http://127.0.0.1:50051"),
        _ => panic!("expected a forward"),
    }
}

#[test]
fn write_without_leader() {
    assert!(matches!(route_write(2, None, None), WriteRoute::NoLeader));
    assert!(matches!(route_write(2, Some(3), None), WriteRoute::NoLeader));
}

#[test]
fn bootstrap_member_only_for_new_cluster() {
    let addr = "0.0.0.0:50051".to_string();
    let m = bootstrap_member(1, &addr, true).unwrap();
    assert_eq!(m.0, 1);
    assert!(m.1 == node("0.0.0.0:50051"));
    assert!(bootstrap_member(2, &addr, false).is_none());
}

#[test]
fn raft_config_values() {
    let c = node_config();
    assert_eq!(c.heartbeat_interval, 500);
    assert_eq!(c.election_timeout_min, 1500);
    assert_eq!(c.election_timeout_max, 3000);
}

#[test]
fn node_description_and_equality() {
    let n = node("127.0.0.1:50052");
    assert_eq!(n.describe(), "Node { grpc_addr: 127.0.0.1:50052}");
    assert!(n == n.clone());
    assert!(n != node("127.0.0.1:50053"));
    assert_eq!(Node::default().grpc_addr, "");
}

#[test]
fn next_id_is_one_past_the_largest() {
    assert_eq!(next_node_id(&vec![1]), 2);
    assert_eq!(next_node_id(&vec![3, 1, 2]), 4);
    assert_eq!(next_node_id(&vec![1, 7, 2]), 8);
}

#[test]
fn join_success_path() {
    let plan = plan_join(vec![1, 2], 3, "127.0.0.1:50053".to_string());
    assert_eq!(plan.voters, vec![1, 2, 3]);
    assert_eq!(plan.learner.grpc_addr, "127.0.0.1:50053");
    let voters = match after_learner_added(plan, Ok(())) {
        Ok(v) => v,
        Err(_) => panic!("expected voters"),
    };
    assert_eq!(voters, vec![1, 2, 3]);
    let reply = after_membership_change(3, true);
    assert_eq!(reply.error, "");
    assert_eq!(reply.node_id, 3);
}

#[test]
fn join_learner_failure() {
    let plan = plan_join(vec![1], 2, "h:1".to_string());
    match after_learner_added(plan, Err("node unreachable".to_string())) {
        Err(reply) => {
            assert_eq!(reply.error, "node unreachable");
            assert_eq!(reply.node_id, 2);
        }
        Ok(_) => panic!("expected a reply"),
    }
}

#[test]
fn join_membership_failure() {
    let reply = after_membership_change(5, false);
    assert_eq!(reply.error, "failed to change membership");
    assert_eq!(reply.node_id, 5);
}

#[test]
fn endpoints_use_http() {
    assert_eq!(http_endpoint("10.0.0.1:7051"), "http://10.0.0.1:7051");
    let mut f = NetworkFactory::new();
    let c = f.connection_to(2, &node("127.0.0.1:50052"));
    assert_eq!(c.addr(), "http://127.0.0.1:50052");
}

#[test]
fn next_id_is_not_taken() {
    let ids = vec![4, 9, 2, 5];
    let id = next_node_id(&ids);
    assert!(!ids.contains(&id));
    assert_eq!(id, 10);
}

#[test]
fn snapshot_entries_restore_the_store() {
    let mut sm = KvStateMachine::new();
    sm.apply(Request::set("a", "1"));
    sm.apply(Request::set("b", "2"));
    sm.apply(Request::set("a", "3"));
    let entries = sm.entries();
    assert_eq!(entries.len(), 2);
    let restored = KvStateMachine::from_entries(entries);
    assert_eq!(restored.read("a"), "3");
    assert_eq!(restored.read("b"), "2");
    assert_eq!(restored.read("c"), "");
    let later_wins = KvStateMachine::from_entries(vec![
        ("k".to_string(), "old".to_string()),
        ("k".to_string(), "new".to_string()),
    ]);
    assert_eq!(later_wins.read("k"), "new");
}
