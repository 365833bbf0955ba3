//! Cluster membership: the id a joining node is given, and the steps by
//! which the leader admits it as a voter.

use vstd::prelude::*;
use vstd::string::*;

use crate::raft_node::{Node, NodeId};

verus! {

/// The largest id of a non-empty list.
pub open spec fn max_id(ids: Seq<NodeId>) -> NodeId
    decreases ids.len(),
{
    if ids.len() <= 1 {
        ids[0]
    } else if ids.last() >= max_id(ids.drop_last()) {
        ids.last()
    } else {
        max_id(ids.drop_last())
    }
}

proof fn lemma_max_id(ids: Seq<NodeId>)
    requires
        ids.len() > 0,
    ensures
        forall|i: int| 0 <= i < ids.len() ==> ids[i] <= max_id(ids),
        exists|i: int| 0 <= i < ids.len() && ids[i] == max_id(ids),
    decreases ids.len(),
{
    if ids.len() > 1 {
        let init = ids.drop_last();
        lemma_max_id(init);
        assert forall|i: int| 0 <= i < ids.len() implies ids[i] <= max_id(ids) by {
            if i < ids.len() - 1 {
                assert(ids[i] == init[i]);
            }
        }
        if ids.last() >= max_id(init) {
            assert(ids[ids.len() - 1] == max_id(ids));
        } else {
            let w = choose|i: int| 0 <= i < init.len() && init[i] == max_id(init);
            assert(ids[w] == max_id(ids));
        }
    } else {
        assert(ids[0] == max_id(ids));
    }
}

/// The id for a node about to join: one more than the largest id of the
/// current members.
pub fn next_node_id(member_ids: &Vec<NodeId>) -> (id: NodeId)
    requires
        member_ids@.len() > 0,
        max_id(member_ids@) < NodeId::MAX,
    ensures
        id == max_id(member_ids@) + 1,
{
    let mut best = member_ids[0];
    let mut i: usize = 1;
    proof {
        assert(member_ids@.take(1).drop_last() =~= Seq::<NodeId>::empty());
        assert(max_id(member_ids@.take(1)) == member_ids@[0]);
    }
    while i < member_ids.len()
        invariant
            1 <= i <= member_ids@.len(),
            best == max_id(member_ids@.take(i as int)),
        decreases member_ids@.len() - i,
    {
        proof {
            assert(member_ids@.take(i + 1).drop_last() =~= member_ids@.take(i as int));
            assert(member_ids@.take(i + 1).last() == member_ids@[i as int]);
        }
        if member_ids[i] >= best {
            best = member_ids[i];
        }
        i = i + 1;
    }
    assert(member_ids@.take(i as int) =~= member_ids@);
    best + 1
}

/// An id given by [`next_node_id`] is not the id of any current member.
pub proof fn lemma_next_id_is_fresh(member_ids: Seq<NodeId>)
    requires
        member_ids.len() > 0,
        max_id(member_ids) < NodeId::MAX,
    ensures
        !member_ids.contains((max_id(member_ids) + 1) as NodeId),
{
    lemma_max_id(member_ids);
}

/// The answer to a join request: an error text, empty on success, and the
/// id of the node that asked.
pub struct JoinReply {
    pub error: String,
    pub node_id: NodeId,
}

/// What the leader does first for a joining node: add it as a learner, then
/// make the current voters and it the voters.
pub struct JoinPlan {
    pub node_id: NodeId,
    pub learner: Node,
    pub voters: Vec<NodeId>,
}

/// The plan for admitting `node_id` at `addr`, given the current voters.
pub fn plan_join(existing_voters: Vec<NodeId>, node_id: NodeId, addr: String) -> (p: JoinPlan)
    ensures
        p.node_id == node_id,
        p.learner.grpc_addr == addr,
        p.voters@ == existing_voters@.push(node_id),
{
    let mut voters = existing_voters;
    voters.push(node_id);
    JoinPlan { node_id, learner: Node { grpc_addr: addr }, voters }
}

/// `failed to change membership`.
pub open spec fn membership_failure_message() -> Seq<char> {
    seq![
        'f',
        'a',
        'i',
        'l',
        'e',
        'd',
        ' ',
        't',
        'o',
        ' ',
        'c',
        'h',
        'a',
        'n',
        'g',
        'e',
        ' ',
        'm',
        'e',
        'm',
        'b',
        'e',
        'r',
        's',
        'h',
        'i',
        'p',
    ]
}

/// The next step once adding the learner has been tried: on success, the
/// voters to change the membership to; on failure, the reply carrying the
/// failure's message.
pub fn after_learner_added(plan: JoinPlan, outcome: Result<(), String>) -> (r: Result<
    Vec<NodeId>,
    JoinReply,
>)
    ensures
        outcome is Ok ==> (r matches Ok(v) && v@ == plan.voters@),
        outcome matches Err(m) ==> (r matches Err(reply) && reply.error == m && reply.node_id
            == plan.node_id),
{
    match outcome {
        Ok(()) => Ok(plan.voters),
        Err(m) => Err(JoinReply { error: m, node_id: plan.node_id }),
    }
}

/// The reply once changing the membership has been tried.
pub fn after_membership_change(node_id: NodeId, changed: bool) -> (reply: JoinReply)
    ensures
        reply.node_id == node_id,
        changed ==> reply.error@ == Seq::<char>::empty(),
        !changed ==> reply.error@ == membership_failure_message(),
{
    if changed {
        JoinReply { error: String::new(), node_id }
    } else {
        proof {
            reveal_strlit("failed to change membership");
        }
        JoinReply { error: String::from_str("failed to change membership"), node_id }
    }
}

} // verus!
