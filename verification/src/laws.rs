//! What holds of every request, whatever the cluster and whatever the node.

use vstd::prelude::*;
use crate::model::{
    client_gw_registered_plan, finalize_plan, lemma_first_unmet, lemma_first_unready, plan_reaches, Action, Cluster,
    Progress, Step, Task,
};
use crate::node::{Node, Phase};
use crate::topology::{
    lemma_all_reach_the_daemon, lemma_dependencies_come_first, lemma_index_is_a_bijection,
    lemma_reaches_from_place, lemma_reaches_itself, lemma_reaches_through, NodeId, NODE_COUNT,
};

verus! {

/// The effect of one request, in full.
///
/// A request keeps the cluster well formed and touches nothing but node
/// states. It changes only nodes that the requested node reaches, and none
/// that is resolved or whose work is out. No node becomes ready by it, and
/// none goes back to `Unstarted`. A node's work goes out only by the answer
/// `Launch` that names it.
pub proof fn lemma_request<V, E>(s: Cluster<V, E>, id: NodeId)
    requires
        s.wf(),
    ensures
        ({
            let (next, progress) = s.request(id);
            &&& next.wf()
            &&& next.gateway_ids == s.gateway_ids
            &&& next.gateways_confirmed == s.gateways_confirmed
            &&& next.started_at == s.started_at
            &&& forall|n: NodeId|
                n.spec_index() > id.spec_index() ==> #[trigger] next.nodes[n] == s.nodes[n]
            &&& forall|n: NodeId| !id.reaches(n) ==> #[trigger] next.nodes[n] == s.nodes[n]
            &&& forall|n: NodeId|
                s.nodes[n].is_terminal() || s.nodes[n].is_working() ==> #[trigger] next.nodes[n]
                    == s.nodes[n]
            &&& forall|n: NodeId|
                !(s.nodes[n] is Unstarted) ==> !(#[trigger] next.nodes[n] is Unstarted)
            &&& forall|n: NodeId| #[trigger] next.nodes[n] is Ready ==> s.nodes[n] is Ready
            &&& forall|n: NodeId|
                (#[trigger] next.nodes[n]).is_working() && !s.nodes[n].is_working() ==> progress
                    == Progress::Pending(Action::Launch(n))
            &&& forall|n: NodeId|
                #[trigger] next.nodes[n] is Failed && !(s.nodes[n] is Failed) ==> progress is Failed
            &&& match progress {
                Progress::Ready => s.nodes[id] is Ready && next == s,
                Progress::Failed(n) => n == id && next.nodes[id] is Failed && exists|m: NodeId|
                    id.reaches(m) && #[trigger] s.nodes[m] is Failed && next.nodes[id]
                        == s.nodes[m],
                Progress::Pending(Action::Launch(m)) => id.reaches(m) && !s.nodes[m].is_launched()
                    && !s.nodes[m].is_terminal() && next.nodes[m].is_working(),
                Progress::Pending(Action::Wait) => exists|m: NodeId|
                    id.reaches(m) && (#[trigger] next.nodes[m]).is_working(),
                Progress::Pending(_) => false,
            }
        }),
    decreases id.spec_index(),
{
    let deps = id.spec_dependencies();
    let place = s.first_unready(deps, 0);
    let (next, progress) = s.request(id);
    lemma_first_unready(s, deps, 0);
    lemma_reaches_itself(id);
    match s.nodes[id] {
        Node::Ready(_) => {},
        Node::Failed(_) => {},
        Node::InProgress(Phase::Working) => {},
        _ => {
            if place >= deps.len() {
                assert forall|k: int| 0 <= k < deps.len() implies next.nodes[deps[k]] is Ready by {
                    lemma_dependencies_come_first(id, k);
                }
            } else {
                let d = deps[place];
                lemma_dependencies_come_first(id, place);
                lemma_request(s, d);
                let (mid, p) = s.request(d);
                assert(mid.nodes[id] == s.nodes[id]);
                assert forall|n: NodeId| !id.reaches(n) implies #[trigger] next.nodes[n]
                    == s.nodes[n] by {
                    if d.reaches(n) {
                        lemma_reaches_from_place(id, 0, place, n);
                    }
                }
                match p {
                    Progress::Failed(_) => {
                        let m = choose|m: NodeId|
                            d.reaches(m) && #[trigger] s.nodes[m] is Failed && mid.nodes[d]
                                == s.nodes[m];
                        lemma_reaches_from_place(id, 0, place, m);
                        assert(next.nodes[id] == s.nodes[m]);
                        assert(next.nodes[deps[place]] == next.nodes[id]);
                    },
                    Progress::Pending(Action::Launch(m)) => {
                        lemma_reaches_from_place(id, 0, place, m);
                    },
                    Progress::Pending(Action::Wait) => {
                        let m = choose|m: NodeId|
                            d.reaches(m) && (#[trigger] mid.nodes[m]).is_working();
                        lemma_reaches_from_place(id, 0, place, m);
                        assert(next.nodes[m].is_working());
                    },
                    _ => {},
                }
            }
        },
    }
}

/// The effect of one walk through a plan, in full.
///
/// A walk keeps the cluster well formed and touches nothing but node
/// states, and of those none that is resolved or whose work is out, and none
/// that no item of the plan reaches. A walk that answers `Ready` has changed
/// nothing, and every item is met. Otherwise every item before the one that
/// it stopped at is met.
pub proof fn lemma_perform<V, E>(s: Cluster<V, E>, plan: Seq<Task>)
    requires
        s.wf(),
    ensures
        ({
            let (next, progress) = s.perform(plan);
            &&& next.wf()
            &&& next.gateway_ids == s.gateway_ids
            &&& next.gateways_confirmed == s.gateways_confirmed
            &&& next.started_at == s.started_at
            &&& forall|n: NodeId| !plan_reaches(plan, n) ==> #[trigger] next.nodes[n] == s.nodes[n]
            &&& forall|n: NodeId|
                s.nodes[n].is_terminal() || s.nodes[n].is_working() ==> #[trigger] next.nodes[n]
                    == s.nodes[n]
            &&& forall|n: NodeId|
                !(s.nodes[n] is Unstarted) ==> !(#[trigger] next.nodes[n] is Unstarted)
            &&& forall|n: NodeId| #[trigger] next.nodes[n] is Ready ==> s.nodes[n] is Ready
            &&& forall|n: NodeId|
                (#[trigger] next.nodes[n]).is_working() && !s.nodes[n].is_working() ==> progress
                    == Progress::Pending(Action::Launch(n))
            &&& forall|n: NodeId|
                #[trigger] next.nodes[n] is Failed && !(s.nodes[n] is Failed) ==> progress is Failed
            &&& forall|j: int| 0 <= j < s.first_unmet(plan, 0) ==> next.met(#[trigger] plan[j])
            &&& match progress {
                Progress::Ready => next == s && s.first_unmet(plan, 0) == plan.len(),
                Progress::Failed(n) => plan[s.first_unmet(plan, 0)] == Task::Force(n)
                    && next.nodes[n] is Failed && exists|m: NodeId|
                    #[trigger] s.nodes[m] is Failed && next.nodes[n] == s.nodes[m],
                Progress::Pending(Action::Launch(m)) => !s.nodes[m].is_launched()
                    && !s.nodes[m].is_terminal() && next.nodes[m].is_working(),
                Progress::Pending(Action::Wait) => exists|m: NodeId|
                    (#[trigger] next.nodes[m]).is_working(),
                Progress::Pending(Action::ReportGatewayIds) => next == s
                    && s.gateway_ids.is_none() && plan[s.first_unmet(plan, 0)]
                    == Task::ReportGatewayIds,
                Progress::Pending(Action::ConfirmGateways) => next == s && !s.gateways_confirmed
                    && plan[s.first_unmet(plan, 0)] == Task::ConfirmGateways,
            }
        }),
{
    lemma_first_unmet(s, plan, 0);
    let place = s.first_unmet(plan, 0);
    if place < plan.len() {
        match plan[place] {
            Task::Force(id) => {
                lemma_request(s, id);
                lemma_reaches_itself(id);
                assert forall|n: NodeId| !plan_reaches(plan, n) implies #[trigger] s.request(
                    id,
                ).0.nodes[n] == s.nodes[n] by {
                    if id.reaches(n) {
                        assert(plan[place] matches Task::Force(i) && i.reaches(n));
                    }
                }
            },
            _ => {},
        }
    }
}

/// Where finalization, or the eager start, asks for a record, the record
/// will be taken: both gateways are ready when their identities are asked
/// for, and the client has joined when the gateways are to be confirmed. In
/// finalization and in the eager start, both gateways have joined by then
/// as well.
pub proof fn lemma_records_are_due<V, E>(s: Cluster<V, E>)
    requires
        s.wf(),
    ensures
        s.perform(finalize_plan()).1 == Progress::Pending(Action::ReportGatewayIds)
            ==> s.accepts_gateway_ids(),
        s.perform(finalize_plan()).1 == Progress::Pending(Action::ConfirmGateways)
            ==> s.accepts_confirmation() && s.nodes[NodeId::GwClnRegistered] is Ready
            && s.nodes[NodeId::GwLndRegistered] is Ready,
        s.perform(client_gw_registered_plan()).1 == Progress::Pending(Action::ConfirmGateways)
            ==> s.accepts_confirmation(),
        s.start_all().1 == Progress::Pending(Action::ReportGatewayIds) ==> s.start_all().0
            == s && s.accepts_gateway_ids(),
        s.start_all().1 == Progress::Pending(Action::ConfirmGateways) ==> s.start_all().0 == s
            && s.accepts_confirmation() && s.nodes[NodeId::GwClnRegistered] is Ready
            && s.nodes[NodeId::GwLndRegistered] is Ready,
{
    lemma_perform(s, finalize_plan());
    lemma_perform(s, client_gw_registered_plan());
    lemma_start_all(s);
    let plan = finalize_plan();
    let place = s.first_unmet(plan, 0);
    lemma_first_unmet(s, plan, 0);
    assert(plan.len() == 19);
    if 0 <= place < 19 && plan[place] == Task::ReportGatewayIds {
        assert(place == 2);
        assert(s.met(plan[0]) && s.met(plan[1]));
    }
    if 0 <= place < 19 && plan[place] == Task::ConfirmGateways {
        assert(place == 7);
        assert(s.met(plan[3]) && s.met(plan[5]) && s.met(plan[6]));
    }
    let short = client_gw_registered_plan();
    let stop = s.first_unmet(short, 0);
    lemma_first_unmet(s, short, 0);
    assert(short.len() == 4);
    if 0 <= stop < 4 && short[stop] == Task::ConfirmGateways {
        assert(stop == 2);
        assert(s.met(short[0]));
    }
    lemma_first_failed(s, 0);
    lemma_first_launchable(s, 0);
    match s.first_launchable(0) {
        Some(n) => {
            lemma_request(s, n);
        },
        None => {},
    }
}

/// `first_failed` finds a node that has failed, or there is none from its
/// place on.
pub proof fn lemma_first_failed<V, E>(s: Cluster<V, E>, k: nat)
    ensures
        match s.first_failed(k) {
            Some(n) => s.nodes[n] is Failed && n.spec_index() >= k,
            None => forall|n: NodeId| n.spec_index() >= k ==> !(#[trigger] s.nodes[n] is Failed),
        },
    decreases NODE_COUNT - k,
{
    if k < NODE_COUNT {
        if !(s.nodes[NodeId::spec_from_index(k)] is Failed) {
            lemma_first_failed(s, k + 1);
            assert forall|n: NodeId| n.spec_index() == k implies n == NodeId::spec_from_index(
                k,
            ) by {
                lemma_index_is_a_bijection(n, k);
            }
        } else {
            lemma_index_is_a_bijection(NodeId::Bitcoind, k);
        }
    } else {
        assert forall|n: NodeId| n.spec_index() >= k implies !(#[trigger] s.nodes[n] is Failed) by {
            lemma_index_is_a_bijection(n, k);
        }
    }
}

/// `first_launchable` finds a node whose work can go out, or there is none
/// from its place on.
pub proof fn lemma_first_launchable<V, E>(s: Cluster<V, E>, k: nat)
    ensures
        match s.first_launchable(k) {
            Some(n) => s.launchable(n) && n.spec_index() >= k,
            None => forall|n: NodeId| n.spec_index() >= k ==> !#[trigger] s.launchable(n),
        },
    decreases NODE_COUNT - k,
{
    if k < NODE_COUNT {
        if !s.launchable(NodeId::spec_from_index(k)) {
            lemma_first_launchable(s, k + 1);
            assert forall|n: NodeId| n.spec_index() == k implies n == NodeId::spec_from_index(
                k,
            ) by {
                lemma_index_is_a_bijection(n, k);
            }
        } else {
            lemma_index_is_a_bijection(NodeId::Bitcoind, k);
        }
    } else {
        assert forall|n: NodeId| n.spec_index() >= k implies !#[trigger] s.launchable(n) by {
            lemma_index_is_a_bijection(n, k);
        }
    }
}

/// Once finalization has nothing left to wait for, every service is ready.
pub proof fn lemma_final_cluster_is_whole<V, E>(s: Cluster<V, E>)
    requires
        s.wf(),
        s.perform(finalize_plan()).1 == Progress::Ready,
    ensures
        forall|n: NodeId| #[trigger] s.nodes[n] is Ready,
        s.gateway_ids.is_some(),
        s.gateways_confirmed,
{
    lemma_perform(s, finalize_plan());
    let plan = finalize_plan();
    assert(s.met(plan[0]) && s.met(plan[1]) && s.met(plan[2]) && s.met(plan[3]) && s.met(plan[4])
        && s.met(plan[5]) && s.met(plan[6]) && s.met(plan[7]) && s.met(plan[9]) && s.met(
        plan[14],
    ) && s.met(plan[15]) && s.met(plan[16]) && s.met(plan[17]) && s.met(plan[18]));
    assert(s.nodes[NodeId::Cln].is_launched());
    assert(s.nodes[NodeId::Cln.spec_dependencies()[0]] is Ready);
    assert forall|n: NodeId| #[trigger] s.nodes[n] is Ready by {
        assert(s.nodes[NodeId::Bitcoind] is Ready);
    }
}

/// The effect of one step of the eager start, in full.
///
/// A step keeps the cluster well formed and touches nothing but node
/// states, and of those none that is resolved or whose work is out. A step
/// that answers `Ready` has changed nothing, and every node is ready.
pub proof fn lemma_start_all<V, E>(s: Cluster<V, E>)
    requires
        s.wf(),
    ensures
        ({
            let (next, progress) = s.start_all();
            &&& next.wf()
            &&& next.gateway_ids == s.gateway_ids
            &&& next.gateways_confirmed == s.gateways_confirmed
            &&& next.started_at == s.started_at
            &&& forall|n: NodeId|
                s.nodes[n].is_terminal() || s.nodes[n].is_working() ==> #[trigger] next.nodes[n]
                    == s.nodes[n]
            &&& forall|n: NodeId| #[trigger] next.nodes[n] is Ready ==> s.nodes[n] is Ready
            &&& forall|n: NodeId|
                (#[trigger] next.nodes[n]).is_working() && !s.nodes[n].is_working() ==> progress
                    == Progress::Pending(Action::Launch(n))
            &&& forall|n: NodeId|
                #[trigger] next.nodes[n] is Failed && !(s.nodes[n] is Failed) ==> progress is Failed
            &&& match progress {
                Progress::Ready => next == s && (forall|n: NodeId| #[trigger] s.nodes[n] is Ready)
                    && s.gateway_ids.is_some() && s.gateways_confirmed,
                Progress::Failed(n) => next == s && s.nodes[n] is Failed,
                Progress::Pending(Action::Launch(m)) => !s.nodes[m].is_launched()
                    && !s.nodes[m].is_terminal() && next.nodes[m].is_working(),
                Progress::Pending(Action::Wait) => exists|m: NodeId|
                    (#[trigger] next.nodes[m]).is_working(),
                Progress::Pending(Action::ReportGatewayIds) => next == s
                    && s.gateway_ids.is_none(),
                Progress::Pending(Action::ConfirmGateways) => next == s && !s.gateways_confirmed,
            }
        }),
{
    lemma_first_failed(s, 0);
    lemma_first_launchable(s, 0);
    match s.first_failed(0) {
        Some(n) => {},
        None => match s.first_launchable(0) {
            Some(n) => {
                lemma_request(s, n);
            },
            None => {
                lemma_perform(s, finalize_plan());
                if s.perform(finalize_plan()).1 == Progress::Ready {
                    lemma_final_cluster_is_whole(s);
                }
            },
        },
    }
}

/// The effect of an outcome that comes back, in full: the cluster stays
/// well formed, and no node but the one named changes.
pub proof fn lemma_resolve<V, E>(s: Cluster<V, E>, id: NodeId, outcome: Result<V, E>)
    requires
        s.wf(),
    ensures
        s.resolve(id, outcome).wf(),
        forall|n: NodeId| n != id ==> #[trigger] s.resolve(id, outcome).nodes[n] == s.nodes[n],
        s.accepts(id) ==> s.resolve(id, outcome).nodes[id].is_terminal(),
        !s.accepts(id) ==> s.resolve(id, outcome) == s,
{
    let next = s.resolve(id, outcome);
    if s.accepts(id) {
        assert forall|f: NodeId| #[trigger] next.nodes[f] is Failed implies next.caused(f) by {
            if f != id {
                assert(s.caused(f));
                if exists|k: int|
                    0 <= k < f.spec_dependencies().len() && s.nodes[#[trigger] f.spec_dependencies()[k]]
                        == s.nodes[f] {
                    let k = choose|k: int|
                        0 <= k < f.spec_dependencies().len()
                            && s.nodes[#[trigger] f.spec_dependencies()[k]] == s.nodes[f];
                    assert(next.nodes[f.spec_dependencies()[k]] == next.nodes[f]);
                } else {
                    assert forall|k: int| 0 <= k < f.spec_dependencies().len() implies next.nodes[#[trigger] f.spec_dependencies()[k]] is Ready by {}
                }
            } else {
                assert forall|k: int| 0 <= k < f.spec_dependencies().len() implies next.nodes[#[trigger] f.spec_dependencies()[k]] is Ready by {
                    lemma_dependencies_come_first(f, k);
                }
            }
        }
    }
}

/// Every step keeps the cluster well formed and leaves resolved nodes as
/// they are. Work that is out stays out until its outcome comes back. The
/// work of a node goes out only by the answer `Launch` that names it, and
/// only if it has not gone out before and the node is not resolved.
pub proof fn lemma_apply<V, E>(s: Cluster<V, E>, step: Step<V, E>)
    requires
        s.wf(),
    ensures
        ({
            let (next, answer) = s.apply(step);
            &&& next.wf()
            &&& forall|n: NodeId| s.nodes[n].is_terminal() ==> #[trigger] next.nodes[n] == s.nodes[n]
            &&& forall|n: NodeId| s.spent(n) ==> #[trigger] next.spent(n)
            &&& forall|n: NodeId| !step.asks_for(n) && s.nodes[n] is Unstarted ==> #[trigger] next.nodes[n] is Unstarted
            &&& forall|n: NodeId|
                answer == Some(Progress::Pending(Action::Launch(n))) ==> !s.spent(n) && next.spent(
                    n,
                )
        }),
{
    match step {
        Step::Get(id) => {
            lemma_request(s, id);
        },
        Step::Walk(plan) => {
            lemma_perform(s, plan);
        },
        Step::StartAll => {
            lemma_start_all(s);
        },
        Step::Resolve(id, outcome) => {
            lemma_resolve(s, id, outcome);
        },
        Step::PublishGatewayIds(gw_cln, gw_lnd) => {
            assert(s.publish_gateway_ids(gw_cln, gw_lnd).nodes == s.nodes);
        },
        Step::ConfirmGateways => {
            assert(s.confirm_gateways().nodes == s.nodes);
        },
    }
}

/// Single flight. Whatever steps are taken, by however many callers and in
/// whatever order, the work of a node is handed out at most once; and not at
/// all if it was out, or the node resolved, before the first of them.
pub proof fn lemma_single_flight<V, E>(s: Cluster<V, E>, steps: Seq<Step<V, E>>, n: NodeId)
    requires
        s.wf(),
    ensures
        s.after(steps).wf(),
        s.launch_count(steps, n) <= 1,
        s.spent(n) ==> s.launch_count(steps, n) == 0,
        s.launch_count(steps, n) == 1 ==> s.after(steps).spent(n),
        s.spent(n) ==> s.after(steps).spent(n),
    decreases steps.len(),
{
    if steps.len() > 0 {
        lemma_single_flight(s, steps.drop_last(), n);
        lemma_apply(s.after(steps.drop_last()), steps.last());
    }
}

/// A resolved node is final. Whatever steps are taken afterwards, the node
/// holds the same value, or the same error, as when it was resolved.
pub proof fn lemma_resolved_is_final<V, E>(s: Cluster<V, E>, steps: Seq<Step<V, E>>, n: NodeId)
    requires
        s.wf(),
        s.nodes[n].is_terminal(),
    ensures
        s.after(steps).nodes[n] == s.nodes[n],
    decreases steps.len(),
{
    if steps.len() > 0 {
        lemma_single_flight(s, steps.drop_last(), n);
        lemma_resolved_is_final(s, steps.drop_last(), n);
        lemma_apply(s.after(steps.drop_last()), steps.last());
    }
}

/// A resolved node answers from its cache: a request for it changes
/// nothing, and gives `Ready` for a ready node and `Failed` for a failed
/// one, as often as it is made.
pub proof fn lemma_answer_is_cached<V, E>(s: Cluster<V, E>, id: NodeId)
    requires
        s.nodes[id].is_terminal(),
    ensures
        s.request(id).0 == s,
        s.nodes[id] is Ready ==> s.request(id).1 == Progress::Ready,
        s.nodes[id] is Failed ==> s.request(id).1 == Progress::Failed(id),
{
}

/// Asking twice is asking once. After a request that was answered `Ready`
/// or `Failed`, the same request changes nothing and has the same answer.
pub proof fn lemma_request_twice<V, E>(s: Cluster<V, E>, id: NodeId)
    requires
        s.wf(),
        s.request(id).1 is Ready || s.request(id).1 is Failed,
    ensures
        s.request(id).0.request(id) == s.request(id),
{
    lemma_request(s, id);
    lemma_answer_is_cached(s.request(id).0, id);
}

/// Walking twice is walking once. After a walk that was answered `Ready` or
/// `Failed`, the same walk changes nothing and has the same answer: a
/// second finalization hands out no work and asks for none.
pub proof fn lemma_walk_twice<V, E>(s: Cluster<V, E>, plan: Seq<Task>)
    requires
        s.wf(),
        s.perform(plan).1 is Ready || s.perform(plan).1 is Failed,
    ensures
        s.perform(plan).0.perform(plan) == s.perform(plan),
{
    lemma_perform(s, plan);
    lemma_first_unmet(s, plan, 0);
    let place = s.first_unmet(plan, 0);
    let next = s.perform(plan).0;
    if place < plan.len() {
        match plan[place] {
            Task::Force(id) => {
                lemma_request(s, id);
                lemma_answer_is_cached(next, id);
                lemma_same_stop(s, next, plan, 0);
            },
            _ => {},
        }
    }
}

/// Two clusters that meet the same items up to a place where neither meets
/// the item stop their walks at the same place.
proof fn lemma_same_stop<V, E>(s: Cluster<V, E>, next: Cluster<V, E>, plan: Seq<Task>, k: int)
    requires
        0 <= k <= s.first_unmet(plan, k) < plan.len(),
        forall|j: int| k <= j < s.first_unmet(plan, k) ==> next.met(#[trigger] plan[j]),
        !next.met(plan[s.first_unmet(plan, k)]),
    ensures
        next.first_unmet(plan, k) == s.first_unmet(plan, k),
    decreases plan.len() - k,
{
    lemma_first_unmet(s, plan, k);
    if s.met(plan[k]) {
        lemma_same_stop(s, next, plan, k + 1);
    }
}

/// Laziness of one request: a node that the requested node does not reach
/// is left as it is.
pub proof fn lemma_unreached_is_untouched<V, E>(s: Cluster<V, E>, id: NodeId, n: NodeId)
    requires
        s.wf(),
        !id.reaches(n),
    ensures
        s.request(id).0.nodes[n] == s.nodes[n],
{
    lemma_request(s, id);
}

/// Laziness. A node that no step asks for, directly or through another
/// node's producer, stays `Unstarted` and its work is never handed out,
/// however long the steps go on.
pub proof fn lemma_unasked_stays_unstarted<V, E>(
    s: Cluster<V, E>,
    steps: Seq<Step<V, E>>,
    n: NodeId,
)
    requires
        s.wf(),
        s.nodes[n] is Unstarted,
        forall|i: int| 0 <= i < steps.len() ==> !(#[trigger] steps[i]).asks_for(n),
    ensures
        s.after(steps).nodes[n] is Unstarted,
        s.launch_count(steps, n) == 0,
    decreases steps.len(),
{
    if steps.len() > 0 {
        let before = steps.drop_last();
        assert forall|i: int| 0 <= i < before.len() implies !(#[trigger] before[i]).asks_for(n) by {
            assert(before[i] == steps[i]);
        }
        lemma_unasked_stays_unstarted(s, before, n);
        lemma_single_flight(s, before, n);
        assert(!steps[steps.len() - 1].asks_for(n));
        lemma_apply(s.after(before), steps.last());
        assert(!s.after(before).apply(steps.last()).0.spent(n));
    }
}

/// Topological soundness. A node whose own work has gone out, or that is
/// ready, has every node that it reaches ready: a gateway's marker is not
/// resolved before its gateway and the federation are, nor the channel's
/// before both payment nodes and the base chain daemon.
pub proof fn lemma_launched_after_all_it_reaches<V, E>(s: Cluster<V, E>, id: NodeId, n: NodeId)
    requires
        s.wf(),
        s.nodes[id].is_launched(),
        id.reaches(n),
        id != n,
    ensures
        s.nodes[n] is Ready,
    decreases id.spec_index(),
{
    let j = lemma_reaches_through(id, 0, n);
    let d = id.spec_dependencies()[j];
    assert(s.nodes[d] is Ready);
    if d != n {
        lemma_launched_after_all_it_reaches(s, d, n);
    }
}

/// A node is resolved by an outcome only when all its dependencies are
/// ready.
pub proof fn lemma_resolved_after_dependencies<V, E>(
    s: Cluster<V, E>,
    id: NodeId,
    outcome: Result<V, E>,
    k: int,
)
    requires
        s.wf(),
        s.resolve(id, outcome).nodes[id] != s.nodes[id],
        0 <= k < id.spec_dependencies().len(),
    ensures
        s.nodes[id.spec_dependencies()[k]] is Ready,
        s.resolve(id, outcome).nodes[id.spec_dependencies()[k]] is Ready,
{
    lemma_dependencies_come_first(id, k);
}

/// Propagation, one request. Where the first dependency of a node that is
/// not ready has failed, a request for the node fails it with the same
/// error. Nothing else changes: no work goes out, and no later dependency
/// is asked for.
pub proof fn lemma_failed_dependency_fails_the_request<V, E>(s: Cluster<V, E>, id: NodeId)
    requires
        s.wf(),
        !s.spent(id),
        s.first_unready(id.spec_dependencies(), 0) < id.spec_dependencies().len(),
        s.nodes[id.spec_dependencies()[s.first_unready(id.spec_dependencies(), 0)]] is Failed,
    ensures
        s.request(id).1 == Progress::Failed(id),
        s.request(id).0 == s.with_node(
            id,
            s.nodes[id.spec_dependencies()[s.first_unready(id.spec_dependencies(), 0)]],
        ),
{
    let d = id.spec_dependencies()[s.first_unready(id.spec_dependencies(), 0)];
    lemma_first_unready(s, id.spec_dependencies(), 0);
    lemma_answer_is_cached(s, d);
}

/// Propagation, as an invariant. A node that reaches a failed node has not
/// had its own work handed out and is not ready: of its producer, nothing
/// after the failed request has run.
pub proof fn lemma_failure_blocks_dependents<V, E>(s: Cluster<V, E>, id: NodeId, failed: NodeId)
    requires
        s.wf(),
        s.nodes[failed] is Failed,
        id.reaches(failed),
        id != failed,
    ensures
        !s.nodes[id].is_launched(),
{
    if s.nodes[id].is_launched() {
        lemma_launched_after_all_it_reaches(s, id, failed);
    }
}

/// Propagation, every request. A request never invents a failure: where it
/// answers `Failed`, the requested node holds the error of a node that it
/// reaches and that had failed before the request.
pub proof fn lemma_failure_has_a_root<V, E>(s: Cluster<V, E>, id: NodeId) -> (root: NodeId)
    requires
        s.wf(),
        s.request(id).1 is Failed,
    ensures
        id.reaches(root),
        s.nodes[root] is Failed,
        s.request(id).0.nodes[id] == s.nodes[root],
{
    lemma_request(s, id);
    choose|m: NodeId|
        id.reaches(m) && #[trigger] s.nodes[m] is Failed && s.request(id).0.nodes[id] == s.nodes[m]
}

/// Once the base chain daemon has failed, every failure in the cluster is
/// its failure.
pub proof fn lemma_every_failure_is_the_daemons<V, E>(s: Cluster<V, E>, id: NodeId)
    requires
        s.wf(),
        s.nodes[NodeId::Bitcoind] is Failed,
        s.nodes[id] is Failed,
    ensures
        s.nodes[id] == s.nodes[NodeId::Bitcoind],
    decreases id.spec_index(),
{
    if id != NodeId::Bitcoind {
        lemma_all_reach_the_daemon(id);
        let deps = id.spec_dependencies();
        assert(s.caused(id));
        let first = deps[0];
        lemma_all_reach_the_daemon(first);
        if s.nodes[first] is Ready {
            if first != NodeId::Bitcoind {
                lemma_launched_after_all_it_reaches(s, first, NodeId::Bitcoind);
            }
        }
        let k = choose|k: int| 0 <= k < deps.len() && s.nodes[#[trigger] deps[k]] == s.nodes[id];
        lemma_dependencies_come_first(id, k);
        lemma_every_failure_is_the_daemons(s, deps[k]);
    }
}

/// Once the base chain daemon has failed, a request for any node is
/// answered `Failed` with the daemon's error, and no work goes out.
pub proof fn lemma_daemon_failure_fails_all<V, E>(s: Cluster<V, E>, id: NodeId)
    requires
        s.wf(),
        s.nodes[NodeId::Bitcoind] is Failed,
    ensures
        s.request(id).1 == Progress::Failed(id),
        s.request(id).0.nodes[id] == s.nodes[NodeId::Bitcoind],
        s.request(id).0.nodes[NodeId::Bitcoind] == s.nodes[NodeId::Bitcoind],
        forall|n: NodeId|
            (#[trigger] s.request(id).0.nodes[n]).is_working() ==> s.nodes[n].is_working(),
    decreases id.spec_index(),
{
    lemma_request(s, id);
    lemma_all_reach_the_daemon(id);
    if id == NodeId::Bitcoind {
    } else if s.nodes[id] is Failed {
        lemma_every_failure_is_the_daemons(s, id);
    } else {
        lemma_failure_blocks_dependents(s, id, NodeId::Bitcoind);
        let deps = id.spec_dependencies();
        let place = s.first_unready(deps, 0);
        lemma_first_unready(s, deps, 0);
        if place >= deps.len() {
            let first = deps[0];
            lemma_all_reach_the_daemon(first);
            assert(s.nodes[first] is Ready);
            if first != NodeId::Bitcoind {
                lemma_launched_after_all_it_reaches(s, first, NodeId::Bitcoind);
            }
            assert(false);
        }
        let d = deps[place];
        lemma_dependencies_come_first(id, place);
        lemma_daemon_failure_fails_all(s, d);
        lemma_request(s, d);
    }
}

/// Once the base chain daemon has failed, finalization is answered
/// `Failed` with the daemon's error at its first item, and no work goes
/// out: it ends, and does not wait.
pub proof fn lemma_daemon_failure_fails_finalization<V, E>(s: Cluster<V, E>)
    requires
        s.wf(),
        s.nodes[NodeId::Bitcoind] is Failed,
    ensures
        s.perform(finalize_plan()).1 == Progress::Failed(NodeId::GwCln),
        s.perform(finalize_plan()).0.nodes[NodeId::GwCln] == s.nodes[NodeId::Bitcoind],
{
    lemma_daemon_failure_fails_all(s, NodeId::GwCln);
    assert(finalize_plan()[0] == Task::Force(NodeId::GwCln));
    assert(!s.met(finalize_plan()[0]));
}

/// No step waits for nothing. A walk answers `Wait` only while the work of
/// some node is out: once every outcome has come back, the next walk hands
/// out work, asks for a record, or ends.
pub proof fn lemma_wait_means_work_is_out<V, E>(s: Cluster<V, E>, plan: Seq<Task>) -> (m: NodeId)
    requires
        s.wf(),
        s.perform(plan).1 == Progress::Pending(Action::Wait),
    ensures
        s.nodes[m].is_working(),
{
    lemma_perform(s, plan);
    let next = s.perform(plan).0;
    let m = choose|m: NodeId| (#[trigger] next.nodes[m]).is_working();
    m
}

/// The count of unready nodes is at most the number of places counted.
pub proof fn lemma_unready_bound<V, E>(s: Cluster<V, E>, k: nat)
    ensures
        s.unready_from(k) <= NODE_COUNT - k || (k > NODE_COUNT && s.unready_from(k) == 0),
    decreases NODE_COUNT - k,
{
    if k < NODE_COUNT {
        lemma_unready_bound(s, k + 1);
    }
}

/// Where `t` has the nodes of `s` ready and, besides, the node `gained`
/// (if there is one), which is not ready in `s`, `t` has one unready node
/// fewer from every place up to that node's, and as many from the places
/// after it.
pub proof fn lemma_unready_drops<V, E>(
    s: Cluster<V, E>,
    t: Cluster<V, E>,
    gained: Option<NodeId>,
    k: nat,
)
    requires
        forall|n: NodeId|
            Some(n) != gained ==> (#[trigger] t.nodes[n] is Ready <==> s.nodes[n] is Ready),
        gained matches Some(m) ==> t.nodes[m] is Ready && !(s.nodes[m] is Ready),
    ensures
        match gained {
            Some(m) => if m.spec_index() >= k {
                t.unready_from(k) + 1 == s.unready_from(k)
            } else {
                t.unready_from(k) == s.unready_from(k)
            },
            None => t.unready_from(k) == s.unready_from(k),
        },
    decreases NODE_COUNT - k,
{
    if k < NODE_COUNT {
        lemma_unready_drops(s, t, gained, k + 1);
        lemma_index_is_a_bijection(NodeId::spec_from_index(k), k);
        match gained {
            Some(m) => {
                lemma_index_is_a_bijection(m, k);
            },
            None => {},
        }
    } else {
        match gained {
            Some(m) => {
                lemma_index_is_a_bijection(m, k);
            },
            None => {},
        }
    }
}

/// Where every node is ready, none is counted as unready.
pub proof fn lemma_none_unready<V, E>(s: Cluster<V, E>, k: nat)
    requires
        forall|n: NodeId| #[trigger] s.nodes[n] is Ready,
    ensures
        s.unready_from(k) == 0,
    decreases NODE_COUNT - k,
{
    if k < NODE_COUNT {
        lemma_none_unready(s, k + 1);
    }
}

/// One round of success brings the cluster nearer to its end. In a
/// cluster where no work is out and nothing has failed, a step never waits
/// and never fails; once what it asks for is done with success, again no
/// work is out and nothing has failed, and less is left to do.
pub proof fn lemma_round_of_success<V, E>(
    s: Cluster<V, E>,
    eager: bool,
    values: spec_fn(NodeId) -> V,
    gw_cln: Seq<char>,
    gw_lnd: Seq<char>,
)
    requires
        s.wf(),
        s.quiet(),
    ensures
        s.succeed(eager, values, gw_cln, gw_lnd).wf(),
        s.succeed(eager, values, gw_cln, gw_lnd).quiet(),
        !(s.step(eager).1 is Failed),
        s.step(eager).1 != Progress::Pending(Action::Wait),
        s.step(eager).1 == Progress::Ready ==> s.succeed(eager, values, gw_cln, gw_lnd) == s
            && s.remaining() == 0,
        s.step(eager).1 != Progress::Ready ==> s.succeed(
            eager,
            values,
            gw_cln,
            gw_lnd,
        ).remaining() < s.remaining(),
{
    let (next, progress) = s.step(eager);
    let t = s.succeed(eager, values, gw_cln, gw_lnd);
    if eager {
        lemma_start_all(s);
    } else {
        lemma_perform(s, finalize_plan());
    }
    lemma_records_are_due(s);
    assert forall|n: NodeId| !(#[trigger] next.nodes[n] is Failed) by {}
    match progress {
        Progress::Pending(Action::Launch(m)) => {
            lemma_resolve(next, m, Ok(values(m)));
            assert forall|n: NodeId| !(#[trigger] t.nodes[n]).is_working() && !(t.nodes[n] is Failed) by {
                if n != m {
                    assert(t.nodes[n] == next.nodes[n]);
                }
            }
            assert forall|n: NodeId| Some(n) != Some(m) implies (#[trigger] t.nodes[n] is Ready
                <==> s.nodes[n] is Ready) by {
                assert(t.nodes[n] == next.nodes[n]);
                if s.nodes[n] is Ready {
                    assert(next.nodes[n] == s.nodes[n]);
                }
            }
            lemma_unready_drops(s, t, Some(m), 0);
        },
        Progress::Pending(Action::ReportGatewayIds) => {
            lemma_apply(next, Step::PublishGatewayIds(gw_cln, gw_lnd));
            lemma_unready_drops(s, t, None, 0);
        },
        Progress::Pending(Action::ConfirmGateways) => {
            lemma_apply(next, Step::ConfirmGateways);
            lemma_unready_drops(s, t, None, 0);
        },
        Progress::Pending(Action::Wait) => {
            let m = choose|m: NodeId| (#[trigger] next.nodes[m]).is_working();
            assert(s.nodes[m].is_working());
        },
        Progress::Ready => {
            if !eager {
                lemma_final_cluster_is_whole(s);
            }
            lemma_none_unready(s, 0);
        },
        _ => {},
    }
}

/// The start ends. From a cluster where no work is out and nothing has
/// failed (a fresh one, for one), as long as all outside work succeeds,
/// finalization and the eager start answer `Ready` after as many rounds as
/// there are things left to do, which are fifteen at most, and after any
/// number of rounds beyond that.
pub proof fn lemma_success_ends<V, E>(
    s: Cluster<V, E>,
    eager: bool,
    values: spec_fn(NodeId) -> V,
    gw_cln: Seq<char>,
    gw_lnd: Seq<char>,
    rounds: nat,
)
    requires
        s.wf(),
        s.quiet(),
        rounds >= s.remaining(),
    ensures
        s.remaining() <= NODE_COUNT + 2,
        s.succeed_times(eager, values, gw_cln, gw_lnd, rounds).wf(),
        s.succeed_times(eager, values, gw_cln, gw_lnd, rounds).step(eager).1 == Progress::Ready,
    decreases rounds,
{
    lemma_unready_bound(s, 0);
    lemma_round_of_success(s, eager, values, gw_cln, gw_lnd);
    let t = s.succeed(eager, values, gw_cln, gw_lnd);
    if rounds == 0 {
        assert(s.step(eager).1 == Progress::Ready);
    } else {
        if s.step(eager).1 == Progress::Ready {
            assert(t == s);
        }
        lemma_success_ends(t, eager, values, gw_cln, gw_lnd, (rounds - 1) as nat);
    }
}

/// A fresh cluster is well formed, with no work out and nothing failed.
pub proof fn lemma_fresh_is_quiet<V, E>(started_at: nat)
    ensures
        Cluster::<V, E>::fresh(started_at).wf(),
        Cluster::<V, E>::fresh(started_at).quiet(),
{
}

} // verus!
