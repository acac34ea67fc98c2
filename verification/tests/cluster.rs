use devimint::cluster::{dev_fed, DevJitFed, Lifecycle, Poll, StartupError};
use devimint::model::Action;
use devimint::node::Node;
use devimint::threshold::ConfigError;
use devimint::topology::{NodeId, FIRST_EPOCH_BLOCKS, NODE_COUNT};

type Cluster = DevJitFed<String, String>;

fn fresh() -> Cluster {
    DevJitFed::new(4, 1, 1_000_000_000).unwrap()
}

fn all_nodes() -> Vec<NodeId> {
    (0..NODE_COUNT).map(|i| NodeId::from_index(i).unwrap()).collect()
}

/// Where `r` lies in memory, as text.
fn place(r: &String) -> String {
    format!("{:p}", r)
}

fn handle(id: NodeId) -> String {
    format!("{:?}#handle", id)
}

/// Does the outside work that `action` asks for, with success everywhere
/// but at the nodes in `failing`.
fn act(cluster: &mut Cluster, action: Action, failing: &[NodeId], log: &mut Vec<Action>) {
    log.push(action);
    match action {
        Action::Launch(id) => {
            for dep in id.dependencies() {
                assert_eq!(cluster.lifecycle(dep), Lifecycle::Ready);
            }
            let outcome = if failing.contains(&id) {
                Err(format!("{:?} broke", id))
            } else {
                Ok(handle(id))
            };
            assert!(cluster.resolve(id, outcome));
        }
        Action::Wait => panic!("nothing is in flight, and the step waits"),
        Action::ReportGatewayIds => {
            let gw_cln = format!("id-of-{}", cluster.value(NodeId::GwCln).unwrap());
            let gw_lnd = format!("id-of-{}", cluster.value(NodeId::GwLnd).unwrap());
            assert!(cluster.publish_gateway_ids(gw_cln, gw_lnd));
        }
        Action::ConfirmGateways => assert!(cluster.confirm_gateways()),
    }
}

/// Runs finalization to its end; gives the elapsed milliseconds or the
/// error, and every action on the way.
fn finalize_to_end(
    cluster: &mut Cluster,
    failing: &[NodeId],
    now: u128,
) -> (Result<u128, String>, Vec<Action>) {
    let mut log = Vec::new();
    for _ in 0..100 {
        let action = match cluster.finalize(4, 1, now).unwrap() {
            Poll::Ready(ms) => return (Ok(ms), log),
            Poll::Failed(e) => return (Err(e.clone()), log),
            Poll::Pending(action) => action,
        };
        act(cluster, action, failing, &mut log);
    }
    panic!("finalization does not end");
}

#[test]
fn wiring_starts_nothing() {
    let cluster = fresh();
    for id in all_nodes() {
        assert_eq!(cluster.lifecycle(id), Lifecycle::Unstarted);
        assert!(cluster.value(id).is_none());
        assert!(cluster.failure(id).is_none());
    }
    assert!(cluster.gateway_ids().is_none());
}

#[test]
fn many_requests_launch_the_work_once() {
    let mut cluster = fresh();
    assert!(matches!(
        cluster.get(NodeId::Bitcoind),
        Poll::Pending(Action::Launch(NodeId::Bitcoind))
    ));
    assert_eq!(cluster.lifecycle(NodeId::Bitcoind), Lifecycle::InProgress);
    for _ in 0..5 {
        assert!(matches!(cluster.get(NodeId::Bitcoind), Poll::Pending(Action::Wait)));
        assert!(matches!(cluster.bitcoind(), Poll::Pending(Action::Wait)));
    }
    assert!(cluster.resolve(NodeId::Bitcoind, Ok("daemon".to_string())));
    let first = match cluster.get(NodeId::Bitcoind) {
        Poll::Ready(v) => place(v),
        _ => panic!("not ready"),
    };
    for _ in 0..5 {
        match cluster.get(NodeId::Bitcoind) {
            Poll::Ready(v) => {
                assert_eq!(v, "daemon");
                assert_eq!(place(v), first);
            }
            _ => panic!("not ready"),
        }
    }
}

#[test]
fn many_requests_see_the_same_error() {
    let mut cluster = fresh();
    assert!(matches!(cluster.get(NodeId::Bitcoind), Poll::Pending(Action::Launch(_))));
    assert!(matches!(cluster.get(NodeId::Bitcoind), Poll::Pending(Action::Wait)));
    assert!(cluster.resolve(NodeId::Bitcoind, Err("boom".to_string())));
    let first = match cluster.get(NodeId::Bitcoind) {
        Poll::Failed(e) => place(e),
        _ => panic!("not failed"),
    };
    for _ in 0..5 {
        match cluster.get(NodeId::Bitcoind) {
            Poll::Failed(e) => {
                assert_eq!(e, "boom");
                assert_eq!(place(e), first);
            }
            _ => panic!("not failed"),
        }
    }
    assert_eq!(cluster.lifecycle(NodeId::Bitcoind), Lifecycle::Failed);
}

#[test]
fn an_outcome_is_taken_only_for_work_that_is_out() {
    let mut cluster = fresh();
    assert!(!cluster.resolve(NodeId::Bitcoind, Ok("early".to_string())));
    assert_eq!(cluster.lifecycle(NodeId::Bitcoind), Lifecycle::Unstarted);
    assert!(matches!(cluster.get(NodeId::Cln), Poll::Pending(Action::Launch(NodeId::Bitcoind))));
    assert!(!cluster.resolve(NodeId::Cln, Ok("early".to_string())));
    assert_eq!(cluster.lifecycle(NodeId::Cln), Lifecycle::InProgress);
    assert!(cluster.resolve(NodeId::Bitcoind, Ok("first".to_string())));
    assert!(!cluster.resolve(NodeId::Bitcoind, Ok("second".to_string())));
    assert!(!cluster.resolve(NodeId::Bitcoind, Err("late".to_string())));
    assert_eq!(cluster.value(NodeId::Bitcoind).unwrap(), "first");
}

#[test]
fn a_failure_reaches_every_dependent_that_asks() {
    let mut cluster = fresh();
    assert!(matches!(
        cluster.gw_cln_registered(),
        Poll::Pending(Action::Launch(NodeId::Bitcoind))
    ));
    assert!(cluster.resolve(NodeId::Bitcoind, Err("no daemon".to_string())));
    match cluster.gw_cln_registered() {
        Poll::Failed(e) => assert_eq!(e, "no daemon"),
        _ => panic!("not failed"),
    }
    let root = cluster.failure(NodeId::Bitcoind).unwrap();
    for id in [NodeId::Cln, NodeId::GwCln, NodeId::GwClnRegistered] {
        assert_eq!(cluster.lifecycle(id), Lifecycle::Failed);
        assert!(std::ptr::eq(cluster.failure(id).unwrap(), root));
    }
    // The producer of the marker stopped at its first request.
    assert_eq!(cluster.lifecycle(NodeId::Fed), Lifecycle::Unstarted);
    assert_eq!(cluster.lifecycle(NodeId::Lnd), Lifecycle::Unstarted);
}

#[test]
fn a_failed_daemon_fails_every_node() {
    let mut cluster = fresh();
    let (res, log) = finalize_to_end(&mut cluster, &[NodeId::Bitcoind], 2_000_000_000);
    assert_eq!(res, Err("Bitcoind broke".to_string()));
    assert_eq!(log, vec![Action::Launch(NodeId::Bitcoind)]);
    for id in all_nodes() {
        match cluster.get(id) {
            Poll::Failed(e) => assert_eq!(e, "Bitcoind broke"),
            _ => panic!("{:?} has not failed", id),
        }
        assert_eq!(cluster.lifecycle(id), Lifecycle::Failed);
    }
}

#[test]
fn a_node_that_nothing_asks_for_stays_unstarted() {
    let mut cluster = fresh();
    let mut log = Vec::new();
    for _ in 0..10 {
        match cluster.electrs() {
            Poll::Pending(action) => act(&mut cluster, action, &[], &mut log),
            Poll::Ready(v) => {
                assert_eq!(*v, handle(NodeId::Electrs));
                break;
            }
            Poll::Failed(_) => panic!("failed"),
        }
    }
    assert_eq!(log, vec![Action::Launch(NodeId::Bitcoind), Action::Launch(NodeId::Electrs)]);
    for id in all_nodes() {
        let expected = if id == NodeId::Bitcoind || id == NodeId::Electrs {
            Lifecycle::Ready
        } else {
            Lifecycle::Unstarted
        };
        assert_eq!(cluster.lifecycle(id), expected);
    }
}

#[test]
fn a_producer_asks_for_its_dependencies_in_order() {
    let mut cluster = fresh();
    let mut log = Vec::new();
    for _ in 0..10 {
        match cluster.get(NodeId::ChannelOpened) {
            Poll::Pending(action) => act(&mut cluster, action, &[], &mut log),
            Poll::Ready(_) => break,
            Poll::Failed(_) => panic!("failed"),
        }
    }
    assert_eq!(
        log,
        vec![
            Action::Launch(NodeId::Bitcoind),
            Action::Launch(NodeId::Lnd),
            Action::Launch(NodeId::Cln),
            Action::Launch(NodeId::ChannelOpened),
        ]
    );
}

#[test]
fn a_later_dependency_is_not_asked_for_after_a_failure() {
    let mut cluster = fresh();
    let mut log = Vec::new();
    for _ in 0..10 {
        match cluster.get(NodeId::ChannelOpened) {
            Poll::Pending(action) => act(&mut cluster, action, &[NodeId::Lnd], &mut log),
            Poll::Ready(_) => panic!("ready"),
            Poll::Failed(e) => {
                assert_eq!(e, "Lnd broke");
                break;
            }
        }
    }
    assert_eq!(log, vec![Action::Launch(NodeId::Bitcoind), Action::Launch(NodeId::Lnd)]);
    assert_eq!(cluster.lifecycle(NodeId::Cln), Lifecycle::Unstarted);
    assert_eq!(cluster.lifecycle(NodeId::ChannelOpened), Lifecycle::Failed);
    assert_eq!(cluster.lifecycle(NodeId::Bitcoind), Lifecycle::Ready);
}

#[test]
fn finalize_starts_every_node_once_in_its_order() {
    let mut cluster = fresh();
    let (res, log) = finalize_to_end(&mut cluster, &[], 3_500_999_999);
    assert_eq!(res, Ok(2500));
    // One round for each node and each record, and no more.
    assert_eq!(log.len(), NODE_COUNT + 2);
    assert_eq!(
        log,
        vec![
            Action::Launch(NodeId::Bitcoind),
            Action::Launch(NodeId::Cln),
            Action::Launch(NodeId::GwCln),
            Action::Launch(NodeId::Lnd),
            Action::Launch(NodeId::GwLnd),
            Action::ReportGatewayIds,
            Action::Launch(NodeId::Fed),
            Action::Launch(NodeId::FedClientJoined),
            Action::Launch(NodeId::GwClnRegistered),
            Action::Launch(NodeId::GwLndRegistered),
            Action::ConfirmGateways,
            Action::Launch(NodeId::ChannelOpened),
            Action::Launch(NodeId::Electrs),
            Action::Launch(NodeId::Esplora),
            Action::Launch(NodeId::FedEpochGenerated),
        ]
    );
    for id in all_nodes() {
        assert_eq!(cluster.lifecycle(id), Lifecycle::Ready);
        assert_eq!(*cluster.value(id).unwrap(), handle(id));
        assert_eq!(log.iter().filter(|a| **a == Action::Launch(id)).count(), 1);
    }
    let (gw_cln, gw_lnd) = cluster.gateway_ids().unwrap();
    assert_eq!(gw_cln, "id-of-GwCln#handle");
    assert_eq!(gw_lnd, "id-of-GwLnd#handle");
}

#[test]
fn finalize_twice_does_no_more_work() {
    let mut cluster = fresh();
    let (first, _) = finalize_to_end(&mut cluster, &[], 1_000_000_000);
    assert_eq!(first, Ok(0));
    let (second, log) = finalize_to_end(&mut cluster, &[], 1_007_000_000);
    assert_eq!(second, Ok(7));
    assert!(log.is_empty());
    let before = place(cluster.value(NodeId::Fed).unwrap());
    match cluster.fed() {
        Poll::Ready(v) => assert_eq!(place(v), before),
        _ => panic!("not ready"),
    }
    match cluster.client_gw_registered() {
        Poll::Ready(v) => assert_eq!(place(v), before),
        _ => panic!("not ready"),
    }
}

#[test]
fn finalize_reports_the_first_failure_of_its_walk() {
    // The channel comes before the indexers in the walk.
    let mut cluster = fresh();
    let (res, log) =
        finalize_to_end(&mut cluster, &[NodeId::Electrs, NodeId::ChannelOpened], 2_000_000_000);
    assert_eq!(res, Err("ChannelOpened broke".to_string()));
    assert!(!log.contains(&Action::Launch(NodeId::Electrs)));
    assert_eq!(cluster.lifecycle(NodeId::Electrs), Lifecycle::Unstarted);
    assert_eq!(cluster.lifecycle(NodeId::FedEpochGenerated), Lifecycle::Unstarted);
    // Asked again, it gives the same error and starts nothing.
    let (again, log) = finalize_to_end(&mut cluster, &[], 2_000_000_000);
    assert_eq!(again, Err("ChannelOpened broke".to_string()));
    assert!(log.is_empty());
}

#[test]
fn finalize_fails_when_the_clock_has_gone_back() {
    let mut cluster = fresh();
    let (res, _) = finalize_to_end(&mut cluster, &[], 1_000_000_000);
    assert_eq!(res, Ok(0));
    assert!(matches!(cluster.finalize(4, 1, 999_999_999), Err(StartupError::ClockWentBack)));
    assert_eq!(cluster.elapsed_ms(999_999_999), None);
    assert_eq!(cluster.elapsed_ms(1_000_999_999), Some(0));
    assert_eq!(cluster.elapsed_ms(1_001_000_000), Some(1));
}

#[test]
fn finalize_waits_for_work_that_is_out() {
    let mut cluster = fresh();
    assert!(matches!(
        cluster.finalize(4, 1, 0),
        Ok(Poll::Pending(Action::Launch(NodeId::Bitcoind)))
    ));
    assert!(matches!(cluster.finalize(4, 1, 0), Ok(Poll::Pending(Action::Wait))));
    assert!(matches!(cluster.electrs(), Poll::Pending(Action::Wait)));
    assert!(cluster.resolve(NodeId::Bitcoind, Ok(handle(NodeId::Bitcoind))));
    assert!(matches!(cluster.electrs(), Poll::Pending(Action::Launch(NodeId::Electrs))));
    assert!(matches!(
        cluster.finalize(4, 1, 0),
        Ok(Poll::Pending(Action::Launch(NodeId::Cln)))
    ));
}

#[test]
fn gateway_ids_go_on_record_once_and_not_early() {
    let mut cluster = fresh();
    assert!(!cluster.publish_gateway_ids("a".to_string(), "b".to_string()));
    assert!(cluster.gateway_ids().is_none());
    let mut log = Vec::new();
    loop {
        match cluster.finalize(4, 1, 0).unwrap() {
            Poll::Pending(Action::ReportGatewayIds) => break,
            Poll::Pending(action) => act(&mut cluster, action, &[], &mut log),
            _ => panic!("the walk passed the record"),
        }
    }
    assert_eq!(cluster.lifecycle(NodeId::GwCln), Lifecycle::Ready);
    assert_eq!(cluster.lifecycle(NodeId::GwLnd), Lifecycle::Ready);
    assert!(cluster.publish_gateway_ids("a".to_string(), "b".to_string()));
    assert!(!cluster.publish_gateway_ids("c".to_string(), "d".to_string()));
    let (gw_cln, gw_lnd) = cluster.gateway_ids().unwrap();
    assert_eq!((gw_cln.as_str(), gw_lnd.as_str()), ("a", "b"));
}

#[test]
fn gateways_are_confirmed_only_after_the_client_has_joined() {
    let mut cluster = fresh();
    assert!(!cluster.confirm_gateways());
    let mut log = Vec::new();
    loop {
        match cluster.client_gw_registered() {
            Poll::Pending(Action::ConfirmGateways) => break,
            Poll::Pending(action) => act(&mut cluster, action, &[], &mut log),
            _ => panic!("the walk passed the confirmation"),
        }
    }
    assert_eq!(
        log,
        vec![
            Action::Launch(NodeId::Bitcoind),
            Action::Launch(NodeId::Fed),
            Action::Launch(NodeId::FedClientJoined),
        ]
    );
    assert!(cluster.confirm_gateways());
    match cluster.client_gw_registered() {
        Poll::Ready(v) => assert_eq!(*v, handle(NodeId::Fed)),
        _ => panic!("not ready"),
    }
    match cluster.client_registered() {
        Poll::Ready(v) => assert_eq!(*v, handle(NodeId::Fed)),
        _ => panic!("not ready"),
    }
}

#[test]
fn the_client_that_sees_its_gateways_starts_no_gateway() {
    let mut cluster = fresh();
    let mut log = Vec::new();
    for _ in 0..20 {
        match cluster.client_gw_registered() {
            Poll::Pending(action) => act(&mut cluster, action, &[], &mut log),
            Poll::Ready(v) => {
                assert_eq!(*v, handle(NodeId::Fed));
                break;
            }
            Poll::Failed(_) => panic!("failed"),
        }
    }
    assert_eq!(
        log,
        vec![
            Action::Launch(NodeId::Bitcoind),
            Action::Launch(NodeId::Fed),
            Action::Launch(NodeId::FedClientJoined),
            Action::ConfirmGateways,
        ]
    );
    for id in all_nodes() {
        let expected = match id {
            NodeId::Bitcoind | NodeId::Fed | NodeId::FedClientJoined => Lifecycle::Ready,
            _ => Lifecycle::Unstarted,
        };
        assert_eq!(cluster.lifecycle(id), expected);
    }
}

#[test]
fn the_client_that_sees_its_gateways_fails_with_the_join() {
    let mut cluster = fresh();
    let mut log = Vec::new();
    for _ in 0..20 {
        match cluster.client_gw_registered() {
            Poll::Pending(action) => {
                act(&mut cluster, action, &[NodeId::FedClientJoined], &mut log)
            }
            Poll::Ready(_) => panic!("ready"),
            Poll::Failed(e) => {
                assert_eq!(e, "FedClientJoined broke");
                break;
            }
        }
    }
    assert!(!log.contains(&Action::ConfirmGateways));
    assert!(!cluster.confirm_gateways());
    assert_eq!(cluster.lifecycle(NodeId::Fed), Lifecycle::Ready);
}

#[test]
fn a_registered_gateway_is_the_gateway_after_its_marker() {
    let mut cluster = fresh();
    let mut log = Vec::new();
    for _ in 0..10 {
        match cluster.gw_lnd_registered() {
            Poll::Pending(action) => act(&mut cluster, action, &[], &mut log),
            Poll::Ready(v) => {
                assert_eq!(*v, handle(NodeId::GwLnd));
                break;
            }
            Poll::Failed(_) => panic!("failed"),
        }
    }
    assert_eq!(
        log,
        vec![
            Action::Launch(NodeId::Bitcoind),
            Action::Launch(NodeId::Lnd),
            Action::Launch(NodeId::GwLnd),
            Action::Launch(NodeId::Fed),
            Action::Launch(NodeId::GwLndRegistered),
        ]
    );
    match cluster.gw_cln() {
        Poll::Pending(Action::Launch(id)) => assert_eq!(id, NodeId::Cln),
        _ => panic!("the first gateway was asked for before"),
    }
}

#[test]
fn each_accessor_asks_for_its_own_node() {
    let mut cluster = fresh();
    assert!(matches!(cluster.bitcoind(), Poll::Pending(Action::Launch(NodeId::Bitcoind))));
    assert!(cluster.resolve(NodeId::Bitcoind, Ok(handle(NodeId::Bitcoind))));
    assert!(matches!(cluster.cln(), Poll::Pending(Action::Launch(NodeId::Cln))));
    assert!(matches!(cluster.lnd(), Poll::Pending(Action::Launch(NodeId::Lnd))));
    assert!(matches!(cluster.electrs(), Poll::Pending(Action::Launch(NodeId::Electrs))));
    assert!(matches!(cluster.esplora(), Poll::Pending(Action::Launch(NodeId::Esplora))));
    assert!(matches!(cluster.fed(), Poll::Pending(Action::Launch(NodeId::Fed))));
    assert!(matches!(cluster.gw_cln(), Poll::Pending(Action::Wait)));
    assert!(matches!(cluster.gw_lnd(), Poll::Pending(Action::Wait)));
    assert!(cluster.resolve(NodeId::Cln, Ok(handle(NodeId::Cln))));
    assert!(cluster.resolve(NodeId::Lnd, Ok(handle(NodeId::Lnd))));
    assert!(matches!(cluster.gw_cln(), Poll::Pending(Action::Launch(NodeId::GwCln))));
    assert!(matches!(cluster.gw_lnd(), Poll::Pending(Action::Launch(NodeId::GwLnd))));
    match cluster.bitcoind() {
        Poll::Ready(v) => assert_eq!(*v, handle(NodeId::Bitcoind)),
        _ => panic!("not ready"),
    }
    match cluster.cln() {
        Poll::Ready(v) => assert_eq!(*v, handle(NodeId::Cln)),
        _ => panic!("not ready"),
    }
}

#[test]
fn eager_start_hands_out_all_work_that_can_run() {
    let mut cluster = fresh();
    assert!(matches!(
        dev_fed(&mut cluster, 4, 1, 0),
        Ok(Poll::Pending(Action::Launch(NodeId::Bitcoind)))
    ));
    assert!(matches!(dev_fed(&mut cluster, 4, 1, 0), Ok(Poll::Pending(Action::Wait))));
    assert!(cluster.resolve(NodeId::Bitcoind, Ok(handle(NodeId::Bitcoind))));
    for id in [NodeId::Cln, NodeId::Lnd, NodeId::Electrs, NodeId::Esplora, NodeId::Fed] {
        match dev_fed(&mut cluster, 4, 1, 0) {
            Ok(Poll::Pending(Action::Launch(launched))) => assert_eq!(launched, id),
            _ => panic!("{:?} did not go out", id),
        }
    }
    assert!(matches!(dev_fed(&mut cluster, 4, 1, 0), Ok(Poll::Pending(Action::Wait))));
    assert!(cluster.resolve(NodeId::Fed, Ok(handle(NodeId::Fed))));
    for id in [NodeId::FedEpochGenerated, NodeId::FedClientJoined] {
        match dev_fed(&mut cluster, 4, 1, 0) {
            Ok(Poll::Pending(Action::Launch(launched))) => assert_eq!(launched, id),
            _ => panic!("{:?} did not go out", id),
        }
    }
    // With nothing left to hand out, the step has walked as finalization
    // does, up to the first gateway, whose payment node is not ready.
    assert_eq!(cluster.lifecycle(NodeId::GwCln), Lifecycle::InProgress);
    assert_eq!(cluster.lifecycle(NodeId::GwLnd), Lifecycle::Unstarted);
    assert_eq!(cluster.lifecycle(NodeId::ChannelOpened), Lifecycle::Unstarted);
}

#[test]
fn eager_start_hands_the_deployment_over_whole() {
    let mut cluster = fresh();
    let mut log = Vec::new();
    for _ in 0..100 {
        let action = match dev_fed(&mut cluster, 4, 1, 1_042_000_000).unwrap() {
            Poll::Ready((fed, ms)) => {
                assert_eq!(ms, 42);
                assert_eq!(*fed.bitcoind, handle(NodeId::Bitcoind));
                assert_eq!(*fed.cln, handle(NodeId::Cln));
                assert_eq!(*fed.lnd, handle(NodeId::Lnd));
                assert_eq!(*fed.fed, handle(NodeId::Fed));
                assert_eq!(*fed.gw_cln, handle(NodeId::GwCln));
                assert_eq!(*fed.gw_lnd, handle(NodeId::GwLnd));
                assert_eq!(*fed.electrs, handle(NodeId::Electrs));
                assert_eq!(*fed.esplora, handle(NodeId::Esplora));
                break;
            }
            Poll::Failed(e) => panic!("failed: {}", e),
            Poll::Pending(action) => action,
        };
        act(&mut cluster, action, &[], &mut log);
    }
    assert_eq!(log.len(), 15);
    for id in all_nodes() {
        assert_eq!(cluster.lifecycle(id), Lifecycle::Ready);
        assert_eq!(log.iter().filter(|a| **a == Action::Launch(id)).count(), 1);
    }
    assert!(cluster.gateway_ids().is_some());
}

#[test]
fn eager_start_ends_at_the_first_failure() {
    let mut cluster = fresh();
    let mut log = Vec::new();
    let mut error = None;
    for _ in 0..100 {
        let action = match dev_fed(&mut cluster, 4, 1, 2_000_000_000).unwrap() {
            Poll::Ready(_) => panic!("started"),
            Poll::Failed(e) => {
                error = Some(e.clone());
                break;
            }
            Poll::Pending(action) => action,
        };
        act(&mut cluster, action, &[NodeId::Lnd], &mut log);
    }
    assert_eq!(error, Some("Lnd broke".to_string()));
    assert_eq!(
        log,
        vec![
            Action::Launch(NodeId::Bitcoind),
            Action::Launch(NodeId::Cln),
            Action::Launch(NodeId::Lnd),
        ]
    );
    assert_eq!(cluster.lifecycle(NodeId::Electrs), Lifecycle::Unstarted);
}

#[test]
fn eager_start_refuses_a_bad_threshold() {
    let mut cluster = fresh();
    match dev_fed(&mut cluster, 4, 2, 0) {
        Err(e) => assert_eq!(e, StartupError::Config(ConfigError { offline_nodes: 2 })),
        Ok(_) => panic!("the start went on"),
    }
    assert_eq!(cluster.lifecycle(NodeId::Bitcoind), Lifecycle::Unstarted);
}

#[test]
fn the_numbering_puts_dependencies_first() {
    for (i, id) in all_nodes().into_iter().enumerate() {
        assert_eq!(id.index(), i);
        for dep in id.dependencies() {
            assert!(dep.index() < i);
        }
    }
    assert_eq!(NodeId::from_index(NODE_COUNT), None);
    assert_eq!(NODE_COUNT, 13);
    assert_eq!(FIRST_EPOCH_BLOCKS, 10);
    assert_eq!(NodeId::GwClnRegistered.dependencies(), vec![NodeId::GwCln, NodeId::Fed]);
    assert_eq!(NodeId::GwLndRegistered.dependencies(), vec![NodeId::GwLnd, NodeId::Fed]);
    assert_eq!(
        NodeId::ChannelOpened.dependencies(),
        vec![NodeId::Bitcoind, NodeId::Lnd, NodeId::Cln]
    );
    assert!(NodeId::Bitcoind.dependencies().is_empty());
}

#[test]
fn a_node_gives_its_outcome_once_resolved() {
    let unstarted: Node<u32, String> = Node::new();
    assert!(unstarted.outcome().is_none());
    let ready: Node<u32, String> = Node::Ready(7);
    assert_eq!(ready.outcome(), Some(Ok(&7)));
    let failed: Node<u32, String> = Node::Failed("no".to_string());
    assert_eq!(failed.outcome(), Some(Err(&"no".to_string())));
}
