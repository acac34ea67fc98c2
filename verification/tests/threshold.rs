use devimint::cluster::{DevJitFed, Lifecycle, Poll, StartupError};
use devimint::threshold::{check_threshold, ConfigError};
use devimint::topology::NodeId;

#[test]
fn four_members_tolerate_one_offline() {
    assert_eq!(check_threshold(4, 1), Ok(()));
    assert!(DevJitFed::<u32, String>::new(4, 1, 0).is_ok());
}

#[test]
fn four_members_do_not_tolerate_two_offline() {
    assert_eq!(check_threshold(4, 2), Err(ConfigError { offline_nodes: 2 }));
    match DevJitFed::<u32, String>::new(4, 2, 0) {
        Ok(_) => panic!("a cluster was wired"),
        Err(e) => assert_eq!(e, ConfigError { offline_nodes: 2 }),
    }
}

#[test]
fn threshold_is_strict() {
    assert_eq!(check_threshold(3, 1), Err(ConfigError { offline_nodes: 1 }));
    assert_eq!(check_threshold(6, 2), Err(ConfigError { offline_nodes: 2 }));
    assert_eq!(check_threshold(7, 2), Ok(()));
    assert_eq!(check_threshold(0, 0), Err(ConfigError { offline_nodes: 0 }));
    assert_eq!(check_threshold(1, 0), Ok(()));
}

#[test]
fn threshold_holds_where_the_product_does_not_fit() {
    let third = usize::MAX / 3;
    assert_eq!(3 * third, usize::MAX);
    assert_eq!(
        check_threshold(usize::MAX, usize::MAX),
        Err(ConfigError { offline_nodes: usize::MAX })
    );
    assert_eq!(
        check_threshold(usize::MAX, third + 1),
        Err(ConfigError { offline_nodes: third + 1 })
    );
    assert_eq!(check_threshold(usize::MAX, third), Err(ConfigError { offline_nodes: third }));
    assert_eq!(check_threshold(usize::MAX, third - 1), Ok(()));
}

#[test]
fn config_error_names_the_offline_count() {
    assert_eq!(
        ConfigError { offline_nodes: 2 }.message(),
        "too many offline nodes (2) to reach consensus"
    );
    assert_eq!(
        ConfigError { offline_nodes: 0 }.message(),
        "too many offline nodes (0) to reach consensus"
    );
    assert_eq!(
        ConfigError { offline_nodes: 10 }.message(),
        "too many offline nodes (10) to reach consensus"
    );
    assert_eq!(
        ConfigError { offline_nodes: 9_876_543_210 }.message(),
        "too many offline nodes (9876543210) to reach consensus"
    );
    assert_eq!(
        ConfigError { offline_nodes: usize::MAX }.message(),
        format!("too many offline nodes ({}) to reach consensus", usize::MAX)
    );
}

#[test]
fn finalize_refuses_a_bad_threshold_and_starts_nothing() {
    let mut cluster = DevJitFed::<u32, String>::new(4, 1, 0).unwrap();
    match cluster.finalize(4, 2, 10) {
        Err(e) => assert_eq!(e, StartupError::Config(ConfigError { offline_nodes: 2 })),
        Ok(_) => panic!("finalization went on"),
    }
    for i in 0..13 {
        assert_eq!(cluster.lifecycle(NodeId::from_index(i).unwrap()), Lifecycle::Unstarted);
    }
    assert!(matches!(cluster.finalize(4, 1, 10), Ok(Poll::Pending(_))));
}
