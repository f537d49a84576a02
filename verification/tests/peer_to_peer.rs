use std::collections::HashMap;

use rio_rs::cluster::membership_protocol::peer_to_peer::{
    failures_over_threshold, health_action, sort_by_address, MemberHealthAction,
    PeerToPeerClusterConfig, PeerToPeerClusterProvider,
};
use rio_rs::cluster::storage::{Member, MemberTable};
use rio_rs::time::Timestamp;

fn storage() -> MemberTable {
    let mut storage = MemberTable::new();
    for (ip, port) in [
        ("0.0.0.0", "5000"),
        ("0.0.0.0", "5001"),
        ("0.0.0.0", "5002"),
        ("0.0.0.0", "5003"),
        ("0.0.0.0", "5004"),
        ("0.0.0.0", "5005"),
    ] {
        storage.push(Member::new(ip.to_string(), port.to_string()));
    }
    storage
}

#[test]
fn get_members_to_monitor() {
    let storage = storage();
    let items = storage.members();
    let membership = PeerToPeerClusterProvider::new(storage, PeerToPeerClusterConfig::default());

    let mut monitored_counter: HashMap<String, usize> = HashMap::new();

    for i in items.iter() {
        let members = membership.get_members_to_monitor(&i.address(), &items);
        for member in members {
            monitored_counter
                .entry(member.address())
                .and_modify(|x| *x += 1)
                .or_insert(1);
        }
    }
    assert_eq!(monitored_counter.len(), 6);
    for monitored in monitored_counter.values() {
        assert_eq!(monitored, &3);
    }
}

#[test]
fn get_members_to_monitor_few_members() {
    let mut storage = MemberTable::new();
    storage.push(Member::new("0.0.0.0".to_string(), "5000".to_string()));
    let items = storage.members();
    let membership = PeerToPeerClusterProvider::new(storage, PeerToPeerClusterConfig::default());

    let members = membership.get_members_to_monitor("0.0.0.0:5000", &items);
    assert_eq!(members.len(), 0, "{:?}", members);
}

#[test]
fn test_is_broken() {
    let mut storage = MemberTable::new();
    storage.notify_failure("0.0.0.0", "5000");
    storage.notify_failure("0.0.0.0", "5000");
    storage.notify_failure("0.0.0.0", "5001");
    let failures = storage.member_failures("0.0.0.0", "5000");

    let mut config = PeerToPeerClusterConfig::default();
    let membership = PeerToPeerClusterProvider::new(MemberTable::new(), config.clone());
    let is_broken = membership.is_broken(&failures);
    assert!(!is_broken.unwrap());

    config.num_failures_threshold = 1;
    let membership = PeerToPeerClusterProvider::new(MemberTable::new(), config.clone());
    let is_broken = membership.is_broken(&failures);
    assert!(is_broken.unwrap());

    config.interval_secs_threshold = 0;
    let membership = PeerToPeerClusterProvider::new(MemberTable::new(), config.clone());
    let is_broken = membership.is_broken(&failures);
    assert!(!is_broken.unwrap());
}

#[test]
fn monitors_wrap_around_the_list() {
    let items = storage().members();
    let membership = PeerToPeerClusterProvider::new(MemberTable::new(), PeerToPeerClusterConfig::new());
    let watched: Vec<String> = membership
        .get_members_to_monitor("0.0.0.0:5004", &items)
        .iter()
        .map(|m| m.address())
        .collect();
    assert_eq!(watched, vec!["0.0.0.0:5005", "0.0.0.0:5000", "0.0.0.0:5001"]);
}

#[test]
fn two_members_watch_each_other_twice() {
    let items = vec![
        Member::new("a".to_string(), "1".to_string()),
        Member::new("b".to_string(), "2".to_string()),
    ];
    let membership = PeerToPeerClusterProvider::new(MemberTable::new(), PeerToPeerClusterConfig::new());
    let watched: Vec<String> = membership
        .get_members_to_monitor("a:1", &items)
        .iter()
        .map(|m| m.address())
        .collect();
    assert_eq!(watched, vec!["b:2", "b:2"]);
}

#[test]
fn default_config_values() {
    let config = PeerToPeerClusterConfig::default();
    assert_eq!(config.interval_secs, 10);
    assert_eq!(config.num_failures_threshold, 3);
    assert_eq!(config.interval_secs_threshold, 60);
    assert_eq!(PeerToPeerClusterConfig::new(), config);
}

#[test]
fn failures_are_counted_strictly_after_the_cutoff() {
    let t = |secs: i64| Timestamp { secs, nanos: 0 };
    let failures = vec![t(10), t(20), t(30), t(20)];
    assert!(failures_over_threshold(&failures, t(15), 2));
    assert!(!failures_over_threshold(&failures, t(20), 1));
    assert!(failures_over_threshold(&failures, t(20), 0));
    assert!(!failures_over_threshold(&vec![], t(0), 0));
}

#[test]
fn health_actions() {
    assert_eq!(health_action(true, true), MemberHealthAction::SetInactive);
    assert_eq!(health_action(true, false), MemberHealthAction::SetInactive);
    assert_eq!(health_action(false, false), MemberHealthAction::SetActive);
    assert_eq!(health_action(false, true), MemberHealthAction::Keep);
}

#[test]
fn sorting_by_address_is_stable() {
    let mut second = Member::new("10.0.0.1".to_string(), "80".to_string());
    second.set_active(true);
    let members = vec![
        Member::new("10.0.0.2".to_string(), "80".to_string()),
        Member::new("10.0.0.1".to_string(), "80".to_string()),
        Member::new("10.0.0.1".to_string(), "443".to_string()),
        second,
    ];
    let sorted = sort_by_address(members);
    let addresses: Vec<(String, bool)> = sorted.iter().map(|m| (m.address(), m.active())).collect();
    assert_eq!(
        addresses,
        vec![
            ("10.0.0.1:443".to_string(), false),
            ("10.0.0.1:80".to_string(), false),
            ("10.0.0.1:80".to_string(), true),
            ("10.0.0.2:80".to_string(), false),
        ]
    );
}
