use rio_rs::cluster::membership_protocol::peer_to_peer::{PeerToPeerClusterConfig, PeerToPeerClusterProvider};
use rio_rs::cluster::storage::MemberTable;
use rio_rs::time::{is_representable, Timestamp};

fn at(secs: i64, nanos: u32) -> Timestamp {
    Timestamp { secs, nanos }
}

#[test]
fn representable_instants() {
    assert!(is_representable(&at(0, 0)));
    assert!(is_representable(&at(1_700_000_000, 999_999_999)));
    assert!(!is_representable(&at(0, 1_000_000_000)));
    // a leap second may carry up to two seconds of nanoseconds
    assert!(is_representable(&at(59, 1_500_000_000)));
    assert!(!is_representable(&at(0, 1_500_000_000)));
    assert!(is_representable(&at(8_210_266_876_799, 0)));
    assert!(!is_representable(&at(8_210_266_876_800, 0)));
    assert!(is_representable(&at(-8_334_601_228_800, 0)));
    assert!(!is_representable(&at(-8_334_601_228_801, 0)));
}

#[test]
fn broken_counts_failures_after_now_minus_the_threshold() {
    let failures = vec![at(940, 0), at(941, 0), at(950, 0), at(999, 0)];
    let mut config = PeerToPeerClusterConfig::default();
    config.interval_secs_threshold = 60;
    config.num_failures_threshold = 2;
    let membership = PeerToPeerClusterProvider::new(MemberTable::new(), config.clone());
    // the cutoff is 940: the failure at 940 does not count, the other three do
    assert_eq!(membership.is_broken_at(at(1000, 0), &failures), Some(true));

    config.num_failures_threshold = 3;
    let membership = PeerToPeerClusterProvider::new(MemberTable::new(), config.clone());
    assert_eq!(membership.is_broken_at(at(1000, 0), &failures), Some(false));

    // the cutoff keeps the nanoseconds of now
    let close = vec![at(940, 400), at(950, 0)];
    config.num_failures_threshold = 1;
    let membership = PeerToPeerClusterProvider::new(MemberTable::new(), config.clone());
    assert_eq!(membership.is_broken_at(at(1000, 300), &close), Some(true));
    assert_eq!(membership.is_broken_at(at(1000, 500), &close), Some(false));

    config.interval_secs_threshold = 0;
    let membership = PeerToPeerClusterProvider::new(MemberTable::new(), config.clone());
    assert_eq!(membership.is_broken_at(at(1000, 0), &failures), Some(false));
}

#[test]
fn broken_is_none_when_the_cutoff_cannot_be_held() {
    let mut config = PeerToPeerClusterConfig::default();
    config.interval_secs_threshold = 20_000_000_000_000;
    config.num_failures_threshold = 0;
    let membership = PeerToPeerClusterProvider::new(MemberTable::new(), config);
    assert_eq!(membership.is_broken_at(at(0, 0), &vec![at(0, 0)]), None);

    let mut config = PeerToPeerClusterConfig::default();
    config.interval_secs_threshold = 10_000_000_000_000_000;
    let membership = PeerToPeerClusterProvider::new(MemberTable::new(), config);
    assert_eq!(membership.is_broken_at(at(1_700_000_000, 0), &vec![]), None);
    assert_eq!(membership.is_broken(&vec![]), None);
}
