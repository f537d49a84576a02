use rio_rs::cluster::storage::http::{failures_from_texts, failures_to_texts, HttpMember, HttpMembersStorage};
use rio_rs::cluster::storage::Member;
use rio_rs::errors::MembershipError;
use rio_rs::time::Timestamp;

#[test]
fn http_member_round_trip() {
    let mut member = Member::new("10.0.0.1".to_string(), "7000".to_string());
    member.set_active(true);
    member.set_last_seen_at(Timestamp { secs: 86400, nanos: 0 });
    let http = HttpMember::from_member(&member);
    assert_eq!(http.ip, "10.0.0.1");
    assert_eq!(http.port, "7000");
    assert!(http.active);
    assert_eq!(http.last_seen, "1970-01-02 00:00:00 UTC");
    let back = http.to_member().unwrap();
    assert_eq!(back.address(), "10.0.0.1:7000");
    assert!(back.active());
    assert_eq!(back.last_seen(), &Timestamp { secs: 86400, nanos: 0 });
}

#[test]
fn http_member_with_bad_instant() {
    let http = HttpMember { ip: "a".to_string(), port: "1".to_string(), active: false, last_seen: "soon".to_string() };
    assert!(http.to_member().is_none());
}

#[test]
fn urls_and_read_only() {
    let storage = HttpMembersStorage { remote_address: "http://host:3000".to_string() };
    assert_eq!(storage.members_url(), "http://host:3000/members");
    assert_eq!(storage.member_failures_url("0.0.0.0", "5000"), "http://host:3000/members/0.0.0.0/5000");
    assert_eq!(HttpMembersStorage::read_only("push"), MembershipError::ReadOnly("push".to_string()));
}

#[test]
fn failure_texts_round_trip() {
    let times = vec![Timestamp { secs: 1, nanos: 0 }, Timestamp { secs: 2, nanos: 250 }];
    let texts = failures_to_texts(&times);
    assert_eq!(texts[0], "1970-01-01 00:00:01 UTC");
    assert_eq!(failures_from_texts(texts).unwrap(), times);
    assert!(matches!(
        failures_from_texts(vec!["1970-01-01 00:00:01 UTC".to_string(), "nope".to_string()]),
        Err(MembershipError::Unknown(_))
    ));
}

#[test]
fn http_member_round_trip_in_a_leap_second() {
    let leap = Timestamp { secs: 1_483_228_799, nanos: 1_500_000_000 };
    let mut member = Member::new("h".to_string(), "1".to_string());
    member.set_last_seen_at(leap);
    let http = HttpMember::from_member(&member);
    assert_eq!(http.last_seen, "2016-12-31 23:59:60.500 UTC");
    let back = http.to_member().unwrap();
    assert_eq!(back.last_seen(), &leap);
}
