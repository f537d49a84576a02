use rio_rs::cluster::storage::redis::{
    member_failures_key, member_key, member_to_string, members_key, parse_failure_times,
    parse_member, parse_members, updated_member,
};
use rio_rs::cluster::storage::Member;
use rio_rs::errors::MembershipError;
use rio_rs::time::Timestamp;

#[test]
fn keys() {
    assert_eq!(member_key("0.0.0.0", "5000"), "0.0.0.0:5000");
    assert_eq!(members_key("app:"), "app:members");
    assert_eq!(members_key(""), "members");
    assert_eq!(member_failures_key("p", "1.1.1.1", "80"), "pmember_failures;1.1.1.1;80");
}

#[test]
fn member_text_round_trip() {
    let mut member = Member::new("0.0.0.0".to_string(), "5000".to_string());
    member.set_active(true);
    let text = member_to_string(&member);
    assert_eq!(text, "0.0.0.0;5000;true;1970-01-01T00:00:00+00:00");
    let parsed = parse_member(&text).unwrap();
    assert_eq!(parsed.ip(), "0.0.0.0");
    assert_eq!(parsed.port(), "5000");
    assert!(parsed.active());
    assert_eq!(parsed.last_seen(), &Timestamp { secs: 0, nanos: 0 });
}

#[test]
fn member_text_with_fraction_and_offset() {
    let parsed = parse_member("h;1;false;2001-02-03T04:05:06.5+01:00;extra").unwrap();
    assert!(!parsed.active());
    assert_eq!(parsed.last_seen(), &Timestamp { secs: 981169506, nanos: 500_000_000 });
}

#[test]
fn bad_member_texts() {
    assert_eq!(parse_member("a;b;true").unwrap_err(), MembershipError::DeserializationError);
    assert_eq!(parse_member("a;b;yes;1970-01-01T00:00:00+00:00").unwrap_err(), MembershipError::DeserializationError);
    assert_eq!(parse_member("a;b;True;1970-01-01T00:00:00+00:00").unwrap_err(), MembershipError::DeserializationError);
    assert_eq!(parse_member("a;b;true;yesterday").unwrap_err(), MembershipError::DeserializationError);
    assert_eq!(
        parse_members(&vec!["a;b;true;1970-01-01T00:00:00+00:00".to_string(), "x".to_string()]).unwrap_err(),
        MembershipError::DeserializationError
    );
    assert_eq!(parse_members(&vec![]).unwrap().len(), 0);
}

#[test]
fn failure_times() {
    let times = parse_failure_times(&vec!["10".to_string(), "-5".to_string(), "+7".to_string()]).unwrap();
    assert_eq!(
        times,
        vec![
            Timestamp { secs: 10, nanos: 0 },
            Timestamp { secs: -5, nanos: 0 },
            Timestamp { secs: 7, nanos: 0 }
        ]
    );
    assert_eq!(parse_failure_times(&vec!["10".to_string(), "1.5".to_string()]).unwrap_err(), MembershipError::DeserializationError);
    assert_eq!(parse_failure_times(&vec!["".to_string()]).unwrap_err(), MembershipError::DeserializationError);
    assert_eq!(
        parse_failure_times(&vec!["9223372036854775807".to_string()]).unwrap_err(),
        MembershipError::DeserializationError
    );
}

#[test]
fn updating_a_stored_member() {
    let now = Timestamp { secs: 100, nanos: 0 };
    let fresh = updated_member(None, "h", "1", true, now).unwrap();
    assert!(fresh.active());
    assert_eq!(fresh.last_seen(), &now);
    let inactive = updated_member(None, "h", "1", false, now).unwrap();
    assert_eq!(inactive.last_seen(), &Timestamp { secs: 0, nanos: 0 });
    let stored = Some("h;1;true;1970-01-01T00:00:10+00:00".to_string());
    let off = updated_member(stored, "h", "1", false, now).unwrap();
    assert!(!off.active());
    assert_eq!(off.last_seen(), &Timestamp { secs: 10, nanos: 0 });
    assert_eq!(
        updated_member(Some("garbage".to_string()), "h", "1", true, now).unwrap_err(),
        MembershipError::DeserializationError
    );
}

#[test]
fn member_text_round_trip_in_a_leap_second() {
    let leap = Timestamp { secs: 1_483_228_799, nanos: 1_500_000_000 };
    let mut member = Member::new("h".to_string(), "1".to_string());
    member.set_last_seen_at(leap);
    let text = member_to_string(&member);
    assert_eq!(text, "h;1;false;2016-12-31T23:59:60.500+00:00");
    let parsed = parse_member(&text).unwrap();
    assert_eq!(parsed.last_seen(), &leap);
}
