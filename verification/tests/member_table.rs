use rio_rs::cluster::storage::{active_members, is_active, Member, MemberTable};
use rio_rs::time::Timestamp;

fn table() -> MemberTable {
    let mut storage = MemberTable::new();
    for (ip, port) in [("0.0.0.0", "5000"), ("0.0.0.0", "5001"), ("0.0.0.0", "5002")] {
        storage.push(Member::new(ip.to_string(), port.to_string()));
    }
    storage
}

#[test]
fn new_member_is_inactive_and_seen_at_the_epoch() {
    let member = Member::new("1.2.3.4".to_string(), "80".to_string());
    assert_eq!(member.ip(), "1.2.3.4");
    assert_eq!(member.port(), "80");
    assert!(!member.active());
    assert_eq!(member.last_seen(), &Timestamp { secs: 0, nanos: 0 });
    assert_eq!(member.address(), "1.2.3.4:80");
}

#[test]
fn remove_keeps_the_others() {
    let mut storage = table();
    storage.remove("0.0.0.0", "5001");
    let ports: Vec<String> = storage.members().iter().map(|m| m.port().to_string()).collect();
    assert_eq!(ports, vec!["5000", "5002"]);
    storage.remove("0.0.0.0", "9999");
    assert_eq!(storage.members().len(), 2);
}

#[test]
fn set_is_active_marks_only_the_member() {
    let mut storage = table();
    storage.set_is_active("0.0.0.0", "5002", true);
    let members = storage.members();
    assert!(!members[0].active());
    assert!(members[2].active());
    assert!(members[2].last_seen().secs > 0);
    assert_eq!(members[0].last_seen().secs, 0);
    assert!(is_active(&members, "0.0.0.0", "5002"));
    assert!(!is_active(&members, "0.0.0.0", "5000"));
    let active = active_members(&members);
    assert_eq!(active.len(), 1);
    assert_eq!(active[0].address(), "0.0.0.0:5002");

    storage.set_is_active("0.0.0.0", "5002", false);
    assert!(!is_active(&storage.members(), "0.0.0.0", "5002"));
}

#[test]
fn failures_read_back_per_member() {
    let mut storage = table();
    assert!(storage.member_failures("0.0.0.0", "5000").is_empty());
    storage.notify_failure("0.0.0.0", "5000");
    storage.notify_failure("0.0.0.0", "5001");
    storage.notify_failure("0.0.0.0", "5000");
    let failures = storage.member_failures("0.0.0.0", "5000");
    assert_eq!(failures.len(), 2);
    assert!(!failures[1].is_after(&failures[0]) || failures[1] != failures[0]);
    assert_eq!(storage.member_failures("0.0.0.0", "5001").len(), 1);
    assert_eq!(storage.member_failures("0.0.0.0", "5002").len(), 0);
    // failures do not change the members' status
    assert!(active_members(&storage.members()).is_empty());
}

#[test]
fn timestamps_order_by_seconds_then_nanoseconds() {
    let a = Timestamp { secs: 5, nanos: 10 };
    let b = Timestamp { secs: 5, nanos: 11 };
    let c = Timestamp { secs: 6, nanos: 0 };
    assert!(b.is_after(&a));
    assert!(c.is_after(&b));
    assert!(!a.is_after(&a));
    assert!(!a.is_after(&c));
}
