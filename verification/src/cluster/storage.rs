//! Members of the cluster and the in-memory record of their state.

use vstd::prelude::*;

use crate::seq_keep::{keep, lemma_keep_members, lemma_keep_take};
use crate::text::{join3, same_text};
use crate::time::{representable, unix_epoch, utc_now, Timestamp};

pub mod http;
pub mod redis;

verus! {

/// What a member is: its address parts, its status and when it was last seen.
pub struct MemberView {
    pub ip: Seq<char>,
    pub port: Seq<char>,
    pub active: bool,
    pub last_seen: Timestamp,
}

/// The address of a server: `ip:port`.
pub open spec fn address_of(ip: Seq<char>, port: Seq<char>) -> Seq<char> {
    ip + ":"@ + port
}

/// The member is the server at `ip` and `port`.
pub open spec fn is_at(m: MemberView, ip: Seq<char>, port: Seq<char>) -> bool {
    m.ip == ip && m.port == port
}

/// Represents a running server.
#[derive(Clone, Debug)]
pub struct Member {
    ip: String,
    port: String,
    active: bool,
    last_seen: Timestamp,
}

impl View for Member {
    type V = MemberView;

    closed spec fn view(&self) -> MemberView {
        MemberView { ip: self.ip@, port: self.port@, active: self.active, last_seen: self.last_seen }
    }
}

/// The views of a sequence of members.
pub open spec fn member_views(s: Seq<Member>) -> Seq<MemberView> {
    Seq::new(s.len(), |i: int| s[i]@)
}

impl Member {
    /// A new member at `ip` and `port`: inactive, last seen at the epoch.
    pub fn new(ip: String, port: String) -> (r: Member)
        ensures
            r@ == (MemberView { ip: ip@, port: port@, active: false, last_seen: Timestamp { secs: 0, nanos: 0 } }),
            representable(r@.last_seen),
    {
        Member { ip, port, active: false, last_seen: unix_epoch() }
    }

    pub fn ip(&self) -> (r: &str)
        ensures
            r@ == self@.ip,
    {
        self.ip.as_str()
    }

    pub fn port(&self) -> (r: &str)
        ensures
            r@ == self@.port,
    {
        self.port.as_str()
    }

    pub fn active(&self) -> (r: bool)
        ensures
            r == self@.active,
    {
        self.active
    }

    pub fn set_active(&mut self, active: bool)
        ensures
            final(self)@ == (MemberView { active, ..old(self)@ }),
    {
        self.active = active;
    }

    pub fn last_seen(&self) -> (r: &Timestamp)
        ensures
            *r == self@.last_seen,
    {
        &self.last_seen
    }

    /// Records that the member was seen at `t`.
    pub fn set_last_seen_at(&mut self, t: Timestamp)
        requires
            representable(t),
        ensures
            final(self)@ == (MemberView { last_seen: t, ..old(self)@ }),
    {
        self.last_seen = t;
    }

    /// Records that the member was seen now (which instant is not stated; it
    /// is representable, not before the epoch and not a leap second).
    pub fn set_last_seen(&mut self)
        ensures
            final(self)@.ip == old(self)@.ip,
            final(self)@.port == old(self)@.port,
            final(self)@.active == old(self)@.active,
            representable(final(self)@.last_seen),
            final(self)@.last_seen.secs >= 0,
            final(self)@.last_seen.nanos < 1_000_000_000,
    {
        self.last_seen = utc_now();
    }

    /// The member's address, `ip:port`.
    pub fn address(&self) -> (r: String)
        ensures
            r@ == address_of(self@.ip, self@.port),
    {
        join3(self.ip.as_str(), ":", self.port.as_str())
    }

    /// A copy of the member.
    pub fn duplicate(&self) -> (r: Member)
        ensures
            r@ == self@,
    {
        Member { ip: self.ip.clone(), port: self.port.clone(), active: self.active, last_seen: self.last_seen }
    }

    /// Whether this member is the server at `ip` and `port`.
    pub fn is_at(&self, ip: &str, port: &str) -> (r: bool)
        ensures
            r == is_at(self@, ip@, port@),
    {
        same_text(self.ip.as_str(), ip) && same_text(self.port.as_str(), port)
    }
}

/// Members that are active.
pub open spec fn is_active_member() -> spec_fn(MemberView) -> bool {
    |m: MemberView| m.active
}

/// Members that are not the server at `ip` and `port`.
pub open spec fn not_at(ip: Seq<char>, port: Seq<char>) -> spec_fn(MemberView) -> bool {
    |m: MemberView| !is_at(m, ip, port)
}

/// A member is the server at `ip` and `port` exactly when it has that ip
/// and that port: a member that differs in either is another server.
pub proof fn law_server_is_its_ip_and_port(m: MemberView, ip: Seq<char>, port: Seq<char>)
    ensures
        is_at(m, ip, port) <==> (m.ip == ip && m.port == port),
        m.ip != ip ==> !is_at(m, ip, port),
        m.port != port ==> !is_at(m, ip, port),
{
}

/// Removing the server at `ip` and `port` keeps every member with another
/// ip or another port, and no member with both that ip and that port.
pub proof fn law_remove_keeps_other_servers(s: Seq<MemberView>, ip: Seq<char>, port: Seq<char>)
    ensures
        forall|m: MemberView| s.contains(m) && (m.ip != ip || m.port != port) ==> #[trigger] keep(s, not_at(ip, port)).contains(m),
        forall|m: MemberView| #[trigger] keep(s, not_at(ip, port)).contains(m) ==> s.contains(m) && !(m.ip == ip && m.port == port),
{
    lemma_keep_members(s, not_at(ip, port));
    assert forall|m: MemberView| #[trigger] keep(s, not_at(ip, port)).contains(m) implies s.contains(m) && !(m.ip == ip && m.port == port) by {
        let i = choose|i: int| 0 <= i < keep(s, not_at(ip, port)).len() && keep(s, not_at(ip, port))[i] == m;
        assert(not_at(ip, port)(keep(s, not_at(ip, port))[i]));
    }
}

/// The active members are every member whose status is active, whatever
/// else it holds (when it was last seen included), and no other.
pub proof fn law_active_members_are_the_active_ones(s: Seq<MemberView>)
    ensures
        forall|m: MemberView| s.contains(m) && m.active ==> #[trigger] keep(s, is_active_member()).contains(m),
        forall|m: MemberView| #[trigger] keep(s, is_active_member()).contains(m) ==> s.contains(m) && m.active,
{
    lemma_keep_members(s, is_active_member());
    assert forall|m: MemberView| #[trigger] keep(s, is_active_member()).contains(m) implies s.contains(m) && m.active by {
        let i = choose|i: int| 0 <= i < keep(s, is_active_member()).len() && keep(s, is_active_member())[i] == m;
        assert(is_active_member()(keep(s, is_active_member())[i]));
    }
}

/// The server at `ip` and `port` is an active member exactly when some
/// member has that ip, that port and an active status.
pub proof fn law_is_active_asks_that_server(s: Seq<MemberView>, ip: Seq<char>, port: Seq<char>)
    ensures
        has_active(s, ip, port) <==> exists|i: int| 0 <= i < s.len() && (#[trigger] s[i]).active && s[i].ip == ip && s[i].port == port,
{
}

/// Some active member is the server at `ip` and `port`.
pub open spec fn has_active(s: Seq<MemberView>, ip: Seq<char>, port: Seq<char>) -> bool {
    exists|i: int| 0 <= i < s.len() && (#[trigger] s[i]).active && is_at(s[i], ip, port)
}

/// Copies of the members, in order.
pub fn copy_members(members: &Vec<Member>) -> (r: Vec<Member>)
    ensures
        member_views(r@) == member_views(members@),
{
    let mut r: Vec<Member> = Vec::new();
    let n = members.len();
    let mut i: usize = 0;
    while i < n
        invariant
            n == members@.len(),
            i <= n,
            r@.len() == i,
            forall|t: int| 0 <= t < i ==> (#[trigger] r@[t])@ == members@[t]@,
        decreases n - i,
    {
        r.push(members[i].duplicate());
        i = i + 1;
    }
    assert(member_views(r@) =~= member_views(members@));
    r
}

/// The active members when `active_only`, else the members that are not
/// the server at `ip` and `port`; in their order.
fn select_members(members: &Vec<Member>, ip: &str, port: &str, active_only: bool) -> (r: Vec<Member>)
    ensures
        member_views(r@) == if active_only {
            keep(member_views(members@), is_active_member())
        } else {
            keep(member_views(members@), not_at(ip@, port@))
        },
{
    let ghost p = if active_only { is_active_member() } else { not_at(ip@, port@) };
    let ghost all = member_views(members@);
    let mut r: Vec<Member> = Vec::new();
    let n = members.len();
    let mut i: usize = 0;
    while i < n
        invariant
            n == members@.len(),
            all == member_views(members@),
            p == (if active_only { is_active_member() } else { not_at(ip@, port@) }),
            i <= n,
            member_views(r@) == keep(all.take(i as int), p),
        decreases n - i,
    {
        proof {
            lemma_keep_take(all, p, i as int);
        }
        let m = &members[i];
        let take = if active_only { m.active() } else { !m.is_at(ip, port) };
        if take {
            let ghost before = r@;
            r.push(m.duplicate());
            assert(member_views(r@) =~= member_views(before).push(all[i as int]));
        }
        i = i + 1;
    }
    assert(all.take(n as int) =~= all);
    r
}

/// List of active members only
pub fn active_members(members: &Vec<Member>) -> (r: Vec<Member>)
    ensures
        member_views(r@) == keep(member_views(members@), is_active_member()),
{
    select_members(members, "", "", true)
}

/// Tests whether the server at `ip` and `port` is an active member.
pub fn is_active(members: &Vec<Member>, ip: &str, port: &str) -> (r: bool)
    ensures
        r == has_active(member_views(members@), ip@, port@),
{
    let n = members.len();
    let mut i: usize = 0;
    while i < n
        invariant
            n == members@.len(),
            i <= n,
            forall|t: int| 0 <= t < i ==> !((#[trigger] members@[t])@.active && is_at(members@[t]@, ip@, port@)),
        decreases n - i,
    {
        if members[i].active() && members[i].is_at(ip, port) {
            assert(member_views(members@)[i as int] == members@[i as int]@);
            return true;
        }
        i = i + 1;
    }
    assert forall|t: int| 0 <= t < member_views(members@).len() implies !((#[trigger] member_views(members@)[t]).active && is_at(member_views(members@)[t], ip@, port@)) by {
        assert(member_views(members@)[t] == members@[t]@);
    }
    false
}

/// A recorded failure of a member: where, and when.
pub struct FailureView {
    pub ip: Seq<char>,
    pub port: Seq<char>,
    pub time: Timestamp,
}

/// A failure notified for the server at `ip` and `port`.
pub struct Failure {
    ip: String,
    port: String,
    time: Timestamp,
}

impl View for Failure {
    type V = FailureView;

    closed spec fn view(&self) -> FailureView {
        FailureView { ip: self.ip@, port: self.port@, time: self.time }
    }
}

/// The views of a sequence of failures.
pub open spec fn failure_views(s: Seq<Failure>) -> Seq<FailureView> {
    Seq::new(s.len(), |i: int| s[i]@)
}

/// The times of the failures recorded for the server at `ip` and `port`, in order.
pub open spec fn failure_times(s: Seq<FailureView>, ip: Seq<char>, port: Seq<char>) -> Seq<Timestamp>
    decreases s.len(),
{
    if s.len() == 0 {
        Seq::empty()
    } else {
        let r = failure_times(s.drop_last(), ip, port);
        if s.last().ip == ip && s.last().port == port {
            r.push(s.last().time)
        } else {
            r
        }
    }
}

/// In-memory record of the members and their failures.
pub struct MemberTable {
    members: Vec<Member>,
    failures: Vec<Failure>,
}

impl MemberTable {
    /// The members, in the order they were pushed.
    pub closed spec fn members_view(&self) -> Seq<MemberView> {
        member_views(self.members@)
    }

    /// The failures, in the order they were notified.
    pub closed spec fn failures_view(&self) -> Seq<FailureView> {
        failure_views(self.failures@)
    }

    /// An empty record.
    pub fn new() -> (r: MemberTable)
        ensures
            r.members_view() == Seq::<MemberView>::empty(),
            r.failures_view() == Seq::<FailureView>::empty(),
    {
        let r = MemberTable { members: Vec::new(), failures: Vec::new() };
        assert(r.members_view() =~= Seq::<MemberView>::empty());
        assert(r.failures_view() =~= Seq::<FailureView>::empty());
        r
    }

    /// Saves a new member
    pub fn push(&mut self, member: Member)
        ensures
            final(self).members_view() == old(self).members_view().push(member@),
            final(self).failures_view() == old(self).failures_view(),
    {
        self.members.push(member);
        assert(self.members_view() =~= old(self).members_view().push(member@));
    }

    /// Remove every member at `ip` and `port`
    pub fn remove(&mut self, ip: &str, port: &str)
        ensures
            final(self).members_view() == keep(old(self).members_view(), not_at(ip@, port@)),
            final(self).failures_view() == old(self).failures_view(),
    {
        self.members = select_members(&self.members, ip, port, false);
    }

    /// Changes the status of every member at `ip` and `port`, and marks them
    /// as seen now (the current instant is not stated; it is representable).
    pub fn set_is_active(&mut self, ip: &str, port: &str, is_active: bool)
        ensures
            final(self).failures_view() == old(self).failures_view(),
            final(self).members_view().len() == old(self).members_view().len(),
            exists|t: Timestamp| representable(t) && t.secs >= 0 && t.nanos < 1_000_000_000 && forall|i: int| 0 <= i < old(self).members_view().len() ==>
                #[trigger] final(self).members_view()[i] == if is_at(old(self).members_view()[i], ip@, port@) {
                    MemberView { active: is_active, last_seen: t, ..old(self).members_view()[i] }
                } else {
                    old(self).members_view()[i]
                },
    {
        let last_seen = utc_now();
        let n = self.members.len();
        let mut i: usize = 0;
        let ghost before = self.members_view();
        while i < n
            invariant
                n == self.members@.len(),
                before.len() == n,
                i <= n,
                representable(last_seen),
                last_seen.secs >= 0,
                last_seen.nanos < 1_000_000_000,
                self.failures@ == old(self).failures@,
                forall|t: int| 0 <= t < n ==> #[trigger] self.members@[t]@ == if t < i && is_at(before[t], ip@, port@) {
                    MemberView { active: is_active, last_seen, ..before[t] }
                } else {
                    before[t]
                },
            decreases n - i,
        {
            if self.members[i].is_at(ip, port) {
                let mut m = self.members[i].duplicate();
                m.set_active(is_active);
                m.set_last_seen_at(last_seen);
                self.members.set(i, m);
            }
            i = i + 1;
        }
        proof {
            assert forall|t: int| 0 <= t < before.len() implies #[trigger] self.members_view()[t] == if is_at(before[t], ip@, port@) {
                MemberView { active: is_active, last_seen, ..before[t] }
            } else {
                before[t]
            } by {
                assert(self.members_view()[t] == self.members@[t]@);
            }
            assert(self.failures_view() =~= old(self).failures_view());
        }
    }

    /// List all members
    pub fn members(&self) -> (r: Vec<Member>)
        ensures
            member_views(r@) == self.members_view(),
    {
        copy_members(&self.members)
    }

    /// Flag a failure of the member at `ip` and `port`, at the current instant
    /// (not stated; representable). The member's status does not change.
    pub fn notify_failure(&mut self, ip: &str, port: &str)
        ensures
            final(self).members_view() == old(self).members_view(),
            final(self).failures_view() == old(self).failures_view().push(FailureView {
                ip: ip@,
                port: port@,
                time: final(self).failures_view().last().time,
            }),
            representable(final(self).failures_view().last().time),
            final(self).failures_view().last().time.secs >= 0,
            final(self).failures_view().last().time.nanos < 1_000_000_000,
    {
        let now = utc_now();
        self.failures.push(Failure { ip: ip.to_owned(), port: port.to_owned(), time: now });
        assert(self.failures_view() =~= old(self).failures_view().push(FailureView { ip: ip@, port: port@, time: now }));
    }

    /// List all failures of the member at `ip` and `port`
    pub fn member_failures(&self, ip: &str, port: &str) -> (r: Vec<Timestamp>)
        ensures
            r@ == failure_times(self.failures_view(), ip@, port@),
    {
        let ghost all = self.failures_view();
        let mut r: Vec<Timestamp> = Vec::new();
        let n = self.failures.len();
        let mut i: usize = 0;
        while i < n
            invariant
                n == self.failures@.len(),
                all == self.failures_view(),
                i <= n,
                r@ == failure_times(all.take(i as int), ip@, port@),
            decreases n - i,
        {
            let f = &self.failures[i];
            assert(all.take(i + 1).drop_last() =~= all.take(i as int));
            assert(all[i as int] == f@);
            if same_text(f.ip.as_str(), ip) && same_text(f.port.as_str(), port) {
                r.push(f.time);
            }
            i = i + 1;
        }
        assert(all.take(n as int) =~= all);
        r
    }
}

/// A failure notified for a member is the last of its failures, after the
/// ones before it; the failures of every other member do not change.
pub proof fn law_failure_reads_back(before: Seq<FailureView>, f: FailureView, ip: Seq<char>, port: Seq<char>)
    ensures
        failure_times(before.push(f), f.ip, f.port) == failure_times(before, f.ip, f.port).push(f.time),
        !(ip == f.ip && port == f.port) ==> failure_times(before.push(f), ip, port) == failure_times(before, ip, port),
{
    assert(before.push(f).drop_last() =~= before);
}

/// Once the members at `ip` and `port` are removed, none is left, and every
/// other member stays.
pub proof fn law_remove_leaves_none(members: Seq<MemberView>, ip: Seq<char>, port: Seq<char>, other: MemberView)
    ensures
        forall|i: int| 0 <= i < keep(members, not_at(ip, port)).len() ==> !is_at(#[trigger] keep(members, not_at(ip, port))[i], ip, port),
        members.contains(other) && !is_at(other, ip, port) ==> keep(members, not_at(ip, port)).contains(other),
{
    lemma_keep_members(members, not_at(ip, port));
}

/// After the status of the members at `ip` and `port` is set, the server
/// is active exactly when the status set was `true` (if it is a member).
pub proof fn law_status_reads_back(
    before: Seq<MemberView>,
    after: Seq<MemberView>,
    ip: Seq<char>,
    port: Seq<char>,
    is_active: bool,
    t: Timestamp,
)
    requires
        after.len() == before.len(),
        forall|i: int| 0 <= i < before.len() ==> #[trigger] after[i] == if is_at(before[i], ip, port) {
            MemberView { active: is_active, last_seen: t, ..before[i] }
        } else {
            before[i]
        },
        exists|i: int| 0 <= i < before.len() && is_at(#[trigger] before[i], ip, port),
    ensures
        has_active(after, ip, port) == is_active,
{
    let i = choose|i: int| 0 <= i < before.len() && is_at(#[trigger] before[i], ip, port);
    assert(after[i].active == is_active);
    if is_active {
        assert(is_at(after[i], ip, port));
    } else {
        assert forall|j: int| 0 <= j < after.len() implies !((#[trigger] after[j]).active && is_at(after[j], ip, port)) by {
            assert(after[j] == if is_at(before[j], ip, port) {
                MemberView { active: is_active, last_seen: t, ..before[j] }
            } else {
                before[j]
            });
        }
    }
}

} // verus!
