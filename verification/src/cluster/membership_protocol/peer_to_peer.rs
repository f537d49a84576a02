//! Gossip-based cluster provider: each server watches a few of its peers.

use vstd::prelude::*;

use crate::cluster::storage::{address_of, member_views, Member, MemberView};
use crate::seq_keep::{keep, lemma_keep_concat, lemma_keep_none, lemma_keep_push, lemma_keep_take};
use crate::sort_key::{compare_text, lemma_text_lt_irreflexive, lemma_text_lt_total, lemma_text_lt_transitive, text_lt, KeyOrder};
use crate::time::{max_delta_secs, representable, seconds_before, seconds_before_value, seconds_earlier, ts_lt, utc_now, Timestamp};

verus! {

/// Marks a node as inactive if we have more than `num_failures_threshold` in the past
/// `interval_secs_threshold` seconds
#[derive(Clone, Debug, PartialEq, Eq, Structural)]
pub struct PeerToPeerClusterConfig {
    pub interval_secs: u64,
    pub num_failures_threshold: u64,
    pub interval_secs_threshold: u64,
}

/// The default configuration: check every 10 seconds, and mark a node
/// inactive after more than 3 failures in the past 60 seconds.
pub open spec fn default_config() -> PeerToPeerClusterConfig {
    PeerToPeerClusterConfig { interval_secs: 10, num_failures_threshold: 3, interval_secs_threshold: 60 }
}

impl Default for PeerToPeerClusterConfig {
    fn default() -> (r: Self)
        ensures
            r == default_config(),
    {
        PeerToPeerClusterConfig { interval_secs: 10, num_failures_threshold: 3, interval_secs_threshold: 60 }
    }
}

impl PeerToPeerClusterConfig {
    pub fn new() -> (r: PeerToPeerClusterConfig)
        ensures
            r == default_config(),
    {
        Self::default()
    }
}

/// Gossip-based cluster provider
#[derive(Clone)]
pub struct PeerToPeerClusterProvider<T> {
    members_storage: T,
    config: PeerToPeerClusterConfig,
}

/// The number of members a server monitors, itself included in the window.
pub open spec fn monitor_window_len() -> int {
    4
}

/// The address of a member.
pub open spec fn member_address(m: MemberView) -> Seq<char> {
    address_of(m.ip, m.port)
}

/// Members whose address is not `a`.
pub open spec fn not_address(a: Seq<char>) -> spec_fn(MemberView) -> bool {
    |m: MemberView| member_address(m) != a
}

/// `p` is the first position whose member has address `a`.
pub open spec fn is_first_at(s: Seq<MemberView>, a: Seq<char>, p: int) -> bool {
    &&& 0 <= p < s.len()
    &&& member_address(s[p]) == a
    &&& forall|q: int| 0 <= q < p ==> member_address(#[trigger] s[q]) != a
}

/// The members a server at `address` monitors: going round the list from the
/// first member at `address`, the next four positions (that member included),
/// leaving out those at `address`.
pub open spec fn members_to_monitor(s: Seq<MemberView>, address: Seq<char>) -> Seq<MemberView> {
    if s.len() == 0 {
        Seq::empty()
    } else {
        let p = choose|p: int| is_first_at(s, address, p);
        let window = Seq::new(monitor_window_len() as nat, |d: int| s[(p + d) % (s.len() as int)]);
        keep(window, not_address(address))
    }
}

/// Member addresses do not decrease along the list.
pub open spec fn sorted_by_address(s: Seq<MemberView>) -> bool {
    forall|i: int, j: int| 0 <= i < j < s.len() ==> !text_lt(member_address(#[trigger] s[j]), member_address(#[trigger] s[i]))
}

/// The number of instants strictly after `cutoff`.
pub open spec fn count_after(s: Seq<Timestamp>, cutoff: Timestamp) -> nat
    decreases s.len(),
{
    if s.len() == 0 {
        0
    } else {
        count_after(s.drop_last(), cutoff) + (if ts_lt(cutoff, s.last()) { 1nat } else { 0nat })
    }
}

/// What the serve loop does to a monitored member's status.
#[derive(Debug, PartialEq, Eq, Structural)]
pub enum MemberHealthAction {
    SetInactive,
    SetActive,
    Keep,
}

/// A broken member is set inactive; a healthy member that is not active is
/// set active; otherwise nothing changes.
pub open spec fn health_action_spec(broken: bool, active: bool) -> MemberHealthAction {
    if broken {
        MemberHealthAction::SetInactive
    } else if !active {
        MemberHealthAction::SetActive
    } else {
        MemberHealthAction::Keep
    }
}

/// What to do with a monitored member once it has been tested.
pub fn health_action(broken: bool, active: bool) -> (r: MemberHealthAction)
    ensures
        r == health_action_spec(broken, active),
{
    if broken {
        MemberHealthAction::SetInactive
    } else if !active {
        MemberHealthAction::SetActive
    } else {
        MemberHealthAction::Keep
    }
}

proof fn lemma_next_index(p: int, d: int, n: int, idx: int)
    by (nonlinear_arith)
    requires
        n > 0,
        p >= 0,
        d >= 0,
        idx == (p + d) % n,
    ensures
        (if idx + 1 == n { 0 } else { idx + 1 }) == (p + d + 1) % n,
        0 <= idx < n,
{
}

/// Whether more than `threshold` of the failures are strictly after `cutoff`.
pub fn failures_over_threshold(failures: &Vec<Timestamp>, cutoff: Timestamp, threshold: u64) -> (r: bool)
    ensures
        r == (count_after(failures@, cutoff) > threshold),
{
    let n = failures.len();
    let mut count: u64 = 0;
    let mut i: usize = 0;
    while i < n
        invariant
            n == failures@.len(),
            i <= n,
            count == count_after(failures@.take(i as int), cutoff),
            count <= i,
        decreases n - i,
    {
        assert(failures@.take(i + 1).drop_last() =~= failures@.take(i as int));
        if failures[i].is_after(&cutoff) {
            count = count + 1;
        }
        i = i + 1;
    }
    assert(failures@.take(n as int) =~= failures@);
    count > threshold
}

/// Whether a member has the address `a`.
pub open spec fn at_address(a: Seq<char>) -> spec_fn(MemberView) -> bool {
    |m: MemberView| member_address(m) == a
}

/// Inserting `x` at `j`, before members whose addresses all differ from
/// `x`'s, puts `x` last among the members at its address and leaves the
/// members at every other address as they were.
proof fn lemma_insert_keeps_groups(before: Seq<MemberView>, j: int, x: MemberView, b: Seq<char>)
    requires
        0 <= j <= before.len(),
        forall|t: int| j <= t < before.len() ==> member_address(#[trigger] before[t]) != member_address(x),
    ensures
        keep(before.insert(j, x), at_address(b)) == (if member_address(x) == b {
            keep(before, at_address(b)).push(x)
        } else {
            keep(before, at_address(b))
        }),
{
    let p = at_address(b);
    let head = before.take(j);
    let tail = before.skip(j);
    let one = Seq::<MemberView>::empty().push(x);
    assert(before.insert(j, x) =~= head + one + tail);
    assert(before =~= head + tail);
    lemma_keep_concat(head + one, tail, p);
    lemma_keep_concat(head, one, p);
    lemma_keep_concat(head, tail, p);
    lemma_keep_push(Seq::<MemberView>::empty(), p, x);
    assert(keep(Seq::<MemberView>::empty(), p) =~= Seq::<MemberView>::empty());
    if member_address(x) == b {
        assert forall|t: int| 0 <= t < tail.len() implies !p(#[trigger] tail[t]) by {
            assert(tail[t] == before[j + t]);
        }
        lemma_keep_none(tail, p);
        assert(keep(head, p) + keep(one, p) + keep(tail, p) =~= keep(head, p).push(x));
        assert(keep(head, p) + keep(tail, p) =~= keep(head, p));
    } else {
        assert(keep(one, p) =~= Seq::<MemberView>::empty());
        assert(keep(head, p) + keep(one, p) + keep(tail, p) =~= keep(head, p) + keep(tail, p));
    }
}

/// Sorts members by address (`ip:port`), keeping the order of equal addresses.
pub fn sort_by_address(members: Vec<Member>) -> (r: Vec<Member>)
    ensures
        member_views(r@).to_multiset() == member_views(members@).to_multiset(),
        sorted_by_address(member_views(r@)),
        forall|a: Seq<char>| #[trigger] keep(member_views(r@), at_address(a)) == keep(member_views(members@), at_address(a)),
{
    let ghost input = member_views(members@);
    let mut r: Vec<Member> = Vec::new();
    let n = members.len();
    let mut i: usize = 0;
    assert(member_views(r@) =~= input.take(0));
    while i < n
        invariant
            n == members@.len(),
            input == member_views(members@),
            i <= n,
            member_views(r@).to_multiset() == input.take(i as int).to_multiset(),
            sorted_by_address(member_views(r@)),
            forall|b: Seq<char>| #[trigger] keep(member_views(r@), at_address(b)) == keep(input.take(i as int), at_address(b)),
        decreases n - i,
    {
        let m = members[i].duplicate();
        let a = m.address();
        let len = r.len();
        let mut j: usize = 0;
        while j < len
            invariant
                len == r@.len(),
                j <= len,
                a@ == member_address(m@),
                forall|t: int| 0 <= t < j ==> !text_lt(a@, member_address(#[trigger] r@[t]@)),
            ensures
                j <= len,
                forall|t: int| 0 <= t < j ==> !text_lt(a@, member_address(#[trigger] r@[t]@)),
                j < len ==> text_lt(a@, member_address(r@[j as int]@)),
            decreases len - j,
        {
            let b = r[j].address();
            if compare_text(a.as_str(), b.as_str()) == KeyOrder::Less {
                break;
            }
            proof {
                lemma_text_lt_total(a@, b@);
            }
            j = j + 1;
        }
        let ghost before = member_views(r@);
        proof {
            assert forall|t: int| 0 <= t < j implies !text_lt(a@, member_address(#[trigger] before[t])) by {
                assert(before[t] == r@[t]@);
            }
            if j < len {
                assert(before[j as int] == r@[j as int]@);
                assert(text_lt(a@, member_address(before[j as int])));
            }
        }
        r.insert(j, m);
        proof {
            let after = member_views(r@);
            assert(after =~= before.insert(j as int, m@));
            assert(input.take(i + 1) =~= input.take(i as int).push(input[i as int]));
            assert(input[i as int] == m@);
            vstd::seq_lib::to_multiset_insert(before, j as int, m@);
            vstd::seq_lib::to_multiset_build(input.take(i as int), m@);
            assert forall|t: int| j <= t < before.len() implies member_address(#[trigger] before[t]) != member_address(m@) by {
                let aj = member_address(before[j as int]);
                let at = member_address(before[t]);
                if t > j {
                    assert(!text_lt(at, aj));
                    lemma_text_lt_total(at, aj);
                    if at != aj {
                        lemma_text_lt_transitive(a@, aj, at);
                    }
                }
                assert(text_lt(a@, at));
                lemma_text_lt_irreflexive(a@);
            }
            assert forall|b: Seq<char>| #[trigger] keep(after, at_address(b)) == keep(input.take(i + 1), at_address(b)) by {
                lemma_insert_keeps_groups(before, j as int, m@, b);
                lemma_keep_take(input, at_address(b), i as int);
            }
            assert forall|x: int, y: int| 0 <= x < y < after.len() implies !text_lt(member_address(#[trigger] after[y]), member_address(#[trigger] after[x])) by {
                let am = member_address(m@);
                if y < j {
                    assert(after[x] == before[x] && after[y] == before[y]);
                } else if y == j {
                    assert(after[x] == before[x]);
                    assert(!text_lt(am, member_address(before[x])));
                } else if x > j {
                    assert(after[x] == before[x - 1] && after[y] == before[y - 1]);
                } else {
                    // y > j, x <= j
                    assert(after[y] == before[y - 1]);
                    let ab = member_address(before[y - 1]);
                    assert(text_lt(am, member_address(before[j as int])));
                    if y - 1 > j {
                        assert(!text_lt(ab, member_address(before[j as int])));
                        lemma_text_lt_total(ab, member_address(before[j as int]));
                        if ab != member_address(before[j as int]) {
                            lemma_text_lt_transitive(am, member_address(before[j as int]), ab);
                        }
                    }
                    assert(text_lt(am, ab));
                    lemma_text_lt_total(am, ab);
                    if x == j {
                        assert(after[x] == m@);
                    } else {
                        assert(after[x] == before[x]);
                        let ax = member_address(before[x]);
                        assert(!text_lt(am, ax));
                        lemma_text_lt_total(am, ax);
                        if ax != am {
                            lemma_text_lt_transitive(ax, am, ab);
                        }
                        lemma_text_lt_total(ax, ab);
                    }
                }
            }
        }
        i = i + 1;
    }
    assert(input.take(n as int) =~= input);
    r
}

/// A server never monitors itself, and monitors at most three members.
pub proof fn law_monitor_excludes_self(s: Seq<MemberView>, address: Seq<char>)
    requires
        s.len() == 0 || exists|i: int| 0 <= i < s.len() && member_address(#[trigger] s[i]) == address,
    ensures
        forall|i: int| 0 <= i < members_to_monitor(s, address).len() ==> member_address(#[trigger] members_to_monitor(s, address)[i]) != address,
        members_to_monitor(s, address).len() <= 3,
{
    if s.len() > 0 {
        let i = choose|i: int| 0 <= i < s.len() && member_address(#[trigger] s[i]) == address;
        lemma_first_exists(s, address, i);
        let p = choose|p: int| is_first_at(s, address, p);
        let n = s.len() as int;
        let window = Seq::new(monitor_window_len() as nat, |d: int| s[(p + d) % n]);
        let pred = not_address(address);
        assert(p % n == p) by (nonlinear_arith)
            requires
                0 <= p < n,
        ;
        assert(window[0] == s[p]);
        crate::seq_keep::lemma_keep_members(window, pred);
        lemma_keep_take(window, pred, 0);
        lemma_keep_take(window, pred, 1);
        lemma_keep_take(window, pred, 2);
        lemma_keep_take(window, pred, 3);
        assert(window.take(0) =~= Seq::<MemberView>::empty());
        assert(window.take(4) =~= window);
        assert(keep(window.take(1), pred).len() == 0);
    }
}

/// The member `d` positions after position `p`, going round the list.
pub open spec fn round_from(s: Seq<MemberView>, p: int, d: int) -> MemberView {
    s[(p + d) % (s.len() as int)]
}

/// Of the four positions round the list from the first member at the
/// server's own address `address` (that member's position included), every
/// member whose address differs from `address` is monitored: only members
/// at `address` itself are left out, whatever their ip or port share with it.
pub proof fn law_monitor_covers_the_window(s: Seq<MemberView>, address: Seq<char>, p: int, d: int)
    requires
        is_first_at(s, address, p),
        0 <= d < 4,
        member_address(round_from(s, p, d)) != address,
    ensures
        members_to_monitor(s, address).contains(round_from(s, p, d)),
{
    let n = s.len() as int;
    let q = choose|q: int| is_first_at(s, address, q);
    assert(q == p) by {
        if q < p {
            assert(member_address(s[q]) != address);
        } else if q > p {
            assert(member_address(s[p]) != address);
        }
    }
    let window = Seq::new(monitor_window_len() as nat, |e: int| s[(p + e) % n]);
    assert(window[d] == s[(p + d) % n]);
    assert(window.contains(s[(p + d) % n]));
    crate::seq_keep::lemma_keep_members(window, not_address(address));
}

/// Every monitored member is one of the four members round the list from
/// the first member at the server's own address (`round_from` with `d`
/// below 4).
pub proof fn law_monitor_stays_in_the_window(s: Seq<MemberView>, address: Seq<char>, p: int)
    requires
        is_first_at(s, address, p),
    ensures
        forall|m: MemberView| #[trigger] members_to_monitor(s, address).contains(m) ==> exists|d: int|
            0 <= d < 4 && m == #[trigger] round_from(s, p, d),
{
    let n = s.len() as int;
    let q = choose|q: int| is_first_at(s, address, q);
    assert(q == p) by {
        if q < p {
            assert(member_address(s[q]) != address);
        } else if q > p {
            assert(member_address(s[p]) != address);
        }
    }
    let window = Seq::new(monitor_window_len() as nat, |e: int| s[(p + e) % n]);
    let r = members_to_monitor(s, address);
    assert(r == keep(window, not_address(address)));
    crate::seq_keep::lemma_keep_members(window, not_address(address));
    assert forall|m: MemberView| #[trigger] r.contains(m) implies exists|d: int| 0 <= d < 4 && m == #[trigger] round_from(s, p, d) by {
        let i = choose|i: int| 0 <= i < r.len() && r[i] == m;
        assert(window.contains(r[i]));
        let d = choose|d: int| 0 <= d < window.len() && window[d] == r[i];
        assert(m == round_from(s, p, d));
        assert(0 <= d < 4);
    }
}

/// When some member is at `a`, there is a first one.
proof fn lemma_first_exists(s: Seq<MemberView>, a: Seq<char>, i: int)
    requires
        0 <= i < s.len(),
        member_address(s[i]) == a,
    ensures
        exists|p: int| is_first_at(s, a, p),
    decreases i,
{
    if forall|q: int| 0 <= q < i ==> member_address(#[trigger] s[q]) != a {
        assert(is_first_at(s, a, i));
    } else {
        let q = choose|q: int| 0 <= q < i && member_address(#[trigger] s[q]) == a;
        lemma_first_exists(s, a, q);
    }
}

impl<T> PeerToPeerClusterProvider<T> {
    /// The storage of the cluster's members.
    pub closed spec fn storage(&self) -> T {
        self.members_storage
    }

    /// The provider's configuration.
    pub closed spec fn config_view(&self) -> PeerToPeerClusterConfig {
        self.config
    }

    pub fn new(members_storage: T, config: PeerToPeerClusterConfig) -> (r: PeerToPeerClusterProvider<T>)
        ensures
            r.storage() == members_storage,
            r.config_view() == config,
    {
        PeerToPeerClusterProvider { members_storage, config }
    }

    /// The storage of the cluster's members.
    pub fn members_storage(&self) -> (r: &T)
        ensures
            *r == self.storage(),
    {
        &self.members_storage
    }

    /// The provider's configuration.
    pub fn config(&self) -> (r: &PeerToPeerClusterConfig)
        ensures
            *r == self.config_view(),
    {
        &self.config
    }

    /// The members the server at `address` monitors among the sorted members.
    ///
    /// The list must hold a member at `address` (when it is not empty): going
    /// round the list to find it would not end otherwise.
    pub fn get_members_to_monitor(&self, address: &str, sorted_members: &[Member]) -> (r: Vec<Member>)
        requires
            sorted_members@.len() == 0 || exists|i: int| 0 <= i < sorted_members@.len() && member_address(#[trigger] sorted_members@[i]@) == address@,
        ensures
            member_views(r@) == members_to_monitor(member_views(sorted_members@), address@),
    {
        let ghost s = member_views(sorted_members@);
        let n = sorted_members.len();
        if n == 0 {
            let r: Vec<Member> = Vec::new();
            assert(member_views(r@) =~= Seq::<MemberView>::empty());
            return r;
        }
        // First member at `address`.
        let mut p: usize = 0;
        while p < n
            invariant
                n == sorted_members@.len(),
                s == member_views(sorted_members@),
                p <= n,
                forall|q: int| 0 <= q < p ==> member_address(#[trigger] s[q]) != address@,
            ensures
                p <= n,
                forall|q: int| 0 <= q < p ==> member_address(#[trigger] s[q]) != address@,
                p < n ==> member_address(s[p as int]) == address@,
            decreases n - p,
        {
            let a = sorted_members[p].address();
            assert(s[p as int] == sorted_members@[p as int]@);
            if compare_text(a.as_str(), address) == KeyOrder::Equal {
                break;
            }
            p = p + 1;
        }
        proof {
            if p == n {
                let i = choose|i: int| 0 <= i < sorted_members@.len() && member_address(#[trigger] sorted_members@[i]@) == address@;
                assert(s[i] == sorted_members@[i]@);
                assert(false);
            }
            assert(s[p as int] == sorted_members@[p as int]@);
            assert(is_first_at(s, address@, p as int));
            let c = choose|c: int| is_first_at(s, address@, c);
            if c < p {
                assert(member_address(s[c]) != address@);
            }
            if p < c {
                assert(member_address(s[p as int]) != address@);
            }
            assert(c == p);
        }
        let ghost window = Seq::new(monitor_window_len() as nat, |d: int| s[(p + d) % (n as int)]);
        let ghost pred = not_address(address@);
        let mut r: Vec<Member> = Vec::new();
        let mut idx: usize = p;
        let mut d: usize = 0;
        proof {
            lemma_next_index(p as int, 0, n as int, p as int % n as int);
            assert(p as int % n as int == p) by (nonlinear_arith)
                requires
                    0 <= p < n,
            ;
        }
        while d < 4
            invariant
                n == sorted_members@.len(),
                n > 0,
                s == member_views(sorted_members@),
                window == Seq::new(monitor_window_len() as nat, |d: int| s[(p + d) % (n as int)]),
                pred == not_address(address@),
                d <= 4,
                idx == (p + d) % (n as int),
                idx < n,
                member_views(r@) == keep(window.take(d as int), pred),
            decreases 4 - d,
        {
            proof {
                lemma_keep_take(window, pred, d as int);
                assert(window[d as int] == s[idx as int]);
                assert(s[idx as int] == sorted_members@[idx as int]@);
            }
            let m = &sorted_members[idx];
            let a = m.address();
            if compare_text(a.as_str(), address) != KeyOrder::Equal {
                let ghost before = r@;
                r.push(m.duplicate());
                assert(member_views(r@) =~= member_views(before).push(window[d as int]));
            }
            proof {
                lemma_next_index(p as int, d as int, n as int, idx as int);
            }
            idx = if idx + 1 == n { 0 } else { idx + 1 };
            d = d + 1;
        }
        assert(window.take(4) =~= window);
        r
    }

    /// Whether the member with these failures is broken at `now`: more than
    /// `num_failures_threshold` failures strictly after the instant
    /// `interval_secs_threshold` seconds before `now`. `None` where chrono
    /// cannot compute that instant.
    pub fn is_broken_at(&self, now: Timestamp, failures: &Vec<Timestamp>) -> (r: Option<bool>)
        requires
            representable(now),
        ensures
            r == match seconds_before_value(now, self.config_view().interval_secs_threshold) {
                Some(t0) => Some(count_after(failures@, t0) > self.config_view().num_failures_threshold),
                None => None::<bool>,
            },
            self.config_view().interval_secs_threshold <= max_delta_secs() && now.nanos < 1_000_000_000 ==> r == if representable(
                seconds_earlier(now, self.config_view().interval_secs_threshold),
            ) {
                Some(
                    count_after(failures@, seconds_earlier(now, self.config_view().interval_secs_threshold))
                        > self.config_view().num_failures_threshold,
                )
            } else {
                None::<bool>
            },
            max_delta_secs() < self.config_view().interval_secs_threshold <= i64::MAX ==> r is None,
    {
        match seconds_before(&now, self.config.interval_secs_threshold) {
            Some(t0) => Some(failures_over_threshold(failures, t0, self.config.num_failures_threshold)),
            None => None,
        }
    }

    /// Whether the member with these failures is broken now, as
    /// `is_broken_at` says for the current instant (which one is not stated;
    /// it is not before the epoch and not a leap second).
    pub fn is_broken(&self, failures: &Vec<Timestamp>) -> (r: Option<bool>)
        ensures
            exists|now: Timestamp| #![trigger representable(now)] {
                &&& representable(now)
                &&& now.secs >= 0
                &&& now.nanos < 1_000_000_000
                &&& r == match seconds_before_value(now, self.config_view().interval_secs_threshold) {
                    Some(t0) => Some(count_after(failures@, t0) > self.config_view().num_failures_threshold),
                    None => None::<bool>,
                }
                &&& self.config_view().interval_secs_threshold <= max_delta_secs() ==> r == if representable(
                    seconds_earlier(now, self.config_view().interval_secs_threshold),
                ) {
                    Some(
                        count_after(failures@, seconds_earlier(now, self.config_view().interval_secs_threshold))
                            > self.config_view().num_failures_threshold,
                    )
                } else {
                    None::<bool>
                }
            },
            max_delta_secs() < self.config_view().interval_secs_threshold <= i64::MAX ==> r is None,
    {
        let now = utc_now();
        let r = self.is_broken_at(now, failures);
        assert(representable(now));
        r
    }
}

} // verus!
