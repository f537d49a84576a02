//! How members and their failures are written to and read from Redis.

use vstd::prelude::*;

use super::{Member, MemberView};
use crate::errors::MembershipError;
use crate::text::{
    bool_text, bool_value, i64_text_value, join2, join3, lemma_split_concat, lemma_split_no_sep,
    read_bool, read_i64, split_spec, split_text, views, write_bool,
};
use crate::time::{
    four_digit_year, has_no_semicolon, instant_from_parts, read_rfc3339, representable, rfc3339_text, rfc3339_value, write_rfc3339,
    Timestamp,
};

verus! {

/// The hash field of a member: `ip:port`.
pub fn member_key(ip: &str, port: &str) -> (r: String)
    ensures
        r@ == ip@ + ":"@ + port@,
{
    join3(ip, ":", port)
}

/// The key of the hash holding all members.
pub fn members_key(key_prefix: &str) -> (r: String)
    ensures
        r@ == key_prefix@ + "members"@,
{
    join2(key_prefix, "members")
}

/// The key of the list of a member's failures.
pub fn member_failures_key(key_prefix: &str, ip: &str, port: &str) -> (r: String)
    ensures
        r@ == key_prefix@ + "member_failures;"@ + ip@ + ";"@ + port@,
{
    let r = join3(key_prefix, "member_failures;", ip).concat(";").concat(port);
    r
}

/// The text a member is stored as: ip, port, status and the RFC 3339
/// instant it was last seen, separated by `;`.
pub open spec fn member_text(m: MemberView) -> Seq<char> {
    m.ip + ";"@ + m.port + ";"@ + bool_text(m.active) + ";"@ + rfc3339_text(m.last_seen)
}

/// The member a stored text describes: its first four `;`-separated fields
/// (ip, port, `true`/`false`, RFC 3339 instant); further fields are ignored.
pub open spec fn member_from_text(s: Seq<char>) -> Option<MemberView> {
    let f = split_spec(s, ';');
    if f.len() < 4 {
        None
    } else {
        match (bool_value(f[2]), rfc3339_value(f[3])) {
            (Some(active), Some(last_seen)) => Some(MemberView { ip: f[0], port: f[1], active, last_seen }),
            _ => None,
        }
    }
}

/// Writes a member as its stored text. Reading the text back gives the same
/// member when its ip and port hold no `;` and it was last seen in the
/// years 0 to 9999.
pub fn member_to_string(member: &Member) -> (r: String)
    requires
        representable(member@.last_seen),
    ensures
        r@ == member_text(member@),
        has_no_semicolon(member@.ip) && has_no_semicolon(member@.port) && four_digit_year(member@.last_seen)
            ==> member_from_text(r@) == Some(member@),
{
    let active = write_bool(member.active);
    let seen = write_rfc3339(&member.last_seen);
    let r = join3(member.ip.as_str(), ";", member.port.as_str()).concat(";").concat(active.as_str()).concat(";").concat(
        seen.as_str(),
    );
    proof {
        if has_no_semicolon(member@.ip) && has_no_semicolon(member@.port) && four_digit_year(member@.last_seen) {
            law_member_text_reads_back(member@);
        }
    }
    r
}

/// Reads a member from its stored text.
pub fn parse_member(member: &str) -> (r: Result<Member, MembershipError>)
    ensures
        match r {
            Ok(m) => member_from_text(member@) == Some(m@) && representable(m@.last_seen),
            Err(e) => member_from_text(member@) is None && e == MembershipError::DeserializationError,
        },
{
    let fields = split_text(member, ';');
    proof {
        assert(views(fields@) == split_spec(member@, ';'));
    }
    if fields.len() < 4 {
        return Err(MembershipError::DeserializationError);
    }
    proof {
        assert(fields@[2]@ == split_spec(member@, ';')[2]);
        assert(fields@[3]@ == split_spec(member@, ';')[3]);
        assert(fields@[0]@ == split_spec(member@, ';')[0]);
        assert(fields@[1]@ == split_spec(member@, ';')[1]);
    }
    let active = match read_bool(fields[2].as_str()) {
        Some(a) => a,
        None => return Err(MembershipError::DeserializationError),
    };
    let last_seen = match read_rfc3339(fields[3].as_str()) {
        Some(t) => t,
        None => return Err(MembershipError::DeserializationError),
    };
    let mut parsed = Member::new(fields[0].clone(), fields[1].clone());
    parsed.active = active;
    parsed.last_seen = last_seen;
    Ok(parsed)
}

/// Reads every stored member; the first text that does not read makes the
/// whole list a deserialization error.
pub fn parse_members(values: &Vec<String>) -> (r: Result<Vec<Member>, MembershipError>)
    ensures
        match r {
            Ok(ms) => ms@.len() == values@.len() && forall|i: int| 0 <= i < ms@.len() ==> member_from_text(values@[i]@) == Some((#[trigger] ms@[i])@),
            Err(e) => e == MembershipError::DeserializationError && exists|i: int| 0 <= i < values@.len() && member_from_text((#[trigger] values@[i])@) is None,
        },
{
    let mut out: Vec<Member> = Vec::new();
    let n = values.len();
    let mut i: usize = 0;
    while i < n
        invariant
            n == values@.len(),
            i <= n,
            out@.len() == i,
            forall|t: int| 0 <= t < i ==> member_from_text(values@[t]@) == Some((#[trigger] out@[t])@),
        decreases n - i,
    {
        match parse_member(values[i].as_str()) {
            Ok(m) => out.push(m),
            Err(e) => return Err(e),
        }
        i = i + 1;
    }
    Ok(out)
}

/// The instants a list of stored failure texts describes: each is a Unix
/// time in seconds; `None` if any of them does not read as one.
pub open spec fn failure_times_from_text(texts: Seq<Seq<char>>) -> Option<Seq<Timestamp>>
    decreases texts.len(),
{
    if texts.len() == 0 {
        Some(Seq::empty())
    } else {
        match (failure_times_from_text(texts.drop_last()), i64_text_value(texts.last())) {
            (Some(ts), Some(secs)) => if representable(Timestamp { secs, nanos: 0 }) {
                Some(ts.push(Timestamp { secs, nanos: 0 }))
            } else {
                None
            },
            _ => None,
        }
    }
}

/// Reads the stored failure times of a member.
pub fn parse_failure_times(values: &Vec<String>) -> (r: Result<Vec<Timestamp>, MembershipError>)
    ensures
        match r {
            Ok(ts) => failure_times_from_text(views(values@)) == Some(ts@),
            Err(e) => failure_times_from_text(views(values@)) is None && e == MembershipError::DeserializationError,
        },
{
    let ghost texts = views(values@);
    let mut out: Vec<Timestamp> = Vec::new();
    let n = values.len();
    let mut i: usize = 0;
    while i < n
        invariant
            n == values@.len(),
            texts == views(values@),
            i <= n,
            failure_times_from_text(texts.take(i as int)) == Some(out@),
        decreases n - i,
    {
        assert(texts.take(i + 1).drop_last() =~= texts.take(i as int));
        assert(texts.take(i + 1).last() == values@[i as int]@);
        let secs = match read_i64(values[i].as_str()) {
            Some(s) => s,
            None => {
                proof {
                    lemma_unreadable_stops(texts, i as int);
                }
                return Err(MembershipError::DeserializationError);
            },
        };
        let t = match instant_from_parts(secs, 0) {
            Some(t) => t,
            None => {
                proof {
                    lemma_unreadable_stops(texts, i as int);
                }
                return Err(MembershipError::DeserializationError);
            },
        };
        out.push(t);
        i = i + 1;
    }
    assert(texts.take(n as int) =~= texts);
    Ok(out)
}

/// Once one text fails to read, the whole list fails to read.
proof fn lemma_unreadable_stops(texts: Seq<Seq<char>>, i: int)
    requires
        0 <= i < texts.len(),
        failure_times_from_text(texts.take(i + 1)) is None,
    ensures
        failure_times_from_text(texts) is None,
    decreases texts.len() - i,
{
    if i + 1 < texts.len() {
        assert(texts.take(i + 2).drop_last() =~= texts.take(i + 1));
        lemma_unreadable_stops(texts, i + 1);
    } else {
        assert(texts.take(i + 1) =~= texts);
    }
}

/// The member stored after its status is set: the stored one (or a new
/// member if none is stored), with the new status, and seen at `now` when
/// it becomes active.
pub fn updated_member(raw_member: Option<String>, ip: &str, port: &str, is_active: bool, now: Timestamp) -> (r: Result<Member, MembershipError>)
    ensures
        match raw_member {
            Some(raw) => match member_from_text(raw@) {
                Some(m) => r matches Ok(u) && u@ == (MemberView { active: is_active, last_seen: if is_active { now } else { m.last_seen }, ..m }),
                None => r == Err::<Member, MembershipError>(MembershipError::DeserializationError),
            },
            None => r matches Ok(u) && u@ == (MemberView {
                ip: ip@,
                port: port@,
                active: is_active,
                last_seen: if is_active { now } else { Timestamp { secs: 0, nanos: 0 } },
            }),
        },
{
    let mut member = match raw_member {
        Some(raw) => match parse_member(raw.as_str()) {
            Ok(m) => m,
            Err(e) => return Err(e),
        },
        None => Member::new(ip.to_owned(), port.to_owned()),
    };
    if is_active {
        member.last_seen = now;
    }
    member.active = is_active;
    Ok(member)
}

/// Reading back what was stored gives the same member (its instant read
/// back from its RFC 3339 text), when neither the address parts nor that
/// text hold a `;`.
pub proof fn law_member_text_reads_back(m: MemberView)
    requires
        forall|k: int| 0 <= k < m.ip.len() ==> m.ip[k] != ';',
        forall|k: int| 0 <= k < m.port.len() ==> m.port[k] != ';',
        forall|k: int| 0 <= k < rfc3339_text(m.last_seen).len() ==> rfc3339_text(m.last_seen)[k] != ';',
        rfc3339_value(rfc3339_text(m.last_seen)) is Some,
    ensures
        member_from_text(member_text(m)) == Some(MemberView { last_seen: rfc3339_value(rfc3339_text(m.last_seen))->0, ..m }),
{
    let t = rfc3339_text(m.last_seen);
    let b = bool_text(m.active);
    assert forall|k: int| 0 <= k < b.len() implies b[k] != ';' by {
        if m.active {
            assert(b =~= seq!['t', 'r', 'u', 'e']);
        } else {
            assert(b =~= seq!['f', 'a', 'l', 's', 'e']);
        }
    }
    reveal_strlit(";");
    assert(";"@ =~= seq![';']);
    lemma_split_no_sep(t, ';');
    lemma_split_concat(b, t, ';');
    lemma_split_concat(m.port, b + seq![';'] + t, ';');
    lemma_split_concat(m.ip, m.port + seq![';'] + (b + seq![';'] + t), ';');
    assert(member_text(m) =~= m.ip + seq![';'] + (m.port + seq![';'] + (b + seq![';'] + t)));
    let f = split_spec(member_text(m), ';');
    assert(f =~= seq![m.ip, m.port, b, t]);
    if m.active {
        assert(b =~= bool_text(true));
    } else {
        assert(b =~= bool_text(false));
        assert(b != bool_text(true));
    }
}

} // verus!
