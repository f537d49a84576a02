//! Membership storage exposed over HTTP: what a read-only client sends and
//! how members and failures travel as text.

use vstd::prelude::*;

use super::{Member, MemberView};
use crate::errors::MembershipError;
use crate::text::join2;
use crate::time::{display_text, display_value, four_digit_year, read_display, representable, write_display, Timestamp};

verus! {

/// A member as it travels over HTTP: its instant as `Display` writes it.
#[derive(Clone, Debug, Default)]
pub struct HttpMember {
    pub ip: String,
    pub port: String,
    pub active: bool,
    pub last_seen: String,
}

impl HttpMember {
    /// The HTTP form of a member. Its instant reads back (so `to_member`
    /// gives the same member) when it lies in the years 0 to 9999.
    pub fn from_member(m: &Member) -> (r: HttpMember)
        requires
            representable(m@.last_seen),
        ensures
            r.ip@ == m@.ip,
            r.port@ == m@.port,
            r.active == m@.active,
            r.last_seen@ == display_text(m@.last_seen),
            four_digit_year(m@.last_seen) ==> display_value(r.last_seen@) == Some(m@.last_seen),
    {
        HttpMember { active: m.active, ip: m.ip.clone(), last_seen: write_display(&m.last_seen), port: m.port.clone() }
    }

    /// The member an HTTP form describes; `None` when its instant does not read.
    pub fn to_member(&self) -> (r: Option<Member>)
        ensures
            match display_value(self.last_seen@) {
                Some(t) => r matches Some(m) && m@ == (MemberView { ip: self.ip@, port: self.port@, active: self.active, last_seen: t }),
                None => r is None,
            },
    {
        match read_display(self.last_seen.as_str()) {
            Ok(t) => Some(Member { active: self.active, ip: self.ip.clone(), last_seen: t, port: self.port.clone() }),
            Err(_) => None,
        }
    }
}

/// The failure instants of a member as they travel over HTTP.
pub fn failures_to_texts(failures: &Vec<Timestamp>) -> (r: Vec<String>)
    requires
        forall|i: int| 0 <= i < failures@.len() ==> representable(#[trigger] failures@[i]),
    ensures
        r@.len() == failures@.len(),
        forall|i: int| 0 <= i < r@.len() ==> (#[trigger] r@[i])@ == display_text(failures@[i]),
        forall|i: int| 0 <= i < r@.len() && four_digit_year(failures@[i]) ==> display_value((#[trigger] r@[i])@) == Some(failures@[i]),
{
    let mut r: Vec<String> = Vec::new();
    let n = failures.len();
    let mut i: usize = 0;
    while i < n
        invariant
            n == failures@.len(),
            forall|i: int| 0 <= i < failures@.len() ==> representable(#[trigger] failures@[i]),
            i <= n,
            r@.len() == i,
            forall|t: int| 0 <= t < i ==> (#[trigger] r@[t])@ == display_text(failures@[t]),
            forall|t: int| 0 <= t < i && four_digit_year(failures@[t]) ==> display_value((#[trigger] r@[t])@) == Some(failures@[t]),
        decreases n - i,
    {
        r.push(write_display(&failures[i]));
        i = i + 1;
    }
    r
}

/// Reads failure instants back from their texts; the first text that does
/// not read makes the whole list an `Unknown` error.
pub fn failures_from_texts(texts: Vec<String>) -> (r: Result<Vec<Timestamp>, MembershipError>)
    ensures
        match r {
            Ok(ts) => ts@.len() == texts@.len() && forall|i: int| 0 <= i < ts@.len() ==> display_value(texts@[i]@) == Some(#[trigger] ts@[i]),
            Err(e) => e is Unknown && exists|i: int| 0 <= i < texts@.len() && display_value((#[trigger] texts@[i])@) is None,
        },
{
    let mut out: Vec<Timestamp> = Vec::new();
    let n = texts.len();
    let mut i: usize = 0;
    while i < n
        invariant
            n == texts@.len(),
            i <= n,
            out@.len() == i,
            forall|t: int| 0 <= t < i ==> display_value(texts@[t]@) == Some(#[trigger] out@[t]),
        decreases n - i,
    {
        match read_display(texts[i].as_str()) {
            Ok(t) => out.push(t),
            Err(message) => return Err(MembershipError::Unknown(message)),
        }
        i = i + 1;
    }
    Ok(out)
}

/// Read-only membership storage reached over HTTP
#[derive(Clone, Default)]
pub struct HttpMembersStorage {
    pub remote_address: String,
}

impl HttpMembersStorage {
    /// The URL that lists the members.
    pub fn members_url(&self) -> (r: String)
        ensures
            r@ == self.remote_address@ + "/members"@,
    {
        join2(self.remote_address.as_str(), "/members")
    }

    /// The URL that lists a member's failures.
    pub fn member_failures_url(&self, ip: &str, port: &str) -> (r: String)
        ensures
            r@ == self.remote_address@ + "/members/"@ + ip@ + "/"@ + port@,
    {
        join2(self.remote_address.as_str(), "/members/").concat(ip).concat("/").concat(port)
    }

    /// Every change is refused: the storage is read-only. The error names
    /// the operation.
    pub fn read_only(operation: &str) -> (r: MembershipError)
        ensures
            r matches MembershipError::ReadOnly(m) && m@ == operation@,
    {
        MembershipError::ReadOnly(operation.to_owned())
    }
}

} // verus!
