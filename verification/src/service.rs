//! Server-side decisions on where a service object lives and how a
//! request's outcome is reported.

use vstd::prelude::*;

use crate::errors::{HandlerError, MembershipError};
use crate::protocol::{handler_error_response, ResponseEnvelope, ResponseError};
use crate::text::{join3, same_text};

verus! {

/// `i` is the position of the first `:` in `s`.
pub open spec fn first_colon_at(s: Seq<char>, i: int) -> bool {
    &&& 0 <= i < s.len()
    &&& s[i] == ':'
    &&& forall|k: int| 0 <= k < i ==> s[k] != ':'
}

/// `s` holds a `:`.
pub open spec fn has_colon(s: Seq<char>) -> bool {
    exists|i: int| first_colon_at(s, i)
}

/// The text before the first `:` (all of `s` if there is none).
pub open spec fn before_colon(s: Seq<char>) -> Seq<char> {
    if has_colon(s) {
        s.subrange(0, choose|i: int| first_colon_at(s, i))
    } else {
        s
    }
}

/// The text after the first `:` (empty if there is none).
pub open spec fn after_colon(s: Seq<char>) -> Seq<char> {
    if has_colon(s) {
        s.subrange((choose|i: int| first_colon_at(s, i)) + 1, s.len() as int)
    } else {
        Seq::empty()
    }
}

/// Splits at the first `:`: the text before it and, if there is one, the text after it.
pub fn split_at_colon(s: &str) -> (r: (String, Option<String>))
    ensures
        r.0@ == before_colon(s@),
        match r.1 {
            Some(rest) => has_colon(s@) && rest@ == after_colon(s@),
            None => !has_colon(s@),
        },
{
    let n = s.unicode_len();
    let mut i: usize = 0;
    while i < n
        invariant
            n == s@.len(),
            i <= n,
            forall|k: int| 0 <= k < i ==> s@[k] != ':',
        decreases n - i,
    {
        if s.get_char(i) == ':' {
            proof {
                assert(first_colon_at(s@, i as int));
                let c = choose|c: int| first_colon_at(s@, c);
                if c < i {
                    assert(s@[c] != ':');
                }
                if i < c {
                    assert(s@[i as int] != ':');
                }
                assert(c == i);
            }
            let head = s.substring_char(0, i).to_owned();
            let tail = s.substring_char(i + 1, n).to_owned();
            return (head, Some(tail));
        }
        i = i + 1;
    }
    proof {
        assert forall|c: int| !first_colon_at(s@, c) by {
            if 0 <= c < n {
                assert(s@[c] != ':');
            }
        }
        assert(s@.subrange(0, n as int) =~= s@);
    }
    (s.to_owned(), None)
}

/// What to do with the placement found for an object.
#[derive(Debug)]
pub enum PlacementCheck {
    /// No placement: allocate the object here.
    Allocate,
    /// The placement's address lacks an ip or a port: remove it and allocate here.
    Discard,
    /// Ask whether the server at `ip` and `port` is active; keep the
    /// placement only if it is.
    CheckActive { ip: String, port: String },
}

/// Looks at the placement found for an object. The address is split at its
/// first `:` into ip and port.
pub fn placement_check(found: &Option<String>) -> (r: PlacementCheck)
    ensures
        match found {
            None => r is Allocate,
            Some(a) => if before_colon(a@).len() == 0 || after_colon(a@).len() == 0 {
                r is Discard
            } else {
                r matches PlacementCheck::CheckActive { ip, port } && ip@ == before_colon(a@) && port@ == after_colon(a@)
            },
        },
{
    match found {
        None => PlacementCheck::Allocate,
        Some(address) => {
            let (ip, rest) = split_at_colon(address.as_str());
            let port = match rest {
                Some(p) => p,
                None => String::new(),
            };
            if ip.unicode_len() == 0 || port.unicode_len() == 0 {
                PlacementCheck::Discard
            } else {
                PlacementCheck::CheckActive { ip, port }
            }
        },
    }
}

/// The placement is kept only when its server is known to be active; an
/// error asking counts as inactive.
pub fn keeps_placement(activity: &Result<bool, MembershipError>) -> (r: bool)
    ensures
        r == (activity matches Ok(true)),
{
    match activity {
        Ok(a) => *a,
        Err(_) => false,
    }
}

/// What becomes of an object's placement once it has been looked at.
#[derive(Debug)]
pub enum PlacementAction {
    /// The placement stands: the object lives at this address.
    Keep(String),
    /// The placement is unusable: remove it, then place the object here.
    RemoveAndPlaceHere,
    /// The placement's server is not active: clean every placement on the
    /// server at this address, then place the object here.
    CleanServerAndPlaceHere(String),
    /// There is no placement: place the object here.
    PlaceHere,
}

/// Decides what becomes of the placement `found` for an object, given what
/// was learned of its server's activity (`None` when it was not asked,
/// which `placement_check` asks for only with `CheckActive`).
pub fn placement_action(found: Option<String>, activity: Option<Result<bool, MembershipError>>) -> (r: PlacementAction)
    ensures
        match found {
            None => r is PlaceHere,
            Some(a) => if before_colon(a@).len() == 0 || after_colon(a@).len() == 0 {
                r is RemoveAndPlaceHere
            } else if activity matches Some(Ok(true)) {
                r matches PlacementAction::Keep(k) && k@ == a@
            } else {
                r matches PlacementAction::CleanServerAndPlaceHere(k) && k@ == a@
            },
        },
{
    match placement_check(&found) {
        PlacementCheck::Allocate => PlacementAction::PlaceHere,
        PlacementCheck::Discard => PlacementAction::RemoveAndPlaceHere,
        PlacementCheck::CheckActive { ip: _, port: _ } => {
            let keep = match &activity {
                Some(a) => keeps_placement(a),
                None => false,
            };
            match found {
                Some(address) => if keep {
                    PlacementAction::Keep(address)
                } else {
                    PlacementAction::CleanServerAndPlaceHere(address)
                },
                None => PlacementAction::PlaceHere,
            }
        },
    }
}

/// Where the object a request addresses lives, seen from this server.
#[derive(Debug)]
pub enum MismatchCheck {
    /// Here.
    Local,
    /// On the server at `ip` and `port`, whose activity decides.
    Remote { ip: String, port: String },
}

/// The text of the error for an address with no port.
pub open spec fn missing_port_text(address: Seq<char>) -> Seq<char> {
    "Malformed address: Missing PORT in '"@ + address + "'"@
}

/// Compares the object's server with this one. The ip is the text before
/// the first `:`, the port the text after it up to the next `:`; an address
/// with no `:` has no port and is refused.
pub fn mismatch_check(self_address: &str, server_address: &str) -> (r: Result<MismatchCheck, ResponseError>)
    ensures
        if server_address@ == self_address@ {
            r matches Ok(MismatchCheck::Local)
        } else if !has_colon(server_address@) {
            r matches Err(ResponseError::Unknown(m)) && m@ == missing_port_text(server_address@)
        } else {
            r matches Ok(MismatchCheck::Remote { ip, port }) && ip@ == before_colon(server_address@) && port@ == before_colon(
                after_colon(server_address@),
            )
        },
{
    if same_text(server_address, self_address) {
        return Ok(MismatchCheck::Local);
    }
    let (ip, rest) = split_at_colon(server_address);
    match rest {
        None => Err(ResponseError::Unknown(join3("Malformed address: Missing PORT in '", server_address, "'"))),
        Some(tail) => {
            let (port, _) = split_at_colon(tail.as_str());
            Ok(MismatchCheck::Remote { ip, port })
        },
    }
}

/// The verdict on a request for an object placed on another server: an
/// error asking the storage is reported as `Unknown` with its message; an
/// active server gets the request redirected; otherwise the object must be
/// deallocated (and its server cleaned).
pub fn mismatch_verdict(server_address: String, activity: Result<bool, MembershipError>) -> (r: ResponseError)
    ensures
        match activity {
            Err(e) => r matches ResponseError::Unknown(m) && m@ == e.text(),
            Ok(true) => r == ResponseError::Redirect(server_address),
            Ok(false) => r == ResponseError::DeallocateServiceObject,
        },
{
    match activity {
        Err(e) => ResponseError::Unknown(e.message()),
        Ok(true) => ResponseError::Redirect(server_address),
        Ok(false) => ResponseError::DeallocateServiceObject,
    }
}

/// An object that could not be started: unknown failures are reported as
/// `Allocate`, other errors as they are.
pub fn allocation_error(err: ResponseError) -> (r: ResponseError)
    ensures
        match err {
            ResponseError::Unknown(_) => r == ResponseError::Allocate,
            e => r == e,
        },
{
    match err {
        ResponseError::Unknown(_) => ResponseError::Allocate,
        e => e,
    }
}

/// The response to a handled request: its body, or the handler's error as
/// the protocol reports it.
pub fn handler_response(result: Result<Vec<u8>, HandlerError>) -> (r: Result<ResponseEnvelope, ResponseError>)
    ensures
        match result {
            Ok(body) => r matches Ok(env) && env.body == Ok::<Vec<u8>, ResponseError>(body),
            Err(e) => r matches Err(re) && handler_error_response(e, re),
        },
{
    match result {
        Ok(body) => Ok(ResponseEnvelope::new(body)),
        Err(err) => Err(ResponseError::from_handler_error(err)),
    }
}


/// Whether an object must be made before it serves: not when it already
/// runs (`Ok(false)`); yes when its type is registered (`Ok(true)`);
/// otherwise the type is not supported.
pub fn start_decision(running: bool, registered: bool, handler_type: &str) -> (r: Result<bool, ResponseError>)
    ensures
        running ==> r == Ok::<bool, ResponseError>(false),
        !running && registered ==> r == Ok::<bool, ResponseError>(true),
        !running && !registered ==> (r matches Err(ResponseError::NotSupported(t)) && t@ == handler_type@),
{
    if running {
        Ok(false)
    } else if registered {
        Ok(true)
    } else {
        Err(ResponseError::NotSupported(handler_type.to_owned()))
    }
}

/// The text that reports an object whose loading panicked.
pub open spec fn panicked_text(message: Seq<char>) -> Seq<char> {
    "Task panicked: "@ + message
}

/// The outcome of loading a new object: fine when it did not panic, else an
/// `Unknown` error that carries the panic's message.
pub fn load_verdict(panic_message: Option<String>) -> (r: Result<(), ResponseError>)
    ensures
        match panic_message {
            None => r == Ok::<(), ResponseError>(()),
            Some(m) => r matches Err(ResponseError::Unknown(t)) && t@ == panicked_text(m@),
        },
{
    match panic_message {
        None => Ok(()),
        Some(m) => Err(ResponseError::Unknown("Task panicked: ".to_owned().concat(m.as_str()))),
    }
}

} // verus!
