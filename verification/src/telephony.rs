//! Voice call rules: the direction shown for a listed call and the call
//! forwarding properties a change writes.

use vstd::prelude::*;
use crate::loader::same_chars;
use crate::text::chars_of;

verus! {

/// The direction shown for a call in the call list: `incoming` for a call
/// in state `incoming`, `outgoing` otherwise.
pub open spec fn listed_direction(state: Seq<char>) -> Seq<char> {
    if state == "incoming"@ {
        "incoming"@
    } else {
        "outgoing"@
    }
}

fn is_text(s: &str, lit: &str) -> (r: bool)
    ensures
        r == (s@ == lit@),
{
    let a = chars_of(s);
    let b = chars_of(lit);
    same_chars(a.as_slice(), b.as_slice())
}

/// The direction shown for a listed call (see `listed_direction`).
pub fn listed_call_direction(state: &str) -> (r: &'static str)
    ensures
        r@ == listed_direction(state@),
{
    if is_text(state, "incoming") {
        "incoming"
    } else {
        "outgoing"
    }
}

/// The forwarding property of a forwarding kind: `unconditional`, `busy`,
/// `noreply` and `notreachable`; no other kind has one.
pub open spec fn forwarding_property_of(kind: Seq<char>) -> Option<Seq<char>> {
    if kind == "unconditional"@ {
        Some("VoiceUnconditional"@)
    } else if kind == "busy"@ {
        Some("VoiceBusy"@)
    } else if kind == "noreply"@ {
        Some("VoiceNoReply"@)
    } else if kind == "notreachable"@ {
        Some("VoiceNotReachable"@)
    } else {
        None
    }
}

/// The forwarding property of a forwarding kind (see `forwarding_property_of`).
pub fn forwarding_property(kind: &str) -> (r: Option<&'static str>)
    ensures
        match forwarding_property_of(kind@) {
            Some(p) => r matches Some(x) && x@ == p,
            None => r is None,
        },
{
    if is_text(kind, "unconditional") {
        Some("VoiceUnconditional")
    } else if is_text(kind, "busy") {
        Some("VoiceBusy")
    } else if is_text(kind, "noreply") {
        Some("VoiceNoReply")
    } else if is_text(kind, "notreachable") {
        Some("VoiceNotReachable")
    } else {
        None
    }
}

/// A forwarding change also sets the no-reply timeout: the kind is
/// `noreply` and a timeout is given.
pub fn sets_no_reply_timeout(kind: &str, timeout: Option<u16>) -> (r: bool)
    ensures
        r == (kind@ == "noreply"@ && timeout is Some),
{
    is_text(kind, "noreply") && timeout.is_some()
}

} // verus!
