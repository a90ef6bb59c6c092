//! Matrix identifiers.

use vstd::prelude::*;

verus! {

/// Why `ruma` refuses a text as a user identifier, in words; none where it accepts it.
pub uninterp spec fn user_id_problem(text: Seq<char>) -> Option<Seq<char>>;

/// Whether a text is a user identifier.
pub open spec fn user_id_valid(text: Seq<char>) -> bool {
    user_id_problem(text) is None
}

/// Whether a character may stand in the name of a host.
pub open spec fn host_char(c: char) -> bool {
    'a' <= c <= 'z' || 'A' <= c <= 'Z' || '0' <= c <= '9' || c == '-' || c == '.'
}

/// Whether a text is a user identifier of the plain kind: `@`, a name without colon and
/// NUL, a colon, and the name of a host.
pub open spec fn plain_user_id(text: Seq<char>) -> bool {
    exists|c: int|
        {
            &&& 0 < c < text.len() - 1
            &&& #[trigger] text[c] == ':'
            &&& text[0] == '@'
            &&& forall|i: int| 0 < i < c ==> #[trigger] text[i] != ':' && text[i] != '\0'
            &&& forall|i: int| c < i < text.len() ==> host_char(#[trigger] text[i])
        }
}

/// Whether `ruma` accepts a text as an event identifier.
pub uninterp spec fn event_id_valid(text: Seq<char>) -> bool;

/// Whether a text is a room identifier: it begins with an exclamation mark and holds
/// no NUL.
pub open spec fn room_id_valid(text: Seq<char>) -> bool {
    text.len() > 0 && text[0] == '!' && !text.contains('\0')
}

/// `ruma::UserId::parse`: whether it accepts, and what it says where it does not,
/// depends on the text alone. It accepts only what begins with `@` and holds a colon, and
/// it accepts every identifier of the plain kind. The bound on the length is off in this
/// build.
#[verifier::external_body]
pub(crate) fn parse_user_id(text: &str) -> (r: Result<(), String>)
    ensures
        r is Ok <==> user_id_valid(text@),
        r is Ok ==> text@.len() > 0 && text@[0] == '@' && text@.contains(':'),
        plain_user_id(text@) ==> r is Ok,
        r matches Err(e) ==> user_id_problem(text@) == Some(e@),
{
    ruma::UserId::parse(text).map(|_| ()).map_err(|e| e.to_string())
}

/// Whether a text is a user identifier.
pub fn is_user_id(text: &str) -> (r: bool)
    ensures
        r == user_id_valid(text@),
        r ==> text@.len() > 0 && text@[0] == '@' && text@.contains(':'),
        plain_user_id(text@) ==> r,
{
    parse_user_id(text).is_ok()
}

/// `ruma::RoomId::parse`, which looks at the first byte and for NUL bytes. The bound
/// on the length is off in this build.
#[verifier::external_body]
pub(crate) fn is_room_id(text: &str) -> (r: bool)
    ensures
        r == room_id_valid(text@),
{
    ruma::RoomId::parse(text).is_ok()
}

/// `ruma::EventId::parse`: whether it accepts depends on the text alone, and it accepts
/// only what begins with `$`.
#[verifier::external_body]
pub(crate) fn is_event_id(text: &str) -> (r: bool)
    ensures
        r == event_id_valid(text@),
        r ==> text@.len() > 0 && text@[0] == '$',
{
    ruma::EventId::parse(text).is_ok()
}

} // verus!
