//! Random identifiers for completions, AG-UI runs and ACP sessions.
use vstd::prelude::*;
use crate::text::concat;

verus! {

/// A lower-case hexadecimal digit.
pub open spec fn is_lower_hex(c: char) -> bool {
    ('0' <= c && c <= '9') || ('a' <= c && c <= 'f')
}

/// The positions of the hyphens in the 8-4-4-4-12 layout.
pub open spec fn is_hyphen_position(i: int) -> bool {
    i == 8 || i == 13 || i == 18 || i == 23
}

/// A UUID in its lower-case hyphenated text form, such as
/// `67e55044-10b1-426f-9247-bb680e5fe0c8`.
pub open spec fn is_hyphenated_uuid(s: Seq<char>) -> bool {
    &&& s.len() == 36
    &&& forall|i: int| #![trigger s[i]]
        0 <= i < 36 ==> if is_hyphen_position(i) { s[i] == '-' } else { is_lower_hex(s[i]) }
}

/// Draws a fresh version-4 UUID with `uuid::Uuid::new_v4` and renders it with
/// its `Display` impl, which writes the lower-case hyphenated form.
///
/// Trusted: the text has that form; its value is random, so nothing more is stated.
#[verifier::external_body]
fn new_uuid_v4() -> (r: String)
    ensures
        is_hyphenated_uuid(r@),
{
    uuid::Uuid::new_v4().to_string()
}

/// The prefix of every chat completion id.
pub open spec fn completion_prefix() -> Seq<char> {
    seq!['c', 'h', 'a', 't', 'c', 'm', 'p', 'l', '-']
}

/// `chatcmpl-` followed by a hyphenated UUID.
pub open spec fn is_completion_id(s: Seq<char>) -> bool {
    &&& s.len() == 45
    &&& s.subrange(0, 9) == completion_prefix()
    &&& is_hyphenated_uuid(s.subrange(9, 45))
}

/// A fresh id for a streamed chat completion: `chatcmpl-` and a random UUID.
pub fn new_completion_id() -> (r: String)
    ensures
        is_completion_id(r@),
{
    let u = new_uuid_v4();
    let r = concat("chatcmpl-", &u);
    proof {
        reveal_strlit("chatcmpl-");
        assert(r@.subrange(0, 9) =~= completion_prefix());
        assert(r@.subrange(9, 45) =~= u@);
    }
    r
}

/// Fresh ids for an AG-UI run: the run id and the id of its one text message,
/// drawn independently.
pub fn new_run_ids() -> (r: (String, String))
    ensures
        is_hyphenated_uuid(r.0@),
        is_hyphenated_uuid(r.1@),
{
    let run_id = new_uuid_v4();
    let message_id = new_uuid_v4();
    (run_id, message_id)
}

/// A fresh ACP session id.
pub fn new_session_id() -> (r: String)
    ensures
        is_hyphenated_uuid(r@),
{
    new_uuid_v4()
}

} // verus!
