//! Names for sessions.
use vstd::prelude::*;

verus! {

/// A hexadecimal digit, in small letters.
pub open spec fn is_hex(c: char) -> bool {
    '0' <= c <= '9' || 'a' <= c <= 'f'
}

/// The text of a UUID: 36 characters, hyphens after the eighth and after every fourth of the
/// next twelve digits, and hexadecimal digits in all other places.
pub open spec fn is_uuid(s: Seq<char>) -> bool {
    &&& s.len() == 36
    &&& forall|i: int|
        0 <= i < 36 ==> if i == 8 || i == 13 || i == 18 || i == 23 {
            #[trigger] s[i] == '-'
        } else {
            is_hex(s[i])
        }
}

/// `uuid::Uuid::new_v4` in its hyphenated form. Which UUID it is depends on chance.
#[verifier::external_body]
fn random_uuid() -> (r: String)
    ensures
        is_uuid(r@),
{
    uuid::Uuid::new_v4().to_string()
}

/// A name for a session: eight hexadecimal digits.
pub open spec fn is_session_id(s: Seq<char>) -> bool {
    s.len() == 8 && forall|i: int| 0 <= i < 8 ==> is_hex(#[trigger] s[i])
}

/// The name that a session gets from a UUID: its first eight digits.
pub fn session_id_of(uuid: &str) -> (r: String)
    requires
        is_uuid(uuid@),
    ensures
        r@ == uuid@.take(8),
        is_session_id(r@),
{
    let r = uuid.substring_char(0, 8).to_owned();
    proof {
        assert(r@ =~= uuid@.take(8));
        assert forall|i: int| 0 <= i < 8 implies is_hex(#[trigger] r@[i]) by {
            assert(r@[i] == uuid@[i]);
        }
    }
    r
}

/// A name for a new session. Which one it is depends on chance.
pub fn new_session_id() -> (r: String)
    ensures
        is_session_id(r@),
{
    session_id_of(random_uuid().as_str())
}

// ---------------------------------------------------------------------------------------------
// Laws

/// The name of a session is the start of its UUID.
pub proof fn law_a_name_is_the_start(uuid: &str, r: String, i: int)
    requires
        is_uuid(uuid@),
        call_ensures(session_id_of, (uuid,), r),
    ensures
        r@.len() == 8,
        0 <= i < 8 ==> r@[i] == uuid@[i],
{
}

} // verus!
