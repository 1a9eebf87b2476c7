//! The two services the arena relies on: a clock and a source of identifiers.
//!
//! Both are supplied by outside crates.  Nothing in this module is proved;
//! the contracts below are the assumptions the rest of the crate rests on.
use vstd::prelude::*;

verus! {

/// `jiff::Zoned`, an instant in a time zone.  The arena only stores such
/// values; it never looks inside one.
#[verifier::external_type_specification]
#[verifier::external_body]
pub struct ExZoned(jiff::Zoned);

/// Whether `c` is one of `0`-`9`, `a`-`f`.
pub open spec fn is_lower_hex(c: char) -> bool {
    ('0' <= c && c <= '9') || ('a' <= c && c <= 'f')
}

/// The textual shape of a random (version 4) UUID in its hyphenated
/// lower-case form, `xxxxxxxx-xxxx-4xxx-yxxx-xxxxxxxxxxxx`, where `y` is
/// one of `8`, `9`, `a`, `b`.
pub open spec fn is_uuid_text(s: Seq<char>) -> bool {
    &&& s.len() == 36
    &&& s[8] == '-' && s[13] == '-' && s[18] == '-' && s[23] == '-'
    &&& forall|i: int|
        0 <= i < 36 && i != 8 && i != 13 && i != 18 && i != 23 ==> is_lower_hex(#[trigger] s[i])
    &&& s[14] == '4'
    &&& (s[19] == '8' || s[19] == '9' || s[19] == 'a' || s[19] == 'b')
}

/// Reads the clock: `jiff::Zoned::now()`.
///
/// Nothing is claimed about the instant returned.  The call aborts when the
/// system clock is set outside the years -9999 to 9999.
#[verifier::external_body]
pub(crate) fn now() -> jiff::Zoned {
    jiff::Zoned::now()
}

/// Draws a new identifier: `uuid::Uuid::new_v4()`, rendered by its `Display`
/// impl.
///
/// The contract claims the shape of the text only.  That two identifiers
/// differ is overwhelmingly likely but is not claimed.  The call aborts when
/// the operating system cannot supply random bytes.
#[verifier::external_body]
pub(crate) fn fresh_id() -> (id: String)
    ensures
        is_uuid_text(id@),
{
    uuid::Uuid::new_v4().to_string()
}

} // verus!
