//! What the engine takes from outside itself: the time of day, fresh
//! identities, and the decoding of names that arrive as bytes.

use vstd::prelude::*;
use crate::metadata::Timespec;
use vstd::utf8::decode_utf8;
use vstd::utf8::valid_utf8;

verus! {

pub open spec fn is_lower_hex(c: char) -> bool {
    (0x30 <= c as u32 <= 0x39) || (0x61 <= c as u32 <= 0x66)
}

/// The text form of a random identity: 36 characters, lower-case
/// hexadecimal digits in groups of 8, 4, 4, 4 and 12 with a hyphen between
/// them; the third group starts with the version, 4, the fourth with one of
/// the variant's digits 8, 9, a and b.
pub open spec fn is_identity_text(s: Seq<char>) -> bool {
    &&& s.len() == 36
    &&& forall|i: int|
        0 <= i < 36 ==> if i == 8 || i == 13 || i == 18 || i == 23 {
            #[trigger] s[i] == '-'
        } else {
            is_lower_hex(s[i])
        }
    &&& s[14] == '4'
    &&& s[19] == '8' || s[19] == '9' || s[19] == 'a' || s[19] == 'b'
}

/// A moment whose nanoseconds lie within one second.
pub open spec fn is_moment(t: Timespec) -> bool {
    0 <= t.nsec < 1_000_000_000
}

/// The time of day, from `time::get_time`. The crate builds its result with
/// `Timespec::new`, which admits only nanoseconds from 0 up to, not
/// including, one thousand million; nothing else is known of a clock.
#[verifier::external_body]
pub(crate) fn system_time() -> (now: Timespec)
    ensures
        is_moment(now),
{
    let now = time::get_time();
    Timespec { sec: now.sec, nsec: now.nsec }
}

/// A fresh identity: `uuid::Uuid::new_v4`, a random version-4 identifier,
/// in the text form that its `Display` gives, which is the hyphenated
/// lower-case one. That it differs from every identity in use is likely and
/// not promised. Where the system has no random bytes to give, the call does
/// not come back.
#[verifier::external_body]
pub(crate) fn fresh_id() -> (id: String)
    ensures
        is_identity_text(id@),
{
    uuid::Uuid::new_v4().to_string()
}

/// Reads bytes as text with `core::str::from_utf8`, which accepts exactly
/// the well-formed UTF-8 sequences and keeps their bytes.
#[verifier::external_body]
pub(crate) fn text_of_bytes(bytes: &[u8]) -> (text: Option<String>)
    ensures
        match text {
            Some(s) => valid_utf8(bytes@) && s@ == decode_utf8(bytes@),
            None => !valid_utf8(bytes@),
        },
{
    match core::str::from_utf8(bytes) {
        Ok(s) => Some(s.to_owned()),
        Err(_) => None,
    }
}

} // verus!
