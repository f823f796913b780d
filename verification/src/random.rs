//! Random identifiers and salts.
use vstd::prelude::*;

verus! {

/// Length of a salt, in bytes.
pub const RANDOM_SALT_LEN: usize = 32;

/// A lower-case hexadecimal digit.
pub open spec fn is_lower_hex(c: char) -> bool {
    ('0' <= c <= '9') || ('a' <= c <= 'f')
}

/// The hyphenated lower-case text of a version-4 UUID: 32 hexadecimal digits in groups of
/// 8, 4, 4, 4 and 12 separated by `-`, with version digit `4` and a variant digit of
/// `8`, `9`, `a` or `b`.
pub open spec fn is_uuid_v4_text(s: Seq<char>) -> bool {
    &&& s.len() == 36
    &&& forall|i: int| 0 <= i < 36 ==> if i == 8 || i == 13 || i == 18 || i == 23 {
        #[trigger] s[i] == '-'
    } else {
        is_lower_hex(s[i])
    }
    &&& s[14] == '4'
    &&& (s[19] == '8' || s[19] == '9' || s[19] == 'a' || s[19] == 'b')
}

/// `uuid::Uuid::new_v4().to_string()`: a random version-4 UUID in its hyphenated
/// lower-case text form. Which UUID comes out is left open.
#[verifier::external_body]
pub(crate) fn new_uuid() -> (s: String)
    ensures
        is_uuid_v4_text(s@),
{
    uuid::Uuid::new_v4().to_string()
}

/// 32 random bytes: `rand::random`, which draws from `rand::thread_rng`.
#[verifier::external_body]
pub(crate) fn random_salt() -> (salt: Vec<u8>)
    ensures
        salt@.len() == RANDOM_SALT_LEN,
{
    rand::random::<[u8; 32]>().to_vec()
}

} // verus!
