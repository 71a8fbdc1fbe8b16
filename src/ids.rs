use vstd::prelude::*;
use crate::text::push_char;

verus! {

/// Number of characters in a token made by `generate_secure_token`.
pub const TOKEN_LEN: usize = 32;

/// The characters a secure token is made of: ASCII digits and letters.
pub open spec fn is_token_char(c: char) -> bool {
    ('0' <= c && c <= '9') || ('A' <= c && c <= 'Z') || ('a' <= c && c <= 'z')
}

pub assume_specification<T>[ rand::random::<T> ]() -> (r: T)
    where
        rand::distributions::Standard: rand::distributions::Distribution<T>,
;

/// A lower-case hexadecimal digit.
pub open spec fn is_lower_hex(c: char) -> bool {
    ('0' <= c && c <= '9') || ('a' <= c && c <= 'f')
}

/// The hyphenated text of a version 4 UUID: 36 characters, hyphens at
/// positions 8, 13, 18 and 23, lower-case hex digits elsewhere, the version
/// digit `4` at position 14 and one of `8`, `9`, `a`, `b` at position 19.
pub open spec fn is_uuid_v4_text(s: Seq<char>) -> bool {
    &&& s.len() == 36
    &&& forall|i: int|
        0 <= i < 36 ==> if i == 8 || i == 13 || i == 18 || i == 23 {
            #[trigger] s[i] == '-'
        } else {
            is_lower_hex(s[i])
        }
    &&& s[14] == '4'
    &&& (s[19] == '8' || s[19] == '9' || s[19] == 'a' || s[19] == 'b')
}

/// Relies on uuid's `Uuid::new_v4` and its hyphenated lower-case text form
/// (`Display`): a random version 4 UUID.
#[verifier::external_body]
pub(crate) fn new_uuid() -> (r: String)
    ensures
        is_uuid_v4_text(r@),
{
    uuid::Uuid::new_v4().to_string()
}

/// The character a pair of random bytes selects: `kind` picks digit, upper
/// or lower case letter, `pick` the character within that class.
fn token_char(kind: u8, pick: u8) -> (c: char)
    ensures
        is_token_char(c),
        kind % 3 == 0 ==> c as u32 == 48 + pick % 10,
        kind % 3 == 1 ==> c as u32 == 65 + pick % 26,
        kind % 3 == 2 ==> c as u32 == 97 + pick % 26,
{
    if kind % 3 == 0 {
        (pick % 10 + 48) as char
    } else if kind % 3 == 1 {
        (pick % 26 + 65) as char
    } else {
        (pick % 26 + 97) as char
    }
}

/// A random token of `TOKEN_LEN` ASCII letters and digits.
pub fn generate_secure_token() -> (token: String)
    ensures
        token@.len() == TOKEN_LEN,
        forall|i: int| 0 <= i < token@.len() ==> is_token_char(#[trigger] token@[i]),
{
    let mut token = String::new();
    let mut n: usize = 0;
    while n < TOKEN_LEN
        invariant
            n <= TOKEN_LEN,
            token@.len() == n,
            forall|i: int| 0 <= i < token@.len() ==> is_token_char(#[trigger] token@[i]),
        decreases TOKEN_LEN - n,
    {
        let kind: u8 = rand::random::<u8>();
        let pick: u8 = rand::random::<u8>();
        let c = token_char(kind, pick);
        push_char(&mut token, c);
        n = n + 1;
    }
    token
}

} // verus!
