//! Identity parts: the one charset that outputs, wallpaper ids, plugins and
//! connectors share.

use vstd::prelude::*;

verus! {

/// The longest identity part, in characters.
pub const MAX_IDENTITY_CHARS: usize = 128;

pub open spec fn identity_char(c: char) -> bool {
    ||| 'a' <= c && c <= 'z'
    ||| 'A' <= c && c <= 'Z'
    ||| '0' <= c && c <= '9'
    ||| c == '.'
    ||| c == '_'
    ||| c == '-'
}

/// Every character belongs to the identity charset.
pub open spec fn identity_chars(s: Seq<char>) -> bool {
    forall|i: int| 0 <= i < s.len() ==> identity_char(#[trigger] s[i])
}

/// 1..=128 characters of the identity charset.
pub open spec fn valid_identity(s: Seq<char>) -> bool {
    1 <= s.len() <= MAX_IDENTITY_CHARS && identity_chars(s)
}

/// What a rejected identity part is answered.
pub open spec fn identity_error(label: Seq<char>) -> Seq<char> {
    label + " must be 1..=128 ASCII letters, digits, '.', '_', or '-'"@
}

/// Whether `c` belongs to the identity charset.
pub fn is_identity_char(c: char) -> (yes: bool)
    ensures
        yes == identity_char(c),
{
    (c >= 'a' && c <= 'z') || (c >= 'A' && c <= 'Z') || (c >= '0' && c <= '9') || c == '.' || c
        == '_' || c == '-'
}

/// Whether every character of `value` belongs to the identity charset.
pub fn has_identity_chars(value: &str) -> (yes: bool)
    ensures
        yes == identity_chars(value@),
{
    for c in it: value.chars()
        invariant
            it.seq() == value@,
            forall|i: int| 0 <= i < it.index() ==> identity_char(#[trigger] value@[i]),
    {
        if !is_identity_char(c) {
            assert(!identity_char(value@[it.index() as int]));
            return false;
        }
    }
    true
}

/// Whether `value` is an identity part.
pub fn is_identity(value: &str) -> (yes: bool)
    ensures
        yes == valid_identity(value@),
{
    let count: usize = value.unicode_len();
    count >= 1 && count <= MAX_IDENTITY_CHARS && has_identity_chars(value)
}

/// Accepts an identity part; anything else is answered with the rule, under
/// the name `label`.
pub fn validate_identity_part(label: &str, value: &str) -> (checked: Result<(), String>)
    ensures
        match checked {
            Ok(()) => valid_identity(value@),
            Err(error) => !valid_identity(value@) && error@ == identity_error(label@),
        },
{
    if is_identity(value) {
        Ok(())
    } else {
        Err(label.to_owned().concat(" must be 1..=128 ASCII letters, digits, '.', '_', or '-'"))
    }
}

} // verus!
