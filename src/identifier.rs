use vstd::prelude::*;

verus! {

/// Number of characters in a client identifier: 32 bytes written as hex.
pub const CLIENT_IDENTIFIER_LEN: usize = 64;

pub open spec fn is_hex_char(c: char) -> bool {
    ('0' <= c && c <= '9') || ('a' <= c && c <= 'f') || ('A' <= c && c <= 'F')
}

/// A well-formed client identifier: exactly 64 hexadecimal characters.
pub open spec fn valid_client_identifier(s: Seq<char>) -> bool {
    &&& s.len() == CLIENT_IDENTIFIER_LEN
    &&& forall|i: int| 0 <= i < s.len() ==> is_hex_char(#[trigger] s[i])
}

pub fn is_hex_digit(c: char) -> (r: bool)
    ensures
        r == is_hex_char(c),
{
    ('0' <= c && c <= '9') || ('a' <= c && c <= 'f') || ('A' <= c && c <= 'F')
}

/// Checks the shape of a client identifier before anything else looks at it.
pub fn is_valid_client_identifier(id: &str) -> (r: bool)
    ensures
        r == valid_client_identifier(id@),
{
    let n = id.unicode_len();
    if n != CLIENT_IDENTIFIER_LEN {
        return false;
    }
    let mut i: usize = 0;
    while i < n
        invariant
            n == id@.len(),
            n == CLIENT_IDENTIFIER_LEN,
            i <= n,
            forall|j: int| 0 <= j < i ==> is_hex_char(#[trigger] id@[j]),
        decreases n - i,
    {
        if !is_hex_digit(id.get_char(i)) {
            return false;
        }
        i += 1;
    }
    true
}

} // verus!
