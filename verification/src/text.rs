//! Hexadecimal and decimal digit characters, and the conversion of a
//! vector of characters into a `String`.

use vstd::prelude::*;

verus! {

/// Numeric value of a hexadecimal digit character, either case;
/// 16 for any character that is not a hexadecimal digit.
pub open spec fn hex_digit_value(c: char) -> nat {
    let v = c as u32;
    if 48 <= v && v <= 57 {
        // '0' ..= '9'
        (v - 48) as nat
    } else if 65 <= v && v <= 70 {
        // 'A' ..= 'F'
        (v - 55) as nat
    } else if 97 <= v && v <= 102 {
        // 'a' ..= 'f'
        (v - 87) as nat
    } else {
        16
    }
}

/// Whether `c` is a hexadecimal digit character of either case.
pub open spec fn is_hex_digit(c: char) -> bool {
    hex_digit_value(c) < 16
}

/// The lower-case hexadecimal digit character of a value below 16.
/// For values below 10 this is also the decimal digit character.
pub open spec fn hex_char(d: nat) -> char {
    if d < 10 {
        ((48 + d) as u8) as char
    } else {
        ((87 + d) as u8) as char
    }
}

/// A digit's character carries exactly the digit's value.
pub proof fn lemma_hex_char_value(d: nat)
    requires
        d < 16,
    ensures
        is_hex_digit(hex_char(d)),
        hex_digit_value(hex_char(d)) == d,
{
}

/// Numeric value of a hexadecimal digit character, or `None` when the
/// character is no such digit.
pub fn hex_digit_value_exec(c: char) -> (r: Option<u8>)
    ensures
        match r {
            Some(v) => is_hex_digit(c) && v == hex_digit_value(c),
            None => !is_hex_digit(c),
        },
{
    let v = c as u32;
    if 48 <= v && v <= 57 {
        Some((v - 48) as u8)
    } else if 65 <= v && v <= 70 {
        Some((v - 55) as u8)
    } else if 97 <= v && v <= 102 {
        Some((v - 87) as u8)
    } else {
        None
    }
}

/// The lower-case hexadecimal digit character of a value below 16.
pub fn hex_char_exec(d: u8) -> (c: char)
    requires
        d < 16,
    ensures
        c == hex_char(d as nat),
{
    if d < 10 {
        (48 + d) as char
    } else {
        (87 + d) as char
    }
}

/// Hexadecimal text of a byte string: two lower-case digits a byte,
/// high digit first.
pub open spec fn spec_hex_encode(b: Seq<u8>) -> Seq<char> {
    Seq::new(
        2 * b.len(),
        |i: int|
            if i % 2 == 0 {
                hex_char((b[i / 2] / 16) as nat)
            } else {
                hex_char((b[i / 2] % 16) as nat)
            },
    )
}

/// Appends the hexadecimal text of `b` to `out`.
pub fn push_hex_chars(b: &Vec<u8>, out: &mut Vec<char>)
    ensures
        final(out)@ == old(out)@ + spec_hex_encode(b@),
{
    let mut i: usize = 0;
    while i < b.len()
        invariant
            i <= b@.len(),
            out@.len() == old(out)@.len() + 2 * i,
            forall|k: int| 0 <= k < old(out)@.len() ==> out@[k] == old(out)@[k],
            forall|k: int|
                0 <= k < 2 * i ==> out@[old(out)@.len() + k] == spec_hex_encode(b@)[k],
        decreases b@.len() - i,
    {
        let byte = b[i];
        out.push(hex_char_exec(byte / 16));
        out.push(hex_char_exec(byte % 16));
        i += 1;
    }
    assert(out@ =~= old(out)@ + spec_hex_encode(b@));
}

/// Hexadecimal text of a byte string, two lower-case digits a byte.
pub fn encode_hex(bytes: &Vec<u8>) -> (r: String)
    ensures
        r@ == spec_hex_encode(bytes@),
{
    let mut v: Vec<char> = Vec::new();
    push_hex_chars(bytes, &mut v);
    proof {
        assert(v@ =~= spec_hex_encode(bytes@));
    }
    chars_to_string(&v)
}

/// Relies on `String`'s `FromIterator<char>` implementation: collecting
/// characters yields the string of exactly those characters, in order.
#[verifier::external_body]
pub(crate) fn chars_to_string(v: &Vec<char>) -> (r: String)
    ensures
        r@ == v@,
{
    v.iter().collect()
}

} // verus!
