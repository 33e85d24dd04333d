//! The 20-byte account address, and its hexadecimal text form.

use vstd::prelude::*;

use crate::errors::WalletError;
use crate::text::hex_char;
use crate::text::hex_digit_value;
use crate::text::hex_digit_value_exec;
use crate::text::is_hex_digit;
use crate::text::push_hex_chars;
use crate::text::spec_hex_encode;
use crate::text::chars_to_string;
use crate::text::lemma_hex_char_value;

verus! {

/// A 20-byte account identifier on the ledger.
#[derive(Debug)]
pub struct AccountAddress {
    pub bytes: Vec<u8>,
}

impl View for AccountAddress {
    type V = Seq<u8>;

    open spec fn view(&self) -> Seq<u8> {
        self.bytes@
    }
}

impl AccountAddress {
    /// An address always holds exactly 20 bytes.
    pub open spec fn wf(&self) -> bool {
        self@.len() == 20
    }

    /// The address as text: "0x" followed by 40 lower-case
    /// hexadecimal digits.
    pub fn to_hex_string(&self) -> (r: String)
        requires
            self.wf(),
        ensures
            r@ == seq!['0', 'x'] + spec_hex_encode(self@),
    {
        let mut v: Vec<char> = Vec::new();
        v.push('0');
        v.push('x');
        push_hex_chars(&self.bytes, &mut v);
        proof {
            assert(v@ =~= seq!['0', 'x'] + spec_hex_encode(self@));
        }
        chars_to_string(&v)
    }
}

/// Address text with a leading "0x" or "0X" stripped; any other text
/// unchanged.
pub open spec fn spec_strip_hex_prefix(s: Seq<char>) -> Seq<char> {
    if s.len() >= 2 && s[0] == '0' && (s[1] == 'x' || s[1] == 'X') {
        s.subrange(2, s.len() as int)
    } else {
        s
    }
}

/// Valid address text: after an optional "0x" or "0X" prefix, exactly
/// 40 hexadecimal digits of either case.
pub open spec fn spec_is_valid_address_text(s: Seq<char>) -> bool {
    let h = spec_strip_hex_prefix(s);
    h.len() == 40 && (forall|i: int| 0 <= i < 40 ==> is_hex_digit(h[i]))
}

/// The bytes encoded by hexadecimal text, one byte for two digits,
/// high digit first.
pub open spec fn spec_hex_decode(h: Seq<char>) -> Seq<u8> {
    Seq::new(
        h.len() / 2,
        |j: int| (16 * hex_digit_value(h[2 * j]) + hex_digit_value(h[2 * j + 1])) as u8,
    )
}

/// What parsing address text yields: the 20 decoded bytes on valid
/// text, nothing otherwise.
pub open spec fn spec_parse_address(s: Seq<char>) -> Option<Seq<u8>> {
    if spec_is_valid_address_text(s) {
        Some(spec_hex_decode(spec_strip_hex_prefix(s)))
    } else {
        None
    }
}

/// Parses address text into an `AccountAddress`.
///
/// Succeeds exactly on valid address text — 40 hexadecimal digits of
/// any letter case, with or without a "0x" or "0X" prefix — and yields the 20
/// bytes that the digits encode. Any other text is rejected as
/// `InvalidAddress`, which carries the offending input.
pub fn parse_address(text: &str) -> (r: Result<AccountAddress, WalletError>)
    ensures
        match r {
            Ok(a) => a.wf() && spec_parse_address(text@) == Some(a@),
            Err(e) => spec_parse_address(text@) is None && (e matches WalletError::InvalidAddress {
                input,
            } && input@ == text@),
        },
{
    let n = text.unicode_len();
    let offset: usize = if n == 42 {
        let second = text.get_char(1);
        if text.get_char(0) == '0' && (second == 'x' || second == 'X') {
            2
        } else {
            proof {
                assert(spec_strip_hex_prefix(text@) == text@);
            }
            return Err(WalletError::InvalidAddress { input: text.to_owned() });
        }
    } else if n == 40 {
        0
    } else {
        proof {
            assert(spec_strip_hex_prefix(text@).len() != 40);
        }
        return Err(WalletError::InvalidAddress { input: text.to_owned() });
    };
    let mut bytes: Vec<u8> = Vec::new();
    let mut i: usize = 0;
    while i < 20
        invariant
            0 <= i <= 20,
            offset == 0 || offset == 2,
            offset + 40 == text@.len(),
            bytes@.len() == i,
            forall|k: int| offset <= k < offset + 2 * i ==> is_hex_digit(#[trigger] text@[k]),
            forall|j: int|
                0 <= j < i ==> #[trigger] bytes@[j] == 16 * hex_digit_value(text@[offset + 2 * j])
                    + hex_digit_value(text@[offset + 2 * j + 1]),
        decreases 20 - i,
    {
        let hi = match hex_digit_value_exec(text.get_char(offset + 2 * i)) {
            Some(v) => v,
            None => {
                proof {
                    lemma_invalid_at(text@, offset as int, offset + 2 * i);
                }
                return Err(WalletError::InvalidAddress { input: text.to_owned() });
            },
        };
        let lo = match hex_digit_value_exec(text.get_char(offset + 2 * i + 1)) {
            Some(v) => v,
            None => {
                proof {
                    lemma_invalid_at(text@, offset as int, offset + 2 * i + 1);
                }
                return Err(WalletError::InvalidAddress { input: text.to_owned() });
            },
        };
        bytes.push(16 * hi + lo);
        i += 1;
    }
    proof {
        lemma_all_hex_parses(text@, offset as int, bytes@);
    }
    Ok(AccountAddress { bytes })
}

/// A non-digit character among the 40 expected ones makes the whole
/// text invalid.
proof fn lemma_invalid_at(s: Seq<char>, offset: int, k: int)
    requires
        offset == 0 || offset == 2,
        offset + 40 == s.len(),
        offset <= k < s.len(),
        !is_hex_digit(s[k]),
    ensures
        spec_parse_address(s) is None,
{
    let h = spec_strip_hex_prefix(s);
    if s.len() >= 2 && s[0] == '0' && (s[1] == 'x' || s[1] == 'X') {
        if offset == 2 {
            assert(h[k - 2] == s[k]);
        } else {
            assert(h.len() == 38);
        }
    } else {
        assert(h == s);
        if offset == 2 {
            assert(h.len() == 42);
        } else {
            assert(h[k] == s[k]);
        }
    }
}

/// Forty hexadecimal digits from `offset` make the text valid, and the
/// bytes assembled pairwise are its decoding.
proof fn lemma_all_hex_parses(s: Seq<char>, offset: int, bytes: Seq<u8>)
    requires
        offset == 0 || offset == 2,
        offset + 40 == s.len(),
        offset == 2 ==> s[0] == '0' && (s[1] == 'x' || s[1] == 'X'),
        bytes.len() == 20,
        forall|k: int| offset <= k < offset + 40 ==> is_hex_digit(#[trigger] s[k]),
        forall|j: int|
            0 <= j < 20 ==> #[trigger] bytes[j] == 16 * hex_digit_value(s[offset + 2 * j])
                + hex_digit_value(s[offset + 2 * j + 1]),
    ensures
        spec_parse_address(s) == Some(bytes),
{
    let h = spec_strip_hex_prefix(s);
    if offset == 0 {
        // With all 40 characters hexadecimal digits, the second one
        // can be neither 'x' nor 'X', so nothing is stripped.
        assert(is_hex_digit(s[1]));
        assert(s[1] != 'x' && s[1] != 'X');
        assert(h == s);
    } else {
        assert(h =~= s.subrange(2, s.len() as int));
    }
    assert(h.len() == 40);
    assert forall|k: int| 0 <= k < 40 implies is_hex_digit(h[k]) by {
        assert(h[k] == s[offset + k]);
    }
    assert(spec_is_valid_address_text(s));
    assert forall|j: int| 0 <= j < 20 implies spec_hex_decode(h)[j] == bytes[j] by {
        assert(h[2 * j] == s[offset + 2 * j]);
        assert(h[2 * j + 1] == s[offset + 2 * j + 1]);
    }
    assert(spec_hex_decode(h) =~= bytes);
}

/// Two characters that are the same, or are the same hexadecimal
/// letter ('a' through 'f') in different case. Digits have no case, so
/// they must be identical.
pub open spec fn same_hex_letter(a: char, b: char) -> bool {
    let va = a as u32;
    let vb = b as u32;
    a == b || (65 <= va && va <= 70 && vb == va + 32) || (97 <= va && va <= 102 && va == vb + 32)
}

/// Parsing ignores letter case: two address texts whose characters
/// agree up to the case of their hexadecimal digits parse alike —
/// either both are invalid, or both yield the same 20 bytes.
pub proof fn lemma_parse_case_insensitive(s1: Seq<char>, s2: Seq<char>)
    requires
        s1.len() == s2.len(),
        forall|i: int| 0 <= i < s1.len() ==> same_hex_letter(#[trigger] s1[i], s2[i]),
    ensures
        spec_parse_address(s1) == spec_parse_address(s2),
{
    let h1 = spec_strip_hex_prefix(s1);
    let h2 = spec_strip_hex_prefix(s2);
    if s1.len() >= 2 {
        // The prefix test comes out the same on both texts: neither
        // '0' nor 'x' is a hexadecimal letter with a second case.
        assert(same_hex_letter(s1[0], s2[0]));
        assert(same_hex_letter(s1[1], s2[1]));
        assert(s1[0] == '0' <==> s2[0] == '0');
        assert(s1[1] == 'x' <==> s2[1] == 'x');
        assert(s1[1] == 'X' <==> s2[1] == 'X');
    }
    let stripped = s1.len() >= 2 && s1[0] == '0' && (s1[1] == 'x' || s1[1] == 'X');
    assert(h1.len() == h2.len());
    assert forall|k: int| 0 <= k < h1.len() implies same_hex_letter(#[trigger] h1[k], h2[k]) by {
        if stripped {
            assert(h1[k] == s1[k + 2]);
            assert(h2[k] == s2[k + 2]);
            assert(same_hex_letter(s1[k + 2], s2[k + 2]));
        } else {
            assert(same_hex_letter(s1[k], s2[k]));
        }
    }
    if spec_is_valid_address_text(s1) {
        assert forall|k: int| 0 <= k < 40 implies is_hex_digit(#[trigger] h2[k]) by {
            assert(same_hex_letter(h1[k], h2[k]));
            assert(is_hex_digit(h1[k]));
        }
        assert(spec_is_valid_address_text(s2));
    }
    if spec_is_valid_address_text(s2) {
        assert forall|k: int| 0 <= k < 40 implies is_hex_digit(#[trigger] h1[k]) by {
            assert(same_hex_letter(h1[k], h2[k]));
            assert(is_hex_digit(h2[k]));
        }
        assert(spec_is_valid_address_text(s1));
    }
    if spec_is_valid_address_text(s1) {
        assert forall|j: int| 0 <= j < 20 implies spec_hex_decode(h1)[j] == spec_hex_decode(
            h2,
        )[j] by {
            assert(same_hex_letter(h1[2 * j], h2[2 * j]));
            assert(same_hex_letter(h1[2 * j + 1], h2[2 * j + 1]));
        }
        assert(spec_hex_decode(h1) =~= spec_hex_decode(h2));
    }
}

/// Parsing ignores the prefix: putting "0x" or "0X" before a bare
/// address text changes nothing in the outcome.
pub proof fn lemma_parse_prefix_insensitive(s: Seq<char>, x: char)
    requires
        x == 'x' || x == 'X',
        !(s.len() >= 2 && s[0] == '0' && (s[1] == 'x' || s[1] == 'X')),
    ensures
        spec_parse_address(seq!['0', x] + s) == spec_parse_address(s),
{
    let t = seq!['0', x] + s;
    assert(t[0] == '0' && (t[1] == 'x' || t[1] == 'X'));
    assert(spec_strip_hex_prefix(t) =~= s);
    assert(spec_strip_hex_prefix(s) == s);
}

/// Rendering an address as hexadecimal text and parsing that text
/// yields the very same bytes.
pub proof fn lemma_hex_text_round_trip(b: Seq<u8>)
    requires
        b.len() == 20,
    ensures
        spec_parse_address(seq!['0', 'x'] + spec_hex_encode(b)) == Some(b),
{
    let e = spec_hex_encode(b);
    let t = seq!['0', 'x'] + e;
    assert(t[0] == '0' && t[1] == 'x');
    assert(spec_strip_hex_prefix(t) =~= e);
    assert forall|k: int| 0 <= k < 40 implies is_hex_digit(#[trigger] e[k]) by {
        if k % 2 == 0 {
            lemma_hex_char_value((b[k / 2] / 16) as nat);
        } else {
            lemma_hex_char_value((b[k / 2] % 16) as nat);
        }
    }
    assert(spec_is_valid_address_text(t));
    assert forall|j: int| 0 <= j < 20 implies spec_hex_decode(e)[j] == b[j] by {
        lemma_hex_char_value((b[j] / 16) as nat);
        lemma_hex_char_value((b[j] % 16) as nat);
        assert(e[2 * j] == hex_char((b[j] / 16) as nat));
        assert(e[2 * j + 1] == hex_char((b[j] % 16) as nat));
    }
    assert(spec_hex_decode(e) =~= b);
}

} // verus!
