//! Conversion of a balance in wei into its decimal ether text.

use vstd::prelude::*;

use crate::text::chars_to_string;
use crate::text::hex_char;
use crate::text::hex_char_exec;

verus! {

/// One ether is 10^18 wei, the ledger's smallest unit.
pub const WEI_PER_ETHER: u128 = 1_000_000_000_000_000_000;

/// The decimal digit characters of `n`, most significant first, no
/// leading zeros (a single '0' for zero).
pub open spec fn spec_decimal(n: nat) -> Seq<char>
    decreases n,
{
    if n < 10 {
        seq![hex_char(n)]
    } else {
        spec_decimal(n / 10) + seq![hex_char(n % 10)]
    }
}

/// The last `width` decimal digit characters of `n`, zero-padded on
/// the left to exactly `width` characters.
pub open spec fn spec_padded_decimal(n: nat, width: nat) -> Seq<char>
    decreases width,
{
    if width == 0 {
        Seq::empty()
    } else {
        spec_padded_decimal(n / 10, (width - 1) as nat) + seq![hex_char(n % 10)]
    }
}

/// The text with its trailing '0' characters removed.
pub open spec fn spec_trim_trailing_zeros(s: Seq<char>) -> Seq<char>
    decreases s.len(),
{
    if s.len() > 0 && s.last() == '0' {
        spec_trim_trailing_zeros(s.drop_last())
    } else {
        s
    }
}

/// The decimal ether text of an amount of wei: the whole ethers, and,
/// when the remainder is not zero, a '.' and the 18 fractional digits
/// with trailing zeros removed.
pub open spec fn spec_format_ether(wei: nat) -> Seq<char> {
    let whole = wei / (WEI_PER_ETHER as nat);
    let frac = wei % (WEI_PER_ETHER as nat);
    if frac == 0 {
        spec_decimal(whole)
    } else {
        spec_decimal(whole) + seq!['.'] + spec_trim_trailing_zeros(
            spec_padded_decimal(frac, 18),
        )
    }
}

/// Appends the decimal digits of `n` to `out`.
fn push_decimal(n: u128, out: &mut Vec<char>)
    ensures
        final(out)@ == old(out)@ + spec_decimal(n as nat),
    decreases n,
{
    if n < 10 {
        out.push(hex_char_exec(n as u8));
    } else {
        push_decimal(n / 10, out);
        out.push(hex_char_exec((n % 10) as u8));
        assert(out@ =~= old(out)@ + spec_decimal(n as nat));
    }
}

/// Appends the last `width` decimal digits of `n`, zero-padded to
/// exactly `width` characters.
fn push_padded_decimal(n: u128, width: u8, out: &mut Vec<char>)
    ensures
        final(out)@ == old(out)@ + spec_padded_decimal(n as nat, width as nat),
    decreases width,
{
    if width > 0 {
        push_padded_decimal(n / 10, width - 1, out);
        out.push(hex_char_exec((n % 10) as u8));
        assert(out@ =~= old(out)@ + spec_padded_decimal(n as nat, width as nat));
    } else {
        assert(out@ =~= old(out)@ + spec_padded_decimal(n as nat, 0));
    }
}

/// Removes the trailing '0' characters.
fn trim_trailing_zeros(v: &mut Vec<char>)
    ensures
        final(v)@ == spec_trim_trailing_zeros(old(v)@),
{
    while v.len() > 0 && v[v.len() - 1] == '0'
        invariant
            spec_trim_trailing_zeros(v@) == spec_trim_trailing_zeros(old(v)@),
        decreases v@.len(),
    {
        proof {
            assert(v@.drop_last() =~= v@.subrange(0, v@.len() - 1));
        }
        v.pop();
    }
}

/// Renders an amount of wei as decimal ether text: the whole ethers,
/// then, if the amount has a fractional part, a '.' and the fraction's
/// digits with trailing zeros removed. `1000000000000000000` wei is
/// "1"; `1500000000000000000` wei is "1.5"; zero is "0".
pub fn format_ether(wei: u128) -> (r: String)
    ensures
        r@ == spec_format_ether(wei as nat),
{
    let whole = wei / WEI_PER_ETHER;
    let frac = wei % WEI_PER_ETHER;
    let mut v: Vec<char> = Vec::new();
    push_decimal(whole, &mut v);
    if frac != 0 {
        v.push('.');
        let mut digits: Vec<char> = Vec::new();
        push_padded_decimal(frac, 18, &mut digits);
        trim_trailing_zeros(&mut digits);
        v.append(&mut digits);
        proof {
            assert(v@ =~= spec_format_ether(wei as nat));
        }
    }
    chars_to_string(&v)
}

} // verus!
