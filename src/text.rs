//! Character-level helpers for building identifiers and digests.

use vstd::prelude::*;

verus! {

/// Relies on `String::push`: appends one character at the end.
#[verifier::external_body]
pub(crate) fn push_char(s: &mut String, c: char)
    ensures
        final(s)@ == old(s)@.push(c),
{
    s.push(c)
}

/// The lowercase hexadecimal digit for a value below sixteen.
pub open spec fn hex_char(d: nat) -> char {
    if d < 10 {
        (('0' as u8) + d) as char
    } else {
        (('a' as u8) + (d - 10)) as char
    }
}

/// The low `n` hexadecimal digits of `x`, most significant first.
pub open spec fn hex_fixed(x: nat, n: nat) -> Seq<char>
    decreases n,
{
    if n == 0 {
        Seq::empty()
    } else {
        hex_fixed(x / 16, (n - 1) as nat).push(hex_char(x % 16))
    }
}

/// The decimal digits of `x`, most significant first, without leading zeros.
pub open spec fn dec_digits(x: nat) -> Seq<char>
    decreases x,
{
    if x < 10 {
        seq![(('0' as u8) + x) as char]
    } else {
        dec_digits(x / 10).push((('0' as u8) + (x % 10)) as char)
    }
}

/// `s` left-padded with zeros to at least `w` characters.
pub open spec fn zero_padded(s: Seq<char>, w: nat) -> Seq<char> {
    if s.len() >= w {
        s
    } else {
        Seq::new((w - s.len()) as nat, |_i: int| '0') + s
    }
}

fn hex_digit(d: u64) -> (c: char)
    requires
        d < 16,
    ensures
        c == hex_char(d as nat),
{
    if d < 10 {
        ((48u8 + d as u8) as char)
    } else {
        ((97u8 + (d - 10) as u8) as char)
    }
}

/// Appends the low `n` hexadecimal digits of `x`.
pub fn push_hex(x: u64, n: usize, out: &mut String)
    ensures
        final(out)@ == old(out)@ + hex_fixed(x as nat, n as nat),
    decreases n,
{
    if n > 0 {
        push_hex(x / 16, n - 1, out);
        let c = hex_digit(x % 16);
        push_char(out, c);
        assert(out@ =~= old(out)@ + hex_fixed(x as nat, n as nat));
    } else {
        assert(out@ =~= old(out)@ + hex_fixed(x as nat, n as nat));
    }
}

/// Appends the decimal digits of `x`.
pub fn push_decimal(x: u64, out: &mut String)
    ensures
        final(out)@ == old(out)@ + dec_digits(x as nat),
    decreases x,
{
    if x < 10 {
        push_char(out, (48u8 + x as u8) as char);
        assert(out@ =~= old(out)@ + dec_digits(x as nat));
    } else {
        push_decimal(x / 10, out);
        push_char(out, (48u8 + (x % 10) as u8) as char);
        assert(out@ =~= old(out)@ + dec_digits(x as nat));
    }
}

pub open spec fn pow10(k: nat) -> nat
    decreases k,
{
    if k == 0 {
        1
    } else {
        10 * pow10((k - 1) as nat)
    }
}

proof fn lemma_dec_digits_len(x: nat, k: nat)
    requires
        1 <= k,
        x < pow10(k),
    ensures
        1 <= dec_digits(x).len() <= k,
    decreases x,
{
    if x >= 10 {
        assert(k >= 2) by {
            if k == 1 {
                reveal_with_fuel(pow10, 2);
            }
        }
        let p = pow10((k - 1) as nat);
        assert(x / 10 < p) by (nonlinear_arith)
            requires
                x < 10 * p,
        ;
        lemma_dec_digits_len(x / 10, (k - 1) as nat);
    }
}

proof fn lemma_u64_digits(x: u64)
    ensures
        1 <= dec_digits(x as nat).len() <= 20,
{
    reveal_with_fuel(pow10, 21);
    lemma_dec_digits_len(x as nat, 20);
}

fn decimal_len(x: u64) -> (n: usize)
    ensures
        n as nat == dec_digits(x as nat).len(),
    decreases x,
{
    proof {
        lemma_u64_digits(x);
    }
    if x < 10 {
        1
    } else {
        let k = decimal_len(x / 10);
        proof {
            lemma_u64_digits(x / 10);
        }
        k + 1
    }
}

/// Appends `x` in decimal, left-padded with zeros to at least `w` digits.
pub fn push_decimal_padded(x: u64, w: usize, out: &mut String)
    ensures
        final(out)@ == old(out)@ + zero_padded(dec_digits(x as nat), w as nat),
{
    let n = decimal_len(x);
    let mut i: usize = n;
    while i < w
        invariant
            n <= i,
            i <= w || i == n,
            out@ == old(out)@ + Seq::new((i - n) as nat, |_j: int| '0'),
        decreases w - i,
    {
        push_char(out, '0');
        i = i + 1;
        assert(out@ =~= old(out)@ + Seq::new((i - n) as nat, |_j: int| '0'));
    }
    push_decimal(x, out);
    assert(out@ =~= old(out)@ + zero_padded(dec_digits(x as nat), w as nat));
}

} // verus!
