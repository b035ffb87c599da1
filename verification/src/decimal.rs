//! Decimal rendering of integers: plain, zero-padded, and as a fraction
//! part with trailing zeros trimmed. The savers build their numeric text
//! from these.

use vstd::prelude::*;
use crate::text::push_char;

verus! {

/// The character of one decimal digit.
pub open spec fn digit_char(d: nat) -> char {
    if d == 0 {
        '0'
    } else if d == 1 {
        '1'
    } else if d == 2 {
        '2'
    } else if d == 3 {
        '3'
    } else if d == 4 {
        '4'
    } else if d == 5 {
        '5'
    } else if d == 6 {
        '6'
    } else if d == 7 {
        '7'
    } else if d == 8 {
        '8'
    } else {
        '9'
    }
}

/// The decimal rendering of a natural number, without sign or padding.
pub open spec fn dec_of(n: nat) -> Seq<char>
    decreases n,
{
    if n < 10 {
        seq![digit_char(n)]
    } else {
        dec_of(n / 10).push(digit_char(n % 10))
    }
}

fn digit_to_char(d: u64) -> (c: char)
    requires
        d < 10,
    ensures
        c == digit_char(d as nat),
{
    if d == 0 {
        '0'
    } else if d == 1 {
        '1'
    } else if d == 2 {
        '2'
    } else if d == 3 {
        '3'
    } else if d == 4 {
        '4'
    } else if d == 5 {
        '5'
    } else if d == 6 {
        '6'
    } else if d == 7 {
        '7'
    } else if d == 8 {
        '8'
    } else {
        '9'
    }
}

/// Renders `n` in decimal, as [`dec_of`] describes.
pub fn u64_to_dec(n: u64) -> (r: String)
    ensures
        r@ == dec_of(n as nat),
    decreases n,
{
    if n < 10 {
        let mut s = String::new();
        push_char(&mut s, digit_to_char(n));
        proof {
            assert(Seq::<char>::empty().push(digit_char(n as nat)) =~= seq![
                digit_char(n as nat),
            ]);
        }
        s
    } else {
        let mut s = u64_to_dec(n / 10);
        push_char(&mut s, digit_to_char(n % 10));
        s
    }
}

/// A run of `k` zero characters.
pub open spec fn zeros(k: nat) -> Seq<char>
    decreases k,
{
    if k == 0 {
        Seq::empty()
    } else {
        zeros((k - 1) as nat).push('0')
    }
}

/// The decimal rendering of `n`, left-padded with zeros to at least
/// `width` characters.
pub open spec fn padded(n: nat, width: nat) -> Seq<char> {
    if dec_of(n).len() >= width {
        dec_of(n)
    } else {
        zeros((width - dec_of(n).len()) as nat) + dec_of(n)
    }
}

/// Renders `n` zero-padded, as [`padded`] describes.
pub fn u64_to_dec_padded(n: u64, width: usize) -> (r: String)
    ensures
        r@ == padded(n as nat, width as nat),
{
    let d = u64_to_dec(n);
    let dlen = d.as_str().unicode_len();
    if dlen >= width {
        return d;
    }
    let mut s = String::new();
    let mut i: usize = 0;
    while i < width - dlen
        invariant
            0 <= i <= width - dlen,
            dlen == dec_of(n as nat).len(),
            dlen < width,
            s@ == zeros(i as nat),
        decreases width - dlen - i,
    {
        push_char(&mut s, '0');
        i += 1;
    }
    s.append(d.as_str());
    s
}

/// The fraction part of a scaled value: `frac` rendered to `width`
/// digits, with trailing zero digits removed; empty when `frac` is zero.
pub open spec fn trimmed_frac(frac: nat, width: nat) -> Seq<char>
    decreases width,
{
    if width == 0 {
        Seq::empty()
    } else if frac % 10 == 0 {
        trimmed_frac(frac / 10, (width - 1) as nat)
    } else {
        padded(frac, width)
    }
}

/// The decimal point and trimmed fraction digits of a scaled value, or
/// nothing when the fraction is zero.
pub open spec fn frac_part(frac: nat, width: nat) -> Seq<char> {
    if frac == 0 {
        Seq::empty()
    } else {
        "."@ + trimmed_frac(frac, width)
    }
}

/// Renders a fraction part, as [`trimmed_frac`] describes.
pub fn frac_to_trimmed(frac: u64, width: usize) -> (r: String)
    ensures
        r@ == trimmed_frac(frac as nat, width as nat),
{
    let mut f = frac;
    let mut w = width;
    while w > 0 && f % 10 == 0
        invariant
            trimmed_frac(frac as nat, width as nat) == trimmed_frac(f as nat, w as nat),
        decreases w,
    {
        f = f / 10;
        w = w - 1;
    }
    if w == 0 {
        String::new()
    } else {
        u64_to_dec_padded(f, w)
    }
}

} // verus!
