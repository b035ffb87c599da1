//! JSON string escaping, matching the escaping rules of the serialized
//! text the native side exchanges: quote and backslash are escaped, the
//! named control escapes are used where they exist, and every other
//! control character becomes a `\u00..` escape with lowercase hex
//! digits. All other characters pass through unchanged.

use vstd::prelude::*;
use crate::text::{push_char, seq_assoc};

verus! {

/// The character of one lowercase hexadecimal digit.
pub open spec fn hex_char(d: nat) -> char {
    if d < 10 {
        crate::decimal::digit_char(d)
    } else if d == 10 {
        'a'
    } else if d == 11 {
        'b'
    } else if d == 12 {
        'c'
    } else if d == 13 {
        'd'
    } else if d == 14 {
        'e'
    } else {
        'f'
    }
}

/// The escape of one character inside a JSON string.
pub open spec fn esc_char(c: char) -> Seq<char> {
    if c == '"' {
        "\\\""@
    } else if c == '\\' {
        "\\\\"@
    } else if c == '\u{8}' {
        "\\b"@
    } else if c == '\u{c}' {
        "\\f"@
    } else if c == '\n' {
        "\\n"@
    } else if c == '\r' {
        "\\r"@
    } else if c == '\t' {
        "\\t"@
    } else if (c as u32) < 0x20 {
        "\\u00"@ + seq![hex_char((c as u32 / 16) as nat), hex_char((c as u32 % 16) as nat)]
    } else {
        seq![c]
    }
}

/// The body of a JSON string: each character escaped.
pub open spec fn json_escaped(s: Seq<char>) -> Seq<char>
    decreases s.len(),
{
    if s.len() == 0 {
        Seq::empty()
    } else {
        esc_char(s[0]) + json_escaped(s.drop_first())
    }
}

/// A complete JSON string literal: the escaped body in quotes.
pub open spec fn json_string(s: Seq<char>) -> Seq<char> {
    "\""@ + json_escaped(s) + "\""@
}

fn hex_digit_char(d: u32) -> (c: char)
    requires
        d < 16,
    ensures
        c == hex_char(d as nat),
{
    if d == 0 {
        '0'
    } else if d == 1 {
        '1'
    } else if d == 2 {
        '2'
    } else if d == 3 {
        '3'
    } else if d == 4 {
        '4'
    } else if d == 5 {
        '5'
    } else if d == 6 {
        '6'
    } else if d == 7 {
        '7'
    } else if d == 8 {
        '8'
    } else if d == 9 {
        '9'
    } else if d == 10 {
        'a'
    } else if d == 11 {
        'b'
    } else if d == 12 {
        'c'
    } else if d == 13 {
        'd'
    } else if d == 14 {
        'e'
    } else {
        'f'
    }
}

/// Appends the escaped body of `s`, as [`json_escaped`] describes.
pub fn write_json_escaped(out: &mut String, s: &str)
    ensures
        final(out)@ == old(out)@ + json_escaped(s@),
{
    let n = s.unicode_len();
    let mut i: usize = 0;
    proof {
        assert(s@.skip(0) =~= s@);
        assert(old(out)@ + Seq::<char>::empty() =~= old(out)@);
    }
    while i < n
        invariant
            0 <= i <= n,
            n == s@.len(),
            old(out)@ + json_escaped(s@) == out@ + json_escaped(s@.skip(i as int)),
        decreases n - i,
    {
        let ghost rest = s@.skip(i as int);
        let ghost out0 = out@;
        let c = s.get_char(i);
        proof {
            assert(rest[0] == s@[i as int]);
            assert(rest.drop_first() =~= s@.skip(i + 1));
        }
        if c == '"' {
            out.append("\\\"");
        } else if c == '\\' {
            out.append("\\\\");
        } else if c == '\u{8}' {
            out.append("\\b");
        } else if c == '\u{c}' {
            out.append("\\f");
        } else if c == '\n' {
            out.append("\\n");
        } else if c == '\r' {
            out.append("\\r");
        } else if c == '\t' {
            out.append("\\t");
        } else if (c as u32) < 0x20 {
            out.append("\\u00");
            let v = c as u32;
            push_char(out, hex_digit_char(v / 16));
            push_char(out, hex_digit_char(v % 16));
            proof {
                let h = seq![hex_char((c as u32 / 16) as nat), hex_char((c as u32 % 16) as nat)];
                assert(out@ =~= (out0 + "\\u00"@) + h);
                seq_assoc(out0, "\\u00"@, h);
                assert(esc_char(c) == "\\u00"@ + h);
            }
        } else {
            push_char(out, c);
            proof {
                assert(out@ =~= out0 + seq![c]);
            }
        }
        proof {
            let tail = json_escaped(s@.skip(i + 1));
            assert(out@ == out0 + esc_char(c));
            seq_assoc(out0, esc_char(c), tail);
        }
        i += 1;
    }
    proof {
        assert(s@.skip(n as int) =~= Seq::<char>::empty());
        assert(out@ + Seq::<char>::empty() =~= out@);
    }
}

/// Appends a complete JSON string literal, as [`json_string`] describes.
pub fn write_json_string(out: &mut String, s: &str)
    ensures
        final(out)@ == old(out)@ + json_string(s@),
{
    let ghost b0 = out@;
    out.append("\"");
    write_json_escaped(out, s);
    proof {
        seq_assoc(b0, "\""@, json_escaped(s@));
    }
    out.append("\"");
    proof {
        seq_assoc(b0, "\""@ + json_escaped(s@), "\""@);
        assert(json_string(s@) == ("\""@ + json_escaped(s@)) + "\""@);
    }
}

} // verus!
