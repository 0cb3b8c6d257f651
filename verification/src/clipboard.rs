//! The terminal sequence (OSC 52) that puts text on the clipboard: the text's
//! UTF-8 bytes in standard base64.

use vstd::prelude::*;
use vstd::string::StringSliceAdditionalSpecFns;
use crate::text::{push_char, push_str, string_of};

verus! {

/// The base64 digit of a value below 64: `A`-`Z`, `a`-`z`, `0`-`9`, `+`, `/`.
pub open spec fn base64_digit(v: nat) -> char {
    if v < 26 {
        ((65 + v) as u8) as char
    } else if v < 52 {
        ((71 + v) as u8) as char
    } else if v < 62 {
        ((v - 4) as u8) as char
    } else if v == 62 {
        '+'
    } else {
        '/'
    }
}

/// Standard base64 (RFC 4648) of bytes: each three bytes become four digits
/// of six bits each; a last group of one or two bytes is padded with `=`.
pub open spec fn base64(b: Seq<u8>) -> Seq<char>
    decreases b.len(),
{
    if b.len() == 0 {
        Seq::<char>::empty()
    } else if b.len() == 1 {
        seq![base64_digit((b[0] / 4) as nat), base64_digit(((b[0] % 4) * 16) as nat), '=', '=']
    } else if b.len() == 2 {
        seq![
            base64_digit((b[0] / 4) as nat),
            base64_digit(((b[0] % 4) * 16 + b[1] / 16) as nat),
            base64_digit(((b[1] % 16) * 4) as nat),
            '=',
        ]
    } else {
        seq![
            base64_digit((b[0] / 4) as nat),
            base64_digit(((b[0] % 4) * 16 + b[1] / 16) as nat),
            base64_digit(((b[1] % 16) * 4 + b[2] / 64) as nat),
            base64_digit((b[2] % 64) as nat),
        ] + base64(b.skip(3))
    }
}

/// The base64 digit of `v` (below 64).
fn digit(v: u8) -> (c: char)
    requires
        v < 64,
    ensures
        c == base64_digit(v as nat),
{
    if v < 26 {
        (65u8 + v) as char
    } else if v < 52 {
        (71u8 + v) as char
    } else if v < 62 {
        (v - 4) as char
    } else if v == 62 {
        '+'
    } else {
        '/'
    }
}

/// The OSC 52 sequence that asks the terminal to put `text` on the
/// clipboard: `ESC ] 52 ; c ;`, the base64 of the text's UTF-8 bytes, `BEL`.
pub fn osc52_sequence(text: &str) -> (s: String)
    ensures
        s@ == "\u{1b}]52;c;"@ + base64(text.spec_bytes()) + "\u{7}"@,
{
    let b = text.as_bytes();
    let n = b.len();
    let mut s = string_of("\u{1b}]52;c;");
    let ghost start = s@;
    let mut i: usize = 0;
    proof {
        assert(b@.subrange(0, n as int) =~= b@);
    }
    while i < n
        invariant
            n == b@.len(),
            i <= n,
            b@ == text.spec_bytes(),
            start == "\u{1b}]52;c;"@,
            s@ + base64(b@.subrange(i as int, n as int)) == start + base64(b@),
        decreases n - i,
    {
        let ghost r = b@.subrange(i as int, n as int);
        let ghost before = s@;
        let b0 = b[i];
        proof {
            assert(r[0] == b0);
        }
        if n - i == 1 {
            push_char(&mut s, digit(b0 / 4));
            push_char(&mut s, digit((b0 % 4) * 16));
            push_char(&mut s, '=');
            push_char(&mut s, '=');
            proof {
                assert(s@ =~= before + base64(r));
                assert(b@.subrange(n as int, n as int) =~= Seq::<u8>::empty());
                assert(s@ + base64(b@.subrange(n as int, n as int)) =~= s@);
            }
            i = n;
        } else {
            let b1 = b[i + 1];
            proof {
                assert(r[1] == b1);
            }
            if n - i == 2 {
                push_char(&mut s, digit(b0 / 4));
                push_char(&mut s, digit((b0 % 4) * 16 + b1 / 16));
                push_char(&mut s, digit((b1 % 16) * 4));
                push_char(&mut s, '=');
                proof {
                    assert(s@ =~= before + base64(r));
                    assert(b@.subrange(n as int, n as int) =~= Seq::<u8>::empty());
                    assert(s@ + base64(b@.subrange(n as int, n as int)) =~= s@);
                }
                i = n;
            } else {
                let b2 = b[i + 2];
                proof {
                    assert(r[2] == b2);
                }
                push_char(&mut s, digit(b0 / 4));
                push_char(&mut s, digit((b0 % 4) * 16 + b1 / 16));
                push_char(&mut s, digit((b1 % 16) * 4 + b2 / 64));
                push_char(&mut s, digit(b2 % 64));
                proof {
                    assert(r.skip(3) =~= b@.subrange(i + 3, n as int));
                    assert(s@ + base64(b@.subrange(i + 3, n as int)) =~= before + base64(r));
                }
                i = i + 3;
            }
        }
    }
    push_str(&mut s, "\u{7}");
    s
}

} // verus!
