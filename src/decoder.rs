//! The decoder: one scan from left to right over the characters of a text.

use vstd::prelude::*;
use crate::escape::{decoded, is_hex_digit, hex_value, is_scalar_value, quad_value, simple_escape, unicode_escape, first_unit};

verus! {

/// A text that holds a backslash which begins no well-formed escape.
#[derive(Debug, Clone, Copy, PartialEq, Eq, Structural)]
pub enum DecodeError {
    MalformedEscape,
}

/// The character that a one-letter escape stands for.
fn simple_escape_char(c: char) -> (r: Option<char>)
    ensures
        r == simple_escape(c),
{
    if c == 'n' {
        Some('\n')
    } else if c == 't' {
        Some('\t')
    } else if c == 'r' {
        Some('\r')
    } else if c == '\\' {
        Some('\\')
    } else if c == '"' {
        Some('"')
    } else {
        None
    }
}

/// Relies on `String::push`: appends one character at the end.
#[verifier::external_body]
fn push_char(out: &mut String, c: char)
    ensures
        final(out)@ == old(out)@.push(c),
{
    out.push(c)
}

/// Relies on `char::from_u32`: the character with code `v`, or `None` where `v`
/// is a surrogate or above `0x10FFFF`.
#[verifier::external_body]
fn char_from_code(v: u32) -> (r: Option<char>)
    ensures
        r == (if is_scalar_value(v as int) {
            Some(v as char)
        } else {
            None::<char>
        }),
{
    char::from_u32(v)
}

/// The characters of a text, in order.
fn chars_of(s: &str) -> (r: Vec<char>)
    ensures
        r@ == s@,
{
    let mut v: Vec<char> = Vec::new();
    for c in it: s.chars()
        invariant
            v@ == it.seq().take(it.index() as int),
    {
        v.push(c);
    }
    v
}

/// The value of a hexadecimal digit, or `None` for any other character.
fn hex_digit(c: char) -> (r: Option<u32>)
    ensures
        r == (if is_hex_digit(c) {
            Some(hex_value(c) as u32)
        } else {
            None::<u32>
        }),
        r matches Some(d) ==> d < 16,
{
    if '0' <= c && c <= '9' {
        Some((c as u32) - ('0' as u32))
    } else if 'a' <= c && c <= 'f' {
        Some((c as u32) - ('a' as u32) + 10)
    } else if 'A' <= c && c <= 'F' {
        Some((c as u32) - ('A' as u32) + 10)
    } else {
        None
    }
}

/// The character that `\u` followed by `s[at..at + 4]` stands for, if any.
fn unicode_escape_at(s: &Vec<char>, at: usize) -> (r: Option<char>)
    requires
        at + 4 <= s.len(),
    ensures
        r == unicode_escape(s@.subrange(at as int, at + 4)),
{
    let ghost d = s@.subrange(at as int, at + 4);
    let a = match hex_digit(s[at]) {
        Some(x) => x,
        None => return None,
    };
    let b = match hex_digit(s[at + 1]) {
        Some(x) => x,
        None => return None,
    };
    let c = match hex_digit(s[at + 2]) {
        Some(x) => x,
        None => return None,
    };
    let e = match hex_digit(s[at + 3]) {
        Some(x) => x,
        None => return None,
    };
    let v: u32 = a * 4096 + b * 256 + c * 16 + e;
    assert(v as int == quad_value(d));
    char_from_code(v)
}

/// Decodes every escape sequence of `input`: `\n`, `\t`, `\r`, `\\` and `\"`
/// become a line feed, a tab, a carriage return, a backslash and a double quote,
/// `\u` with four hexadecimal digits becomes the character of that code, and
/// every other character is copied. Fails, with no partial output, where a
/// backslash begins no such sequence (an unknown letter, too few or non-hex
/// digits, a surrogate code, or the end of the text).
pub fn unescape_string(input: &str) -> (r: Result<String, DecodeError>)
    ensures
        r is Ok <==> decoded(input@) is Some,
        r matches Ok(out) ==> decoded(input@) == Some(out@),
        r matches Err(e) ==> e == DecodeError::MalformedEscape,
{
    let s = chars_of(input);
    let n = s.len();
    let mut out = String::new();
    let mut i: usize = 0;
    proof {
        assert(s@.subrange(0, n as int) =~= s@);
        if let Some(rest) = decoded(s@) {
            assert(out@ + rest =~= rest);
        }
    }
    while i < n
        invariant
            n == s@.len(),
            s@ == input@,
            i <= n,
            decoded(input@) == (match decoded(s@.subrange(i as int, n as int)) {
                Some(rest) => Some(out@ + rest),
                None => None,
            }),
        decreases n - i,
    {
        let ghost t = s@.subrange(i as int, n as int);
        let c = s[i];
        let unit: Option<(char, usize)> = if c != '\\' {
            Some((c, 1))
        } else if i + 1 >= n {
            None
        } else {
            match simple_escape_char(s[i + 1]) {
                Some(e) => Some((e, 2)),
                None => if s[i + 1] == 'u' && n - i >= 6 {
                    assert(t.subrange(2, 6) =~= s@.subrange(i + 2, i + 6));
                    match unicode_escape_at(&s, i + 2) {
                        Some(e) => Some((e, 6)),
                        None => None,
                    }
                } else {
                    None
                },
            }
        };
        match unit {
            None => {
                assert(first_unit(t) is None);
                return Err(DecodeError::MalformedEscape);
            },
            Some((e, used)) => {
                assert(first_unit(t) == Some((e, used as int)));
                assert(t.subrange(used as int, t.len() as int) =~= s@.subrange(i + used, n as int));
                let ghost before = out@;
                push_char(&mut out, e);
                proof {
                    let tail = s@.subrange(i + used, n as int);
                    if let Some(rest) = decoded(tail) {
                        assert(out@ + rest =~= before + (seq![e] + rest));
                    }
                }
                i = i + used;
            },
        }
    }
    assert(s@.subrange(n as int, n as int) =~= Seq::<char>::empty());
    assert(out@ + Seq::<char>::empty() =~= out@);
    Ok(out)
}

} // verus!
