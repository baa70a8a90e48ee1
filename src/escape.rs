//! The escape grammar as mathematics: what a text decodes to, if anything.

use vstd::prelude::*;

verus! {

/// The character that a one-letter escape (`\n`, `\t`, `\r`, `\\`, `\"`) stands for.
pub open spec fn simple_escape(c: char) -> Option<char> {
    if c == 'n' {
        Some('\n')
    } else if c == 't' {
        Some('\t')
    } else if c == 'r' {
        Some('\r')
    } else if c == '\\' {
        Some('\\')
    } else if c == '"' {
        Some('"')
    } else {
        None
    }
}

/// `0-9`, `a-f` or `A-F`.
pub open spec fn is_hex_digit(c: char) -> bool {
    ('0' <= c && c <= '9') || ('a' <= c && c <= 'f') || ('A' <= c && c <= 'F')
}

/// The value of a hexadecimal digit.
pub open spec fn hex_value(c: char) -> int {
    if '0' <= c && c <= '9' {
        c as int - '0' as int
    } else if 'a' <= c && c <= 'f' {
        c as int - 'a' as int + 10
    } else {
        c as int - 'A' as int + 10
    }
}

/// The number that four hexadecimal digits spell, most significant first.
pub open spec fn quad_value(d: Seq<char>) -> int {
    hex_value(d[0]) * 4096 + hex_value(d[1]) * 256 + hex_value(d[2]) * 16 + hex_value(d[3])
}

/// A Unicode scalar value: a code point that is not a surrogate.
pub open spec fn is_scalar_value(v: int) -> bool {
    0 <= v <= 0x10FFFF && !(0xD800 <= v <= 0xDFFF)
}

/// The character that `\u` followed by the four characters `d` stands for, if any.
pub open spec fn unicode_escape(d: Seq<char>) -> Option<char> {
    if d.len() == 4 && is_hex_digit(d[0]) && is_hex_digit(d[1]) && is_hex_digit(d[2])
        && is_hex_digit(d[3]) && is_scalar_value(quad_value(d)) {
        Some(quad_value(d) as char)
    } else {
        None
    }
}

/// The first unit of a non-empty text: the character it decodes to and how many
/// characters of the text it takes; `None` where the text starts with a backslash
/// that begins no well-formed escape.
pub open spec fn first_unit(s: Seq<char>) -> Option<(char, int)> {
    if s[0] != '\\' {
        Some((s[0], 1))
    } else if s.len() < 2 {
        None
    } else if simple_escape(s[1]) is Some {
        Some((simple_escape(s[1])->0, 2))
    } else if s[1] == 'u' && s.len() >= 6 && unicode_escape(s.subrange(2, 6)) is Some {
        Some((unicode_escape(s.subrange(2, 6))->0, 6))
    } else {
        None
    }
}

/// What a whole text decodes to, unit by unit from the left; `None` as soon as one
/// backslash begins no well-formed escape.
pub open spec fn decoded(s: Seq<char>) -> Option<Seq<char>>
    decreases s.len(),
{
    if s.len() == 0 {
        Some(Seq::empty())
    } else {
        match first_unit(s) {
            None => None,
            Some((c, n)) => match decoded(s.subrange(n, s.len() as int)) {
                None => None,
                Some(rest) => Some(seq![c] + rest),
            },
        }
    }
}

/// A text without a backslash decodes to itself.
pub proof fn escape_free_text_is_unchanged(s: Seq<char>)
    requires
        !s.contains('\\'),
    ensures
        decoded(s) == Some(s),
    decreases s.len(),
{
    if s.len() > 0 {
        let rest = s.subrange(1, s.len() as int);
        assert(s[0] != '\\') by {
            assert(s.contains(s[0]) ==> s[0] != '\\');
        }
        assert(!rest.contains('\\')) by {
            if rest.contains('\\') {
                let k = choose|k: int| 0 <= k < rest.len() && rest[k] == '\\';
                assert(s[k + 1] == '\\');
            }
        }
        escape_free_text_is_unchanged(rest);
        assert(seq![s[0]] + rest =~= s);
    }
}

} // verus!
