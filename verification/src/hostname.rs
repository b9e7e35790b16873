//! Hostname validation shared by the message envelope and the
//! human-readable name codec.
//!
//! A valid hostname is 1 to 255 characters of ASCII letters, digits,
//! hyphens and dots, where no dot-separated segment starts or ends with a
//! hyphen.

use vstd::prelude::*;

verus! {

/// ASCII code of 'a'.
pub const ASCII_LOWER_A: u8 = 0x61;

/// ASCII code of 'z'.
pub const ASCII_LOWER_Z: u8 = 0x7a;

/// ASCII code of 'A'.
pub const ASCII_UPPER_A: u8 = 0x41;

/// ASCII code of 'Z'.
pub const ASCII_UPPER_Z: u8 = 0x5a;

/// ASCII code of '0'.
pub const ASCII_ZERO: u8 = 0x30;

/// ASCII code of '9'.
pub const ASCII_NINE: u8 = 0x39;

/// ASCII code of '-'.
pub const ASCII_HYPHEN: u8 = 0x2d;

/// ASCII code of '.'.
pub const ASCII_DOT: u8 = 0x2e;

/// A character allowed in a hostname: an ASCII letter, a digit, a hyphen
/// or a dot separating segments.
pub open spec fn is_hostname_char(c: char) -> bool {
    ('a' <= c && c <= 'z') || ('A' <= c && c <= 'Z') || ('0' <= c && c <= '9') || c == '-' || c
        == '.'
}

/// A hyphen may not begin or end a dot-separated segment: it must have a
/// neighbour on both sides, and neither neighbour may be a dot.
pub open spec fn hyphen_placement_ok(s: Seq<char>, i: int) -> bool {
    s[i] == '-' ==> 0 < i && i + 1 < s.len() && s[i - 1] != '.' && s[i + 1] != '.'
}

/// Hostname validity: non-empty, at most 255 characters, every character
/// from the hostname set, and every hyphen placed inside its segment.
pub open spec fn valid_hostname(s: Seq<char>) -> bool {
    &&& 1 <= s.len() <= 255
    &&& forall|i: int| 0 <= i < s.len() ==> is_hostname_char(#[trigger] s[i])
    &&& forall|i: int| 0 <= i < s.len() ==> hyphen_placement_ok(s, i)
}

/// Two characters with the same code point are the same character.
pub proof fn lemma_char_eq_from_code(c: char, d: char)
    requires
        c as u32 == d as u32,
    ensures
        c == d,
{
    vstd::utf8::char_u32_cast(c, c as u32);
    vstd::utf8::char_u32_cast(d, d as u32);
}

/// Every hostname is plain ASCII: each allowed character is below 0x80.
pub proof fn lemma_valid_hostname_ascii(s: Seq<char>)
    requires
        valid_hostname(s),
    ensures
        vstd::utf8::is_ascii_chars(s),
{
    assert forall|i: int| 0 <= i < s.len() implies '\0' <= #[trigger] s[i] <= '\u{7f}' by {
        assert(is_hostname_char(s[i]));
    }
}

/// Reports whether `s` is a valid hostname.
pub fn is_valid_hostname(s: &str) -> (r: bool)
    ensures
        r == valid_hostname(s@),
{
    if !s.is_ascii() {
        // A hostname holds only characters below 0x80.
        proof {
            if valid_hostname(s@) {
                lemma_valid_hostname_ascii(s@);
            }
        }
        return false;
    }
    let n = s.unicode_len();
    if n < 1 || n > 255 {
        return false;
    }
    for i in 0..n
        invariant
            s.is_ascii(),
            n == s@.len(),
            1 <= n <= 255,
            forall|j: int| 0 <= j < i ==> is_hostname_char(#[trigger] s@[j]),
            forall|j: int| 0 <= j < i ==> hyphen_placement_ok(s@, j),
    {
        let b = s.get_ascii(i);
        let char_ok = (ASCII_LOWER_A <= b && b <= ASCII_LOWER_Z) || (ASCII_UPPER_A <= b && b
            <= ASCII_UPPER_Z) || (ASCII_ZERO <= b && b <= ASCII_NINE) || b == ASCII_HYPHEN || b
            == ASCII_DOT;
        if !char_ok {
            return false;
        }
        if b == ASCII_HYPHEN {
            proof {
                lemma_char_eq_from_code(s@[i as int], '-');
            }
            if i == 0 || i + 1 == n {
                proof {
                    assert(!hyphen_placement_ok(s@, i as int));
                }
                return false;
            }
            let before = s.get_ascii(i - 1);
            let after = s.get_ascii(i + 1);
            if before == ASCII_DOT || after == ASCII_DOT {
                proof {
                    if before == ASCII_DOT {
                        lemma_char_eq_from_code(s@[i - 1], '.');
                    }
                    if after == ASCII_DOT {
                        lemma_char_eq_from_code(s@[i + 1], '.');
                    }
                    assert(!hyphen_placement_ok(s@, i as int));
                }
                return false;
            }
            proof {
                if s@[i - 1] == '.' || s@[i + 1] == '.' {
                    assert(false);
                }
            }
        }
        proof {
            if s@[i as int] == '-' && b != ASCII_HYPHEN {
                assert(false);
            }
        }
    }
    true
}

} // verus!
