//! Byte- and string-level helpers shared by the parser and the resolvers.

use vstd::prelude::*;
use vstd::utf8::{decode_utf8, valid_utf8};

verus! {

/// Byte-for-byte equality of two slices.
pub fn bytes_eq(a: &[u8], b: &[u8]) -> (r: bool)
    ensures
        r == (a@ == b@),
{
    if a.len() != b.len() {
        assert(a@ != b@) by {
            assert(a@.len() != b@.len());
        }
        return false;
    }
    let mut i: usize = 0;
    while i < a.len()
        invariant
            a@.len() == b@.len(),
            i <= a@.len(),
            forall|j: int| 0 <= j < i ==> a@[j] == b@[j],
        decreases a@.len() - i,
    {
        if a[i] != b[i] {
            return false;
        }
        i += 1;
    }
    proof {
        assert(a@ =~= b@);
    }
    true
}

/// Character-for-character equality of two string slices.
pub fn str_eq(a: &str, b: &str) -> (r: bool)
    ensures
        r == (a@ == b@),
{
    let r = bytes_eq(a.as_bytes(), b.as_bytes());
    proof {
        vstd::utf8::encode_utf8_decode_utf8(a@);
        vstd::utf8::encode_utf8_decode_utf8(b@);
    }
    r
}

/// True when every byte of the sequence is an ASCII byte.
pub open spec fn all_ascii(b: Seq<u8>) -> bool {
    forall|i: int| 0 <= i < b.len() ==> b[i] < 128
}

/// A sequence of ASCII bytes is valid UTF-8, and decodes byte for byte.
pub proof fn lemma_ascii_bytes_utf8(b: Seq<u8>)
    requires
        all_ascii(b),
    ensures
        valid_utf8(b),
        decode_utf8(b).len() == b.len(),
        forall|i: int| 0 <= i < b.len() ==> decode_utf8(b)[i] == b[i] as char,
    decreases b.len(),
{
    if b.len() > 0 {
        let b0 = b[0];
        assert(b0 & 0x7f == b0) by (bit_vector)
            requires
                b0 < 128,
        ;
        assert(vstd::utf8::pop_first_scalar(b) =~= b.drop_first());
        assert(all_ascii(b.drop_first()));
        lemma_ascii_bytes_utf8(b.drop_first());
        assert forall|i: int| 0 <= i < b.len() implies decode_utf8(b)[i] == b[i] as char by {
            if i > 0 {
                assert(decode_utf8(b)[i] == decode_utf8(b.drop_first())[i - 1]);
                assert(b.drop_first()[i - 1] == b[i]);
            }
        }
    }
}

/// A non-empty character sequence encodes to at least one byte.
pub proof fn lemma_encode_utf8_nonempty(chars: Seq<char>)
    requires
        chars.len() > 0,
    ensures
        vstd::utf8::encode_utf8(chars).len() > 0,
{
    assert(vstd::utf8::encode_scalar(chars[0] as u32).len() >= 1);
}

/// The characters of the string that a valid UTF-8 byte sequence decodes to,
/// or `None` where the bytes are not valid UTF-8.
pub open spec fn utf8_chars(b: Seq<u8>) -> Option<Seq<char>> {
    if valid_utf8(b) {
        Some(decode_utf8(b))
    } else {
        None
    }
}

/// Relies on `String::from_utf8`: it returns the string holding the given
/// bytes exactly when they are a valid UTF-8 encoding, and fails otherwise.
#[verifier::external_body]
pub fn utf8_to_string(b: Vec<u8>) -> (r: Option<String>)
    ensures
        r is Some <==> valid_utf8(b@),
        r matches Some(s) ==> s@ == decode_utf8(b@),
{
    String::from_utf8(b).ok()
}

/// True when the byte is an ASCII hexadecimal digit.
pub open spec fn is_hex(b: u8) -> bool {
    (0x30 <= b <= 0x39) || (0x41 <= b <= 0x46) || (0x61 <= b <= 0x66)
}

/// The value of an ASCII hexadecimal digit.
pub open spec fn hex_val(b: u8) -> u8
    recommends
        is_hex(b),
{
    if 0x30 <= b <= 0x39 {
        (b - 0x30) as u8
    } else if 0x41 <= b <= 0x46 {
        (b - 0x41 + 10) as u8
    } else {
        (b - 0x61 + 10) as u8
    }
}

/// Percent-decoding of form-encoded text: `%XY` with two hexadecimal digits
/// becomes the byte they denote, `+` becomes a space, every other byte stands
/// for itself, and a `%` not followed by two hexadecimal digits refuses the
/// whole input.
pub open spec fn pct_decode(s: Seq<u8>) -> Option<Seq<u8>>
    decreases s.len(),
{
    if s.len() == 0 {
        Some(Seq::empty())
    } else if s[0] == 0x25 {
        if s.len() >= 3 && is_hex(s[1]) && is_hex(s[2]) {
            match pct_decode(s.skip(3)) {
                Some(r) => Some(seq![(hex_val(s[1]) * 16 + hex_val(s[2])) as u8] + r),
                None => None,
            }
        } else {
            None
        }
    } else {
        let b: u8 = if s[0] == 0x2b {
            0x20
        } else {
            s[0]
        };
        match pct_decode(s.skip(1)) {
            Some(r) => Some(seq![b] + r),
            None => None,
        }
    }
}

fn hex_digit(b: u8) -> (r: Option<u8>)
    ensures
        r is Some <==> is_hex(b),
        r matches Some(v) ==> v == hex_val(b),
{
    if 0x30 <= b && b <= 0x39 {
        Some(b - 0x30)
    } else if 0x41 <= b && b <= 0x46 {
        Some(b - 0x41 + 10)
    } else if 0x61 <= b && b <= 0x66 {
        Some(b - 0x61 + 10)
    } else {
        None
    }
}

/// Percent-decodes a byte sequence, refusing malformed `%` escapes.
pub fn percent_decode(s: &[u8]) -> (r: Option<Vec<u8>>)
    ensures
        r is Some <==> pct_decode(s@) is Some,
        r matches Some(v) ==> pct_decode(s@) == Some(v@),
{
    let mut out: Vec<u8> = Vec::new();
    let mut i: usize = 0;
    proof {
        assert(s@.skip(0) =~= s@);
    }
    while i < s.len()
        invariant
            i <= s@.len(),
            pct_decode(s@.skip(i as int)) matches Some(rest) ==> pct_decode(s@) == Some(
                out@ + rest,
            ),
            pct_decode(s@.skip(i as int)) is None ==> pct_decode(s@) is None,
        decreases s@.len() - i,
    {
        let ghost tail = s@.skip(i as int);
        let b = s[i];
        assert(tail[0] == b);
        if b == 0x25 {
            if s.len() - i >= 3 {
                let h1 = hex_digit(s[i + 1]);
                let h2 = hex_digit(s[i + 2]);
                assert(tail[1] == s@[i + 1] && tail[2] == s@[i + 2]);
                match (h1, h2) {
                    (Some(v1), Some(v2)) => {
                        proof {
                            assert(tail.skip(3) =~= s@.skip(i + 3));
                        }
                        out.push(v1 * 16 + v2);
                        i += 3;
                    },
                    _ => {
                        return None;
                    },
                }
            } else {
                assert(tail.len() < 3);
                return None;
            }
        } else {
            proof {
                assert(tail.skip(1) =~= s@.skip(i + 1));
            }
            if b == 0x2b {
                out.push(0x20);
            } else {
                out.push(b);
            }
            i += 1;
        }
    }
    proof {
        assert(s@.skip(i as int) =~= Seq::<u8>::empty());
        assert(out@ + Seq::<u8>::empty() =~= out@);
    }
    Some(out)
}

/// The segments of `s` between occurrences of the separator, in order.
/// There is always at least one segment; separators at the ends or next to
/// each other contribute empty segments.
pub open spec fn split_sep<T>(s: Seq<T>, sep: T) -> Seq<Seq<T>>
    decreases s.len(),
{
    if s.len() == 0 {
        seq![Seq::empty()]
    } else if s[0] == sep {
        seq![Seq::empty()] + split_sep(s.drop_first(), sep)
    } else {
        let rest = split_sep(s.drop_first(), sep);
        seq![seq![s[0]] + rest[0]] + rest.drop_first()
    }
}

pub proof fn lemma_split_sep_len<T>(s: Seq<T>, sep: T)
    ensures
        split_sep(s, sep).len() >= 1,
    decreases s.len(),
{
    if s.len() > 0 {
        lemma_split_sep_len(s.drop_first(), sep);
    }
}

/// `segs` with `pre` prepended to its first segment.
pub open spec fn prepend_first<T>(pre: Seq<T>, segs: Seq<Seq<T>>) -> Seq<Seq<T>>
    recommends
        segs.len() >= 1,
{
    seq![pre + segs[0]] + segs.drop_first()
}

/// True when the byte is an ASCII decimal digit.
pub open spec fn is_digit(b: u8) -> bool {
    0x30 <= b <= 0x39
}

/// True when every byte of the sequence is an ASCII decimal digit.
pub open spec fn all_digits(s: Seq<u8>) -> bool {
    forall|i: int| 0 <= i < s.len() ==> is_digit(s[i])
}

/// The number that a sequence of ASCII decimal digits denotes.
pub open spec fn digits_val(s: Seq<u8>) -> nat
    decreases s.len(),
{
    if s.len() == 0 {
        0
    } else {
        digits_val(s.drop_last()) * 10 + (s.last() - 0x30) as nat
    }
}

proof fn lemma_digits_val_step(s: Seq<u8>, i: int)
    requires
        0 <= i < s.len(),
        is_digit(s[i]),
    ensures
        digits_val(s.subrange(0, i + 1)) == digits_val(s.subrange(0, i)) * 10 + (s[i] - 0x30),
{
    let t = s.subrange(0, i + 1);
    assert(t.len() == i + 1);
    assert(t.drop_last() =~= s.subrange(0, i));
    assert(t.last() == s[i]);
    assert(digits_val(t) == digits_val(t.drop_last()) * 10 + (t.last() - 0x30) as nat);
}

proof fn lemma_digits_val_prefix_le(s: Seq<u8>, i: int)
    requires
        0 <= i <= s.len(),
        all_digits(s),
    ensures
        digits_val(s.subrange(0, i)) <= digits_val(s),
    decreases s.len() - i,
{
    if i == s.len() {
        assert(s.subrange(0, i) =~= s);
    } else {
        lemma_digits_val_step(s, i);
        lemma_digits_val_prefix_le(s, i + 1);
    }
}

/// Parses a non-empty, all-digit byte sequence as a number that fits in `u16`;
/// every other input is refused.
pub fn parse_u16(s: &[u8]) -> (r: Option<u16>)
    ensures
        r is Some <==> s@.len() > 0 && all_digits(s@) && digits_val(s@) <= u16::MAX,
        r matches Some(v) ==> v == digits_val(s@),
{
    if s.len() == 0 {
        return None;
    }
    let mut acc: u32 = 0;
    let mut i: usize = 0;
    while i < s.len()
        invariant
            0 < s@.len(),
            i <= s@.len(),
            all_digits(s@.subrange(0, i as int)),
            acc == digits_val(s@.subrange(0, i as int)),
            acc <= u16::MAX,
        decreases s@.len() - i,
    {
        let b = s[i];
        if b < 0x30 || b > 0x39 {
            assert(!is_digit(s@[i as int]));
            return None;
        }
        proof {
            lemma_digits_val_step(s@, i as int);
        }
        acc = acc * 10 + ((b - 0x30) as u32);
        if acc > u16::MAX as u32 {
            proof {
                assert(all_digits(s@.subrange(0, i + 1))) by {
                    assert(forall|j: int|
                        0 <= j < i + 1 ==> s@.subrange(0, i + 1)[j] == s@[j]);
                }
                if all_digits(s@) {
                    lemma_digits_val_prefix_le(s@, i + 1);
                }
            }
            return None;
        }
        i += 1;
        proof {
            assert(forall|j: int| 0 <= j < i ==> s@.subrange(0, i as int)[j] == s@[j]);
        }
    }
    proof {
        assert(s@.subrange(0, s@.len() as int) =~= s@);
    }
    Some(acc as u16)
}

/// True when `p` is a prefix of `s`, character for character.
pub fn str_prefix_eq(s: &str, p: &str) -> (r: bool)
    ensures
        r == (s@.len() >= p@.len() && s@.subrange(0, p@.len() as int) == p@),
{
    let sn = s.unicode_len();
    let pn = p.unicode_len();
    if sn < pn {
        return false;
    }
    let mut i: usize = 0;
    while i < pn
        invariant
            i <= pn,
            pn <= sn,
            sn == s@.len(),
            pn == p@.len(),
            forall|j: int| 0 <= j < i ==> s@[j] == p@[j],
        decreases pn - i,
    {
        if s.get_char(i) != p.get_char(i) {
            proof {
                assert(s@.subrange(0, pn as int)[i as int] == s@[i as int]);
            }
            return false;
        }
        i += 1;
    }
    proof {
        assert(s@.subrange(0, pn as int) =~= p@);
    }
    true
}

} // verus!
