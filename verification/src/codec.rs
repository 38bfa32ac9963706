//! Wire-format primitives: hexadecimal rendering, JSON string escaping, and
//! percent-coding for form-urlencoded payloads. The upstream and client-facing
//! codecs are built from these.

use vstd::prelude::*;
use vstd::string::StrSliceExecFns;
use crate::text::push_char;

verus! {

/// The lowercase hexadecimal digit of a value below 16.
pub open spec fn hex_lower(n: u8) -> char
    recommends
        n < 16,
{
    if n < 10 {
        (0x30 + n) as char
    } else {
        (0x57 + n) as char
    }
}

/// The uppercase hexadecimal digit of a value below 16.
pub open spec fn hex_upper(n: u8) -> char
    recommends
        n < 16,
{
    if n < 10 {
        (0x30 + n) as char
    } else {
        (0x37 + n) as char
    }
}

/// The lowercase hexadecimal rendering of a byte string, two digits per byte.
pub open spec fn hex_of(data: Seq<u8>) -> Seq<char>
    decreases data.len(),
{
    if data.len() == 0 {
        Seq::empty()
    } else {
        seq![hex_lower(data[0] / 16), hex_lower(data[0] % 16)] + hex_of(data.drop_first())
    }
}

fn hex_lower_digit(n: u8) -> (c: char)
    requires
        n < 16,
    ensures
        c == hex_lower(n),
{
    if n < 10 {
        (0x30 + n) as char
    } else {
        (0x57 + n) as char
    }
}

fn hex_upper_digit(n: u8) -> (c: char)
    requires
        n < 16,
    ensures
        c == hex_upper(n),
{
    if n < 10 {
        (0x30 + n) as char
    } else {
        (0x37 + n) as char
    }
}

/// Renders a byte string as lowercase hexadecimal.
pub fn to_hex_lower(data: &[u8]) -> (r: String)
    ensures
        r@ == hex_of(data@),
{
    let mut out = String::new();
    let n = data.len();
    let mut i: usize = 0;
    proof {
        assert(data@.skip(0) =~= data@);
    }
    while i < n
        invariant
            n == data@.len(),
            i <= n,
            hex_of(data@) =~= out@ + hex_of(data@.skip(i as int)),
        decreases n - i,
    {
        let b = data[i];
        push_char(&mut out, hex_lower_digit(b / 16));
        push_char(&mut out, hex_lower_digit(b % 16));
        proof {
            assert(data@.skip(i as int).drop_first() =~= data@.skip(i + 1));
        }
        i = i + 1;
    }
    proof {
        assert(out@ =~= hex_of(data@));
    }
    out
}

/// Hexadecimal rendering is injective: equal renderings come only from
/// equal byte strings.
pub proof fn lemma_hex_of_injective(a: Seq<u8>, b: Seq<u8>)
    requires
        hex_of(a) == hex_of(b),
    ensures
        a == b,
    decreases a.len(),
{
    lemma_hex_of_len(a);
    lemma_hex_of_len(b);
    if a.len() == 0 {
        assert(a =~= b);
    } else {
        assert(hex_of(a)[0] == hex_lower(a[0] / 16) && hex_of(a)[1] == hex_lower(a[0] % 16));
        assert(hex_of(b)[0] == hex_lower(b[0] / 16) && hex_of(b)[1] == hex_lower(b[0] % 16));
        lemma_hex_lower_injective(a[0] / 16, b[0] / 16);
        lemma_hex_lower_injective(a[0] % 16, b[0] % 16);
        assert(a[0] == b[0]);
        assert(hex_of(a.drop_first()) =~= hex_of(a).skip(2));
        assert(hex_of(b.drop_first()) =~= hex_of(b).skip(2));
        lemma_hex_of_injective(a.drop_first(), b.drop_first());
        assert(a =~= seq![a[0]] + a.drop_first());
        assert(b =~= seq![b[0]] + b.drop_first());
    }
}

/// The rendering of a byte string has two characters per byte.
pub proof fn lemma_hex_of_len(data: Seq<u8>)
    ensures
        hex_of(data).len() == 2 * data.len(),
    decreases data.len(),
{
    if data.len() > 0 {
        lemma_hex_of_len(data.drop_first());
    }
}

proof fn lemma_hex_lower_injective(m: u8, n: u8)
    requires
        m < 16,
        n < 16,
        hex_lower(m) == hex_lower(n),
    ensures
        m == n,
{
}

/// How one character stands inside a JSON string literal: quotes and
/// backslashes are escaped, the named control characters take their short
/// escapes, the other control characters their `\u00XX` form, and every other
/// character stands for itself.
pub open spec fn json_escape_char(c: char) -> Seq<char> {
    if c == '"' {
        seq!['\\', '"']
    } else if c == '\\' {
        seq!['\\', '\\']
    } else if c == '\n' {
        seq!['\\', 'n']
    } else if c == '\r' {
        seq!['\\', 'r']
    } else if c == '\t' {
        seq!['\\', 't']
    } else if (c as u32) < 0x20 {
        seq!['\\', 'u', '0', '0', hex_lower((c as u32 / 16) as u8), hex_lower((c as u32 % 16) as u8)]
    } else {
        seq![c]
    }
}

/// The characters of `s` as they stand inside a JSON string literal.
pub open spec fn json_escaped(s: Seq<char>) -> Seq<char>
    decreases s.len(),
{
    if s.len() == 0 {
        Seq::empty()
    } else {
        json_escape_char(s[0]) + json_escaped(s.drop_first())
    }
}

/// A JSON string literal holding the characters of `s`.
pub open spec fn json_string(s: Seq<char>) -> Seq<char> {
    seq!['"'] + json_escaped(s) + seq!['"']
}

fn push_json_escaped_char(out: &mut String, c: char)
    ensures
        final(out)@ == old(out)@ + json_escape_char(c),
{
    if c == '"' {
        push_char(out, '\\');
        push_char(out, '"');
    } else if c == '\\' {
        push_char(out, '\\');
        push_char(out, '\\');
    } else if c == '\n' {
        push_char(out, '\\');
        push_char(out, 'n');
    } else if c == '\r' {
        push_char(out, '\\');
        push_char(out, 'r');
    } else if c == '\t' {
        push_char(out, '\\');
        push_char(out, 't');
    } else if (c as u32) < 0x20 {
        let u = c as u32;
        push_char(out, '\\');
        push_char(out, 'u');
        push_char(out, '0');
        push_char(out, '0');
        push_char(out, hex_lower_digit((u / 16) as u8));
        push_char(out, hex_lower_digit((u % 16) as u8));
    } else {
        push_char(out, c);
    }
    proof {
        assert(out@ =~= old(out)@ + json_escape_char(c));
    }
}

fn push_json_escaped(out: &mut String, s: &str)
    ensures
        final(out)@ == old(out)@ + json_escaped(s@),
{
    let n = s.unicode_len();
    let mut i: usize = 0;
    proof {
        assert(s@.skip(0) =~= s@);
    }
    while i < n
        invariant
            n == s@.len(),
            i <= n,
            old(out)@ + json_escaped(s@) =~= out@ + json_escaped(s@.skip(i as int)),
        decreases n - i,
    {
        push_json_escaped_char(out, s.get_char(i));
        proof {
            assert(s@.skip(i as int).drop_first() =~= s@.skip(i + 1));
        }
        i = i + 1;
    }
    proof {
        assert(out@ =~= old(out)@ + json_escaped(s@));
    }
}

/// Appends the JSON string literal holding `s`, quotes and escaping included.
pub fn push_json_string(out: &mut String, s: &str)
    ensures
        final(out)@ == old(out)@ + json_string(s@),
{
    push_char(out, '"');
    push_json_escaped(out, s);
    push_char(out, '"');
    proof {
        assert(out@ =~= old(out)@ + json_string(s@));
    }
}

/// A byte that form-urlencoding sends as itself: an ASCII letter or digit,
/// `-`, `.`, `_` or `~`.
pub open spec fn is_unreserved(b: u8) -> bool {
    (0x41 <= b <= 0x5a) || (0x61 <= b <= 0x7a) || (0x30 <= b <= 0x39) || b == 0x2d || b == 0x2e
        || b == 0x5f || b == 0x7e
}

/// How one byte stands in a form-urlencoded value: unreserved bytes stand for
/// themselves, every other byte as `%XX` with uppercase digits.
pub open spec fn pct_escape_byte(b: u8) -> Seq<char> {
    if is_unreserved(b) {
        seq![b as char]
    } else {
        seq!['%', hex_upper(b / 16), hex_upper(b % 16)]
    }
}

/// The form-urlencoded rendering of a byte string.
pub open spec fn pct_encoded(bytes: Seq<u8>) -> Seq<char>
    decreases bytes.len(),
{
    if bytes.len() == 0 {
        Seq::empty()
    } else {
        pct_escape_byte(bytes[0]) + pct_encoded(bytes.drop_first())
    }
}

/// The form-urlencoded rendering of a string: its UTF-8 bytes, escaped.
pub open spec fn pct_str(s: Seq<char>) -> Seq<char> {
    pct_encoded(vstd::utf8::encode_utf8(s))
}

fn is_unreserved_byte(b: u8) -> (r: bool)
    ensures
        r == is_unreserved(b),
{
    (0x41 <= b && b <= 0x5a) || (0x61 <= b && b <= 0x7a) || (0x30 <= b && b <= 0x39) || b == 0x2d
        || b == 0x2e || b == 0x5f || b == 0x7e
}

/// Appends the form-urlencoded rendering of the bytes.
pub fn push_pct_bytes(out: &mut String, data: &[u8])
    ensures
        final(out)@ == old(out)@ + pct_encoded(data@),
{
    let n = data.len();
    let mut i: usize = 0;
    proof {
        assert(data@.skip(0) =~= data@);
    }
    while i < n
        invariant
            n == data@.len(),
            i <= n,
            old(out)@ + pct_encoded(data@) =~= out@ + pct_encoded(data@.skip(i as int)),
        decreases n - i,
    {
        let b = data[i];
        if is_unreserved_byte(b) {
            push_char(out, b as char);
        } else {
            push_char(out, '%');
            push_char(out, hex_upper_digit(b / 16));
            push_char(out, hex_upper_digit(b % 16));
        }
        proof {
            assert(data@.skip(i as int).drop_first() =~= data@.skip(i + 1));
        }
        i = i + 1;
    }
    proof {
        assert(out@ =~= old(out)@ + pct_encoded(data@));
    }
}

/// Appends the form-urlencoded rendering of the string's UTF-8 bytes.
pub fn push_pct_str(out: &mut String, s: &str)
    ensures
        final(out)@ == old(out)@ + pct_str(s@),
{
    push_pct_bytes(out, s.as_bytes());
}

/// The decimal rendering of a number, most significant digit first, no sign
/// and no leading zero.
pub open spec fn dec_digits(n: nat) -> Seq<char>
    decreases n,
{
    if n < 10 {
        seq![hex_lower(n as u8)]
    } else {
        dec_digits(n / 10) + seq![hex_lower((n % 10) as u8)]
    }
}

/// Appends the decimal rendering of the number.
pub fn push_u32_dec(out: &mut String, n: u32)
    ensures
        final(out)@ == old(out)@ + dec_digits(n as nat),
    decreases n,
{
    if n < 10 {
        push_char(out, hex_lower_digit(n as u8));
    } else {
        push_u32_dec(out, n / 10);
        push_char(out, hex_lower_digit((n % 10) as u8));
        proof {
            assert(out@ =~= old(out)@ + dec_digits(n as nat));
        }
    }
}

/// The bytes of an ASCII character string, one byte per character.
pub open spec fn chars_to_bytes(s: Seq<char>) -> Seq<u8> {
    Seq::new(s.len(), |i: int| s[i] as u8)
}

/// Form-urlencoding round-trips: decoding an encoded string, read as the
/// ASCII bytes of its characters, gives back exactly the bytes that were
/// encoded.
pub proof fn lemma_pct_round_trip(bytes: Seq<u8>)
    ensures
        form_decoded(chars_to_bytes(pct_encoded(bytes))) == Some(bytes),
    decreases bytes.len(),
{
    if bytes.len() == 0 {
        assert(chars_to_bytes(pct_encoded(bytes)) =~= Seq::<u8>::empty());
    } else {
        let b = bytes[0];
        lemma_pct_round_trip(bytes.drop_first());
        let tail_bytes = chars_to_bytes(pct_encoded(bytes.drop_first()));
        let s = chars_to_bytes(pct_encoded(bytes));
        if is_unreserved(b) {
            assert(s =~= seq![(b as char) as u8] + tail_bytes);
            assert((b as char) as u8 == b);
            assert(s.drop_first() =~= tail_bytes);
            assert(form_decoded(s) == Some(seq![b] + bytes.drop_first()));
            assert(seq![b] + bytes.drop_first() =~= bytes);
        } else {
            let h = b / 16;
            let l = b % 16;
            assert(s =~= seq![0x25u8, hex_upper(h) as u8, hex_upper(l) as u8] + tail_bytes);
            lemma_hex_upper_val(h);
            lemma_hex_upper_val(l);
            assert(s.skip(3) =~= tail_bytes);
            assert(h * 16 + l == b);
            assert(form_decoded(s) == Some(seq![b] + bytes.drop_first()));
            assert(seq![b] + bytes.drop_first() =~= bytes);
        }
    }
}

/// Reading an uppercase hexadecimal digit back gives the value it renders.
proof fn lemma_hex_upper_val(n: u8)
    requires
        n < 16,
    ensures
        hex_val(hex_upper(n) as u8) == Some(n),
{
}

/// The value of a hexadecimal digit byte of either case, if it is one.
pub open spec fn hex_val(b: u8) -> Option<u8> {
    if 0x30 <= b <= 0x39 {
        Some((b - 0x30) as u8)
    } else if 0x41 <= b <= 0x46 {
        Some((b - 0x37) as u8)
    } else if 0x61 <= b <= 0x66 {
        Some((b - 0x57) as u8)
    } else {
        None
    }
}

fn hex_val_byte(b: u8) -> (r: Option<u8>)
    ensures
        r == hex_val(b),
{
    if 0x30 <= b && b <= 0x39 {
        Some(b - 0x30)
    } else if 0x41 <= b && b <= 0x46 {
        Some(b - 0x37)
    } else if 0x61 <= b && b <= 0x66 {
        Some(b - 0x57)
    } else {
        None
    }
}

/// What a form-urlencoded byte string decodes to: `+` is a space, `%XX` is
/// the byte `XX`, anything else stands for itself; a `%` not followed by two
/// hexadecimal digits refuses the whole string.
pub open spec fn form_decoded(s: Seq<u8>) -> Option<Seq<u8>>
    decreases s.len(),
{
    if s.len() == 0 {
        Some(Seq::empty())
    } else if s[0] == 0x25 {
        if s.len() >= 3 {
            match (hex_val(s[1]), hex_val(s[2])) {
                (Some(h), Some(l)) => match form_decoded(s.skip(3)) {
                    Some(rest) => Some(seq![(h * 16 + l) as u8] + rest),
                    None => None,
                },
                _ => None,
            }
        } else {
            None
        }
    } else {
        let b: u8 = if s[0] == 0x2b {
            0x20
        } else {
            s[0]
        };
        match form_decoded(s.drop_first()) {
            Some(rest) => Some(seq![b] + rest),
            None => None,
        }
    }
}

/// Decodes a form-urlencoded byte string, refusing it exactly when a `%` is
/// not followed by two hexadecimal digits.
pub fn form_decode(s: &[u8]) -> (r: Option<Vec<u8>>)
    ensures
        r is Some <==> form_decoded(s@) is Some,
        r matches Some(v) ==> form_decoded(s@) == Some(v@),
{
    let mut out: Vec<u8> = Vec::new();
    let n = s.len();
    let mut i: usize = 0;
    proof {
        assert(s@.skip(0) =~= s@);
    }
    while i < n
        invariant
            n == s@.len(),
            i <= n,
            match form_decoded(s@.skip(i as int)) {
                Some(rest) => form_decoded(s@) == Some(out@ + rest),
                None => form_decoded(s@) is None,
            },
        decreases n - i,
    {
        let b = s[i];
        if b == 0x25 {
            if n - i >= 3 {
                let h = hex_val_byte(s[i + 1]);
                let l = hex_val_byte(s[i + 2]);
                match (h, l) {
                    (Some(hv), Some(lv)) => {
                        out.push(hv * 16 + lv);
                        proof {
                            assert(s@.skip(i as int).skip(3) =~= s@.skip(i + 3));
                        }
                        i = i + 3;
                    },
                    _ => {
                        return None;
                    },
                }
            } else {
                return None;
            }
        } else {
            if b == 0x2b {
                out.push(0x20);
            } else {
                out.push(b);
            }
            proof {
                assert(s@.skip(i as int).drop_first() =~= s@.skip(i + 1));
            }
            i = i + 1;
        }
    }
    proof {
        assert(s@.skip(n as int) =~= Seq::<u8>::empty());
        assert(form_decoded(s@) == Some(out@ + Seq::<u8>::empty()));
        assert(out@ + Seq::<u8>::empty() =~= out@);
    }
    Some(out)
}

} // verus!
