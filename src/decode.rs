//! Percent decoding of URL-encoded paths.
use vstd::prelude::*;
use vstd::utf8::*;

verus! {

broadcast use vstd::utf8::encode_utf8_valid_utf8, vstd::utf8::encode_utf8_decode_utf8;

/// The byte value of `%`.
pub const PERCENT: u8 = 0x25;

pub open spec fn is_hex_byte(b: u8) -> bool {
    (0x30 <= b <= 0x39) || (0x61 <= b <= 0x66) || (0x41 <= b <= 0x46)
}

pub open spec fn hex_value(b: u8) -> int {
    if 0x30 <= b <= 0x39 {
        b - 0x30
    } else if 0x61 <= b <= 0x66 {
        b - 0x61 + 10
    } else {
        b - 0x41 + 10
    }
}

/// Whether `b` starts with `%` followed by two hex digits.
pub open spec fn starts_with_escape(b: Seq<u8>) -> bool {
    b.len() >= 3 && b[0] == PERCENT && is_hex_byte(b[1]) && is_hex_byte(b[2])
}

/// Every `%XX` escape (two hex digits) replaced by the byte it denotes; all
/// other bytes, including an incomplete or malformed escape, kept as they are.
pub open spec fn decode_bytes(b: Seq<u8>) -> Seq<u8>
    decreases b.len(),
{
    if b.len() == 0 {
        seq![]
    } else if starts_with_escape(b) {
        seq![(16 * hex_value(b[1]) + hex_value(b[2])) as u8] + decode_bytes(b.subrange(3, b.len() as int))
    } else {
        seq![b[0]] + decode_bytes(b.drop_first())
    }
}

/// The text `s` percent-decoded: the decoded bytes read as UTF-8, or `s`
/// itself where those bytes are not valid UTF-8.
pub open spec fn percent_decoded(s: Seq<char>) -> Seq<char> {
    let d = decode_bytes(encode_utf8(s));
    if valid_utf8(d) {
        decode_utf8(d)
    } else {
        s
    }
}

fn hex_digit_value(b: u8) -> (r: Option<u8>)
    ensures
        r is Some <==> is_hex_byte(b),
        r matches Some(v) ==> v as int == hex_value(b) && v < 16,
{
    if 0x30 <= b && b <= 0x39 {
        Some(b - 0x30)
    } else if 0x61 <= b && b <= 0x66 {
        Some(b - 0x61 + 10)
    } else if 0x41 <= b && b <= 0x46 {
        Some(b - 0x41 + 10)
    } else {
        None
    }
}

/// Relies on `String::from_utf8`: it succeeds exactly when the bytes are
/// valid UTF-8, and the string then holds the characters they encode.
#[verifier::external_body]
fn string_from_utf8(bytes: Vec<u8>) -> (r: Option<String>)
    ensures
        r is Some <==> valid_utf8(bytes@),
        r matches Some(s) ==> s@ == decode_utf8(bytes@),
{
    String::from_utf8(bytes).ok()
}

/// Replaces each `%XX` escape (X a hex digit) by the byte it encodes. Where
/// the decoded bytes are not valid UTF-8, the input comes back unchanged.
pub fn percent_decode(input: &str) -> (r: String)
    ensures
        r@ == percent_decoded(input@),
{
    let bytes = input.as_bytes();
    let ghost b = bytes@;
    let mut result: Vec<u8> = Vec::new();
    let mut i: usize = 0;
    assert(b.subrange(0, b.len() as int) =~= b);
    while i < bytes.len()
        invariant
            b == bytes@,
            b == encode_utf8(input@),
            i <= b.len(),
            result@ + decode_bytes(b.subrange(i as int, b.len() as int)) == decode_bytes(b),
        decreases b.len() - i,
    {
        let ghost rest = b.subrange(i as int, b.len() as int);
        if bytes[i] == PERCENT && bytes.len() - i > 2 {
            let hi = hex_digit_value(bytes[i + 1]);
            let lo = hex_digit_value(bytes[i + 2]);
            if let (Some(h), Some(l)) = (hi, lo) {
                assert(starts_with_escape(rest));
                assert(rest.subrange(3, rest.len() as int) =~= b.subrange(i + 3, b.len() as int));
                let ghost before = result@;
                result.push(h * 16 + l);
                assert(result@ =~= before + seq![(16 * hex_value(rest[1]) + hex_value(rest[2])) as u8]);
                i = i + 3;
                continue;
            }
        }
        assert(!starts_with_escape(rest));
        assert(rest.drop_first() =~= b.subrange(i + 1, b.len() as int));
        let ghost before = result@;
        result.push(bytes[i]);
        assert(result@ =~= before + seq![rest[0]]);
        i = i + 1;
    }
    assert(b.subrange(i as int, b.len() as int) =~= Seq::<u8>::empty());
    assert(result@ =~= decode_bytes(b));
    match string_from_utf8(result) {
        Some(s) => s,
        None => input.to_owned(),
    }
}

/// No byte of the UTF-8 encoding of a character other than `%` is the byte of `%`.
proof fn lemma_encode_char_no_percent(c: char)
    requires
        c != '%',
    ensures
        !encode_scalar(c as u32).contains(PERCENT),
{
    let v = c as u32;
    vstd::utf8::char_is_scalar(c);
    vstd::utf8::char_u32_cast(c, v);
    assert(v != 0x25u32) by {
        if v == 0x25u32 {
            vstd::utf8::char_u32_cast('%', 0x25u32);
        }
    }
    assert(v <= 0x7F ==> ((v & 0x7F) as u8) != 0x25u8) by (bit_vector)
        requires
            v != 0x25u32,
    ;
    assert((0xC0u8 | ((v >> 6u32) & 0x1F) as u8) >= 0x80u8) by (bit_vector);
    assert((0xE0u8 | ((v >> 12u32) & 0x0F) as u8) >= 0x80u8) by (bit_vector);
    assert((0xF0u8 | ((v >> 18u32) & 0x7) as u8) >= 0x80u8) by (bit_vector);
    assert((0x80u8 | (v & 0x3F) as u8) >= 0x80u8) by (bit_vector);
    assert((0x80u8 | ((v >> 6u32) & 0x3F) as u8) >= 0x80u8) by (bit_vector);
    assert((0x80u8 | ((v >> 12u32) & 0x3F) as u8) >= 0x80u8) by (bit_vector);
    let e = encode_scalar(v);
    assert forall|k: int| 0 <= k < e.len() implies e[k] != PERCENT by {}
}

proof fn lemma_encode_no_percent(s: Seq<char>)
    requires
        !s.contains('%'),
    ensures
        !encode_utf8(s).contains(PERCENT),
    decreases s.len(),
{
    if s.len() > 0 {
        assert(s[0] != '%') by {
            assert(s.contains(s[0]));
        }
        lemma_encode_char_no_percent(s[0]);
        assert(!s.drop_first().contains('%')) by {
            if s.drop_first().contains('%') {
                let k = choose|k: int| 0 <= k < s.drop_first().len() && s.drop_first()[k] == '%';
                assert(s[k + 1] == '%');
            }
        }
        lemma_encode_no_percent(s.drop_first());
        let e1 = encode_scalar(s[0] as u32);
        let e2 = encode_utf8(s.drop_first());
        assert forall|k: int| 0 <= k < (e1 + e2).len() implies (e1 + e2)[k] != PERCENT by {
            if k < e1.len() {
                assert(e1.contains(e1[k]));
            } else {
                assert(e2.contains(e2[k - e1.len()]));
            }
        }
    }
}

proof fn lemma_decode_bytes_no_percent(b: Seq<u8>)
    requires
        !b.contains(PERCENT),
    ensures
        decode_bytes(b) == b,
    decreases b.len(),
{
    if b.len() > 0 {
        assert(b[0] != PERCENT) by {
            assert(b.contains(b[0]));
        }
        assert(!b.drop_first().contains(PERCENT)) by {
            if b.drop_first().contains(PERCENT) {
                let k = choose|k: int| 0 <= k < b.drop_first().len() && b.drop_first()[k] == PERCENT;
                assert(b[k + 1] == PERCENT);
            }
        }
        lemma_decode_bytes_no_percent(b.drop_first());
        assert(seq![b[0]] + b.drop_first() =~= b);
    }
}

/// Decoding text that holds no `%` gives back the same text.
pub proof fn lemma_decode_without_percent_is_identity(s: Seq<char>)
    requires
        !s.contains('%'),
    ensures
        percent_decoded(s) == s,
{
    lemma_encode_no_percent(s);
    lemma_decode_bytes_no_percent(encode_utf8(s));
}

} // verus!
