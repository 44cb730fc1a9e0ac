//! Percent-encoding of URL text, and decimal rendering of lengths.
use vstd::prelude::*;
use vstd::utf8::*;

verus! {

broadcast use vstd::seq::group_seq_axioms;

/// ASCII digits and letters: the only bytes that pass through encoding unchanged.
pub open spec fn is_alphanumeric(b: u8) -> bool {
    (0x30 <= b <= 0x39) || (0x41 <= b <= 0x5A) || (0x61 <= b <= 0x7A)
}

/// The upper-case hexadecimal digit for `n < 16`.
pub open spec fn hex_digit(n: u8) -> u8 {
    if n < 10 {
        (0x30 + n) as u8
    } else {
        (0x41 + n - 10) as u8
    }
}

/// A hexadecimal digit of either case.
pub open spec fn is_hex_digit(b: u8) -> bool {
    (0x30 <= b <= 0x39) || (0x41 <= b <= 0x46) || (0x61 <= b <= 0x66)
}

/// The value of a hexadecimal digit.
pub open spec fn hex_value(b: u8) -> u8 {
    if b <= 0x39 {
        (b - 0x30) as u8
    } else if b <= 0x46 {
        (b - 0x41 + 10) as u8
    } else {
        (b - 0x61 + 10) as u8
    }
}

/// One byte as it appears in encoded text: itself, or `%` and two digits.
pub open spec fn escape_byte(b: u8) -> Seq<u8> {
    if is_alphanumeric(b) {
        seq![b]
    } else {
        seq![0x25u8, hex_digit(b / 16), hex_digit(b % 16)]
    }
}

/// Percent-encoding where every byte but an ASCII letter or digit is escaped.
pub open spec fn percent_encoded(b: Seq<u8>) -> Seq<u8>
    decreases b.len(),
{
    if b.len() == 0 {
        Seq::empty()
    } else {
        escape_byte(b[0]) + percent_encoded(b.drop_first())
    }
}

/// Percent-decoding: `%` with two hexadecimal digits stands for one byte;
/// every other byte, a stray `%` included, stands for itself.
pub open spec fn percent_decoded(b: Seq<u8>) -> Seq<u8>
    decreases b.len(),
{
    if b.len() == 0 {
        Seq::empty()
    } else if b[0] == 0x25 && b.len() >= 3 && is_hex_digit(b[1]) && is_hex_digit(b[2]) {
        seq![(hex_value(b[1]) * 16 + hex_value(b[2])) as u8] + percent_decoded(
            b.subrange(3, b.len() as int),
        )
    } else {
        seq![b[0]] + percent_decoded(b.drop_first())
    }
}

/// Encoding distributes over concatenation.
pub proof fn lemma_encoded_concat(a: Seq<u8>, b: Seq<u8>)
    ensures
        percent_encoded(a + b) == percent_encoded(a) + percent_encoded(b),
    decreases a.len(),
{
    if a.len() == 0 {
        assert(a + b =~= b);
    } else {
        assert((a + b).drop_first() =~= a.drop_first() + b);
        lemma_encoded_concat(a.drop_first(), b);
    }
}

proof fn lemma_escape_byte_decodes(x: u8, rest: Seq<u8>)
    ensures
        percent_decoded(escape_byte(x) + rest) == seq![x] + percent_decoded(rest),
{
    let e = escape_byte(x) + rest;
    if is_alphanumeric(x) {
        assert(e.drop_first() =~= rest);
    } else {
        let hi = x / 16;
        let lo = x % 16;
        assert(hi < 16 && lo < 16 && x == hi * 16 + lo) by (bit_vector)
            requires hi == x / 16, lo == x % 16;
        assert(e.subrange(3, e.len() as int) =~= rest);
        assert(hex_value(hex_digit(hi)) == hi);
        assert(hex_value(hex_digit(lo)) == lo);
    }
}

/// Decoding undoes encoding, for every byte sequence.
pub proof fn lemma_decode_encoded(b: Seq<u8>)
    ensures
        percent_decoded(percent_encoded(b)) == b,
    decreases b.len(),
{
    if b.len() > 0 {
        lemma_decode_encoded(b.drop_first());
        lemma_escape_byte_decodes(b[0], percent_encoded(b.drop_first()));
        assert(seq![b[0]] + b.drop_first() =~= b);
    }
}

/// What `url_escape::decode` makes of text whose percent-decoded bytes are
/// not well-formed UTF-8 (each ill-formed sequence becomes U+FFFD).
pub uninterp spec fn lossy_decoded(s: Seq<char>) -> Seq<char>;

/// Relies on url_escape::encode with the NON_ALPHANUMERIC set: every byte of
/// the UTF-8 text that is not an ASCII letter or digit becomes `%XX`, with
/// upper-case hexadecimal digits.
#[verifier::external_body]
fn escape_text(s: &str) -> (r: String)
    ensures
        encode_utf8(r@) == percent_encoded(encode_utf8(s@)),
{
    url_escape::encode(s, url_escape::NON_ALPHANUMERIC).into_owned()
}

/// Relies on url_escape::decode: it percent-decodes the bytes of `s`, then
/// reads them as UTF-8, lossily.
#[verifier::external_body]
fn unescape_text(s: &str) -> (r: String)
    ensures
        r@ == lossy_decoded(s@),
        valid_utf8(percent_decoded(encode_utf8(s@))) ==> r@ == decode_utf8(
            percent_decoded(encode_utf8(s@)),
        ),
{
    url_escape::decode(s).into_owned()
}

/// Percent-encodes the UTF-8 bytes of `s`, leaving only ASCII letters and digits as they are.
pub fn encode_component(s: &str) -> (r: String)
    ensures
        encode_utf8(r@) == percent_encoded(encode_utf8(s@)),
{
    escape_text(s)
}

/// Decodes a percent-encoded request path into text.
/// Where the decoded bytes are not UTF-8 the result is the lossy reading.
pub fn decode_path(s: &str) -> (r: String)
    ensures
        r@ == lossy_decoded(s@),
        valid_utf8(percent_decoded(encode_utf8(s@))) ==> r@ == decode_utf8(
            percent_decoded(encode_utf8(s@)),
        ),
{
    unescape_text(s)
}

/// Decoding the encoding of any text gives the text back: if `encoded` is
/// what `encode_component` returns for `name`, then `decode_path` returns
/// `name` for `encoded`.
pub proof fn law_encode_then_decode(name: Seq<char>, encoded: Seq<char>)
    requires
        encode_utf8(encoded) == percent_encoded(encode_utf8(name)),
    ensures
        valid_utf8(percent_decoded(encode_utf8(encoded))),
        decode_utf8(percent_decoded(encode_utf8(encoded))) == name,
{
    lemma_decode_encoded(encode_utf8(name));
    encode_utf8_valid_utf8(name);
    encode_utf8_decode_utf8(name);
}

/// The decimal digits of `n`, most significant first, with no leading zero.
pub open spec fn decimal(n: nat) -> Seq<u8>
    decreases n,
{
    if n < 10 {
        seq![(0x30 + n) as u8]
    } else {
        decimal(n / 10).push((0x30 + n % 10) as u8)
    }
}

/// Renders `n` in decimal ASCII digits.
pub fn decimal_bytes(n: usize) -> (r: Vec<u8>)
    ensures
        r@ == decimal(n as nat),
    decreases n,
{
    if n < 10 {
        let mut v: Vec<u8> = Vec::new();
        v.push((0x30 + n) as u8);
        assert(v@ =~= seq![(0x30 + n) as u8]);
        v
    } else {
        let mut v = decimal_bytes(n / 10);
        v.push((0x30 + n % 10) as u8);
        v
    }
}

} // verus!
