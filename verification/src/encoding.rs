//! Encodings of bytes: percent-encoding, and those that are computed by outside
//! crates.
use vstd::prelude::*;

verus! {

// ---------------------------------------------------------------------------
// Base64
// ---------------------------------------------------------------------------

/// What base64's standard engine encodes some bytes to.
pub uninterp spec fn base64_text(bytes: Seq<u8>) -> Seq<char>;

/// `base64::Engine::encode` of `base64::engine::general_purpose::STANDARD`: the
/// standard alphabet, with padding.
#[verifier::external_body]
pub(crate) fn base64_encode(bytes: &[u8]) -> (r: String)
    ensures
        r@ == base64_text(bytes@),
{
    base64::Engine::encode(&base64::engine::general_purpose::STANDARD, bytes)
}

/// What base64's standard engine decodes some bytes to, where it can.
pub uninterp spec fn base64_bytes(text: Seq<u8>) -> Option<Seq<u8>>;

/// `base64::Engine::decode` of `base64::engine::general_purpose::STANDARD`; no
/// result where it reports an error.
#[verifier::external_body]
pub(crate) fn base64_decode(text: &[u8]) -> (r: Option<Vec<u8>>)
    ensures
        match r {
            Some(b) => base64_bytes(text@) == Some(b@),
            None => base64_bytes(text@) is None,
        },
{
    base64::Engine::decode(&base64::engine::general_purpose::STANDARD, text).ok()
}

// ---------------------------------------------------------------------------
// Gzip
// ---------------------------------------------------------------------------

/// The text that some bytes hold as a gzip member, where they hold one.
pub uninterp spec fn gunzipped(bytes: Seq<u8>) -> Option<Seq<char>>;

/// Reads `flate2::read::GzDecoder` to its end as text; no result where it reports
/// an error or the bytes are no UTF-8.
#[verifier::external_body]
pub(crate) fn gunzip_text(bytes: &[u8]) -> (r: Option<String>)
    ensures
        match r {
            Some(s) => gunzipped(bytes@) == Some(s@),
            None => gunzipped(bytes@) is None,
        },
{
    let mut text = String::new();
    let read = std::io::Read::read_to_string(&mut flate2::read::GzDecoder::new(bytes), &mut text);
    read.ok().map(|_| text)
}

// ---------------------------------------------------------------------------
// Percent-encoding
// ---------------------------------------------------------------------------

/// A byte that stands for itself: an ASCII letter or digit, `-`, `_`, `.` or
/// `~`.
pub open spec fn is_unreserved(b: u8) -> bool {
    (0x41 <= b <= 0x5a) || (0x61 <= b <= 0x7a) || (0x30 <= b <= 0x39) || b == 0x2d || b == 0x5f || b
        == 0x2e || b == 0x7e
}

/// The upper-case hexadecimal digit of `n < 16`.
pub open spec fn hex_digit(n: u8) -> char {
    if n < 10 {
        (48 + n) as u8 as char
    } else {
        (55 + n) as u8 as char
    }
}

/// One byte, percent-encoded where it does not stand for itself.
pub open spec fn encoded_byte(b: u8) -> Seq<char> {
    if is_unreserved(b) {
        seq![b as char]
    } else {
        seq!['%', hex_digit((b / 16) as u8), hex_digit((b % 16) as u8)]
    }
}

/// Some bytes, percent-encoded.
pub open spec fn encoded(bytes: Seq<u8>) -> Seq<char>
    decreases bytes.len(),
{
    if bytes.len() == 0 {
        Seq::empty()
    } else {
        encoded(bytes.drop_last()) + encoded_byte(bytes.last())
    }
}

fn hex(n: u8) -> (r: char)
    requires
        n < 16,
    ensures
        r == hex_digit(n),
{
    if n < 10 {
        (48 + n) as char
    } else {
        (55 + n) as char
    }
}

/// Percent-encodes the UTF-8 bytes of `s`.
pub fn urlencode(s: &str) -> (r: String)
    ensures
        r@ == encoded(vstd::utf8::encode_utf8(s@)),
{
    let bytes = s.as_bytes();
    let mut out = String::new();
    let mut i: usize = 0;
    assert(out@ =~= encoded(bytes@.take(0)));
    while i < bytes.len()
        invariant
            i <= bytes@.len(),
            out@ == encoded(bytes@.take(i as int)),
        decreases bytes@.len() - i,
    {
        let b: u8 = bytes[i];
        assert(bytes@.take(i + 1).drop_last() =~= bytes@.take(i as int));
        let ghost before = out@;
        if (0x41 <= b && b <= 0x5a) || (0x61 <= b && b <= 0x7a) || (0x30 <= b && b <= 0x39) || b
            == 0x2d || b == 0x5f || b == 0x2e || b == 0x7e {
            out.push(b as char);
        } else {
            out.push('%');
            out.push(hex(b / 16));
            out.push(hex(b % 16));
        }
        assert(out@ =~= before + encoded_byte(b));
        i += 1;
    }
    assert(bytes@.take(i as int) =~= bytes@);
    out
}

/// The value of a hexadecimal digit.
pub open spec fn hex_value(c: char) -> int {
    if '0' <= c && c <= '9' {
        c as int - 48
    } else {
        c as int - 55
    }
}

/// The bytes that a percent-encoded text stands for.
pub open spec fn decoded(s: Seq<char>) -> Seq<u8>
    decreases s.len(),
{
    if s.len() == 0 {
        Seq::empty()
    } else if s[0] == '%' && s.len() >= 3 {
        seq![(16 * hex_value(s[1]) + hex_value(s[2])) as u8] + decoded(s.skip(3))
    } else {
        seq![s[0] as u8] + decoded(s.skip(1))
    }
}

proof fn lemma_decoded_byte(b: u8, rest: Seq<char>)
    ensures
        decoded(encoded_byte(b) + rest) == seq![b] + decoded(rest),
{
    let s = encoded_byte(b) + rest;
    if is_unreserved(b) {
        assert(s.skip(1) =~= rest);
        assert(s[0] == b as char);
        assert(s[0] != '%');
    } else {
        assert(s.skip(3) =~= rest);
        let hi = (b / 16) as u8;
        let lo = (b % 16) as u8;
        assert(s[1] == hex_digit(hi));
        assert(s[2] == hex_digit(lo));
        assert(hex_value(hex_digit(hi)) == hi);
        assert(hex_value(hex_digit(lo)) == lo);
    }
}

proof fn lemma_decoded_prefix(bytes: Seq<u8>, rest: Seq<char>)
    ensures
        decoded(encoded(bytes) + rest) == bytes + decoded(rest),
    decreases bytes.len(),
{
    if bytes.len() == 0 {
        assert(encoded(bytes) + rest =~= rest);
        assert(bytes + decoded(rest) =~= decoded(rest));
    } else {
        let front = bytes.drop_last();
        let b = bytes.last();
        lemma_decoded_prefix(front, encoded_byte(b) + rest);
        lemma_decoded_byte(b, rest);
        assert(encoded(bytes) + rest =~= encoded(front) + (encoded_byte(b) + rest));
        assert(bytes + decoded(rest) =~= front + (seq![b] + decoded(rest)));
    }
}

/// Every byte survives percent-encoding: what was encoded is what decoding gives
/// back.
pub proof fn law_encoding_keeps_every_byte(bytes: Seq<u8>)
    ensures
        decoded(encoded(bytes)) == bytes,
{
    lemma_decoded_prefix(bytes, Seq::empty());
    assert(encoded(bytes) + Seq::<char>::empty() =~= encoded(bytes));
    assert(bytes + decoded(Seq::<char>::empty()) =~= bytes);
}

/// What needs no encoding stands for itself: text of ASCII letters and digits, dashes, low
/// lines, dots and tildes is encoded as it is.
pub proof fn law_plain_text_stays(bytes: Seq<u8>)
    requires
        forall|i: int|
            0 <= i < bytes.len() ==> (0x41 <= #[trigger] bytes[i] <= 0x5a) || (0x61 <= bytes[i]
                <= 0x7a) || (0x30 <= bytes[i] <= 0x39) || bytes[i] == 0x2d || bytes[i] == 0x5f
                || bytes[i] == 0x2e || bytes[i] == 0x7e,
    ensures
        encoded(bytes) == Seq::new(bytes.len(), |i: int| bytes[i] as char),
    decreases bytes.len(),
{
    if bytes.len() > 0 {
        let front = bytes.drop_last();
        assert forall|i: int| 0 <= i < front.len() implies (0x41 <= #[trigger] front[i] <= 0x5a) || (
        0x61 <= front[i] <= 0x7a) || (0x30 <= front[i] <= 0x39) || front[i] == 0x2d || front[i]
            == 0x5f || front[i] == 0x2e || front[i] == 0x7e by {
            assert(front[i] == bytes[i]);
        }
        law_plain_text_stays(front);
        assert(bytes[bytes.len() - 1] == bytes.last());
    }
    assert(encoded(bytes) =~= Seq::new(bytes.len(), |i: int| bytes[i] as char));
}

/// Encoded text holds nothing that has a meaning of its own in an address: letters, digits,
/// four marks, and percent signs.
pub proof fn law_encoded_text_is_safe(s: &str, r: String, i: int)
    requires
        call_ensures(urlencode, (s,), r),
        0 <= i < r@.len(),
    ensures
        ('A' <= r@[i] <= 'Z') || ('a' <= r@[i] <= 'z') || ('0' <= r@[i] <= '9') || r@[i] == '-'
            || r@[i] == '_' || r@[i] == '.' || r@[i] == '~' || r@[i] == '%',
{
    lemma_encoded_is_safe(vstd::utf8::encode_utf8(s@), i);
}

proof fn lemma_encoded_is_safe(bytes: Seq<u8>, i: int)
    requires
        0 <= i < encoded(bytes).len(),
    ensures
        ({
            let c = encoded(bytes)[i];
            ('A' <= c <= 'Z') || ('a' <= c <= 'z') || ('0' <= c <= '9') || c == '-' || c == '_' || c
                == '.' || c == '~' || c == '%'
        }),
    decreases bytes.len(),
{
    if bytes.len() > 0 {
        let front = encoded(bytes.drop_last());
        if i < front.len() {
            lemma_encoded_is_safe(bytes.drop_last(), i);
        } else {
            let b = bytes.last();
            assert(encoded(bytes)[i] == encoded_byte(b)[i - front.len()]);
        }
    }
}

/// A byte that needs encoding is a percent sign and its two hexadecimal digits, in upper
/// case, the greater first.
pub proof fn law_other_bytes_are_hexadecimal(b: u8)
    requires
        !(0x41 <= b <= 0x5a) && !(0x61 <= b <= 0x7a) && !(0x30 <= b <= 0x39) && b != 0x2d && b
            != 0x5f && b != 0x2e && b != 0x7e,
    ensures
        encoded(seq![b]).len() == 3,
        encoded(seq![b])[0] == '%',
        ({
            let high = encoded(seq![b])[1];
            let low = encoded(seq![b])[2];
            let h = if '0' <= high <= '9' {
                high as int - 48
            } else {
                high as int - 55
            };
            let l = if '0' <= low <= '9' {
                low as int - 48
            } else {
                low as int - 55
            };
            &&& ('0' <= high <= '9') || ('A' <= high <= 'F')
            &&& ('0' <= low <= '9') || ('A' <= low <= 'F')
            &&& b == 16 * h + l
        }),
{
    reveal_with_fuel(encoded, 2);
    assert(seq![b].drop_last() =~= Seq::empty());
    assert(encoded(seq![b]) =~= encoded_byte(b));
}

} // verus!
