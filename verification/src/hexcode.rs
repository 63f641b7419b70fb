//! Hex encoding and decoding of byte strings, as the `hex` crate performs it.

use vstd::prelude::*;

verus! {

/// The lowercase hex digit (`0-9a-f`) for a value below 16.
pub open spec fn hex_digit(n: u8) -> u8 {
    if n < 10 {
        (0x30 + n) as u8  // '0'..'9'
    } else {
        (0x61 + (n - 10)) as u8  // 'a'..'f'
    }
}

/// Two lowercase hex digits per byte, the high nibble first.
pub open spec fn hex_encode_spec(data: Seq<u8>) -> Seq<u8>
    decreases data.len(),
{
    if data.len() == 0 {
        seq![]
    } else {
        seq![hex_digit(data[0] / 16), hex_digit(data[0] % 16)] + hex_encode_spec(data.drop_first())
    }
}

/// The value of one hex digit; both letter cases are accepted.
pub open spec fn hex_value(c: u8) -> Option<u8> {
    if 0x41 <= c <= 0x46 {
        Some((c - 0x41 + 10) as u8)  // 'A'..'F'
    } else if 0x61 <= c <= 0x66 {
        Some((c - 0x61 + 10) as u8)  // 'a'..'f'
    } else if 0x30 <= c <= 0x39 {
        Some((c - 0x30) as u8)  // '0'..'9'
    } else {
        None
    }
}

/// The bytes that a hex text stands for: `None` when its length is odd or
/// when it holds a character that is not a hex digit.
pub open spec fn hex_decode_spec(text: Seq<u8>) -> Option<Seq<u8>>
    decreases text.len(),
{
    if text.len() == 0 {
        Some(seq![])
    } else if text.len() == 1 {
        None
    } else {
        match (hex_value(text[0]), hex_value(text[1]), hex_decode_spec(text.subrange(2, text.len() as int))) {
            (Some(hi), Some(lo), Some(rest)) => Some(seq![(hi * 16 + lo) as u8] + rest),
            _ => None,
        }
    }
}

/// `hex::encode`, converted to the bytes of the returned `String`: each byte
/// becomes two lowercase hex digits, the high nibble first.
#[verifier::external_body]
pub(crate) fn hex_encode(data: &[u8]) -> (encoded: Vec<u8>)
    requires
        data@.len() * 2 <= isize::MAX,
    ensures
        encoded@ == hex_encode_spec(data@),
{
    hex::encode(data).into_bytes()
}

/// `<Vec<u8> as hex::FromHex>::from_hex`, with its error turned into `None`:
/// it fails on an odd length or on a character outside `0-9`, `a-f`, `A-F`, and
/// otherwise turns each pair of digits into one byte.
#[verifier::external_body]
pub(crate) fn hex_decode(text: &[u8]) -> (decoded: Option<Vec<u8>>)
    ensures
        match decoded {
            Some(bytes) => hex_decode_spec(text@) == Some(bytes@),
            None => hex_decode_spec(text@) is None,
        },
{
    <Vec<u8> as hex::FromHex>::from_hex(text).ok()
}

/// Hex encoding distributes over concatenation.
pub proof fn lemma_hex_encode_concat(a: Seq<u8>, b: Seq<u8>)
    ensures
        hex_encode_spec(a + b) == hex_encode_spec(a) + hex_encode_spec(b),
    decreases a.len(),
{
    if a.len() == 0 {
        assert(a + b =~= b);
    } else {
        lemma_hex_encode_concat(a.drop_first(), b);
        assert((a + b).drop_first() =~= a.drop_first() + b);
        assert((a + b)[0] == a[0]);
    }
}

/// Each byte becomes two lowercase hex digits, the high nibble first, in order.
pub proof fn lemma_hex_encode_bytes(a: Seq<u8>)
    ensures
        hex_encode_spec(a).len() == 2 * a.len(),
        forall|i: int|
            0 <= i < a.len() ==> {
                &&& #[trigger] hex_encode_spec(a)[2 * i] == (if a[i] / 16 < 10 { 0x30 + a[i] / 16 } else { 0x57 + a[i] / 16 })
                &&& hex_encode_spec(a)[2 * i + 1] == (if a[i] % 16 < 10 { 0x30 + a[i] % 16 } else { 0x57 + a[i] % 16 })
            },
    decreases a.len(),
{
    if a.len() > 0 {
        let r = a.drop_first();
        lemma_hex_encode_bytes(r);
        let e = hex_encode_spec(a);
        assert forall|i: int| 0 <= i < a.len() implies {
            &&& #[trigger] e[2 * i] == (if a[i] / 16 < 10 { 0x30 + a[i] / 16 } else { 0x57 + a[i] / 16 })
            &&& e[2 * i + 1] == (if a[i] % 16 < 10 { 0x30 + a[i] % 16 } else { 0x57 + a[i] % 16 })
        } by {
            if i > 0 {
                assert(a[i] == r[i - 1]);
                assert(e[2 * i] == hex_encode_spec(r)[2 * (i - 1)]);
                assert(e[2 * i + 1] == hex_encode_spec(r)[2 * (i - 1) + 1]);
            }
        }
    }
}

/// Decoding undoes encoding.
pub proof fn lemma_hex_roundtrip(a: Seq<u8>)
    ensures
        hex_decode_spec(hex_encode_spec(a)) == Some(a),
    decreases a.len(),
{
    if a.len() > 0 {
        let e = hex_encode_spec(a);
        lemma_hex_roundtrip(a.drop_first());
        let b = a[0];
        assert(e.subrange(2, e.len() as int) =~= hex_encode_spec(a.drop_first()));
        assert(hex_value(hex_digit(b / 16)) == Some(b / 16));
        assert(hex_value(hex_digit(b % 16)) == Some(b % 16));
        assert(((b / 16) * 16 + b % 16) as u8 == b);
        assert(seq![b] + a.drop_first() =~= a);
    }
}

} // verus!
