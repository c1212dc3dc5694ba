//! Text forms of byte-valued cells: lowercase hexadecimal for binary blobs,
//! and the best-effort UTF-8 fallback for column types with no registered
//! decoder.

use vstd::prelude::*;
use crate::textutil::concat_map;

verus! {

/// The character of one hexadecimal digit, lowercase.
pub open spec fn spec_hex_digit(d: int) -> char {
    if d < 10 {
        crate::numtext::spec_digit_char(d)
    } else if d == 10 {
        'a'
    } else if d == 11 {
        'b'
    } else if d == 12 {
        'c'
    } else if d == 13 {
        'd'
    } else if d == 14 {
        'e'
    } else {
        'f'
    }
}

/// One byte as two lowercase hexadecimal digits, high nibble first.
pub open spec fn spec_byte_hex(b: u8) -> Seq<char> {
    seq![spec_hex_digit(b as int / 16), spec_hex_digit(b as int % 16)]
}

/// A byte string as lowercase hexadecimal, two digits per byte, in order.
pub open spec fn spec_hex(bytes: Seq<u8>) -> Seq<char> {
    concat_map(bytes, |b: u8| spec_byte_hex(b))
}

/// Relies on hex::encode: every input byte becomes two lowercase hexadecimal
/// digits, high nibble first, in input order.
#[verifier::external_body]
pub(crate) fn hex_encode(bytes: &Vec<u8>) -> (r: String)
    ensures
        r@ == spec_hex(bytes@),
{
    hex::encode(bytes)
}

/// What String::from_utf8_lossy returns for a given byte string; the result
/// depends on the bytes alone.
pub uninterp spec fn lossy_utf8(bytes: Seq<u8>) -> Seq<char>;

/// Relies on String::from_utf8_lossy: decodes the bytes as UTF-8, replacing
/// invalid sequences with the replacement character; bytes that are all
/// ASCII, being valid UTF-8, decode to their own characters.
#[verifier::external_body]
pub(crate) fn utf8_lossy(bytes: &Vec<u8>) -> (r: String)
    ensures
        r@ == lossy_utf8(bytes@),
        (forall|i: int| 0 <= i < bytes@.len() ==> bytes@[i] < 128) ==> r@ == bytes@.map_values(
            |b: u8| b as char,
        ),
{
    String::from_utf8_lossy(bytes).to_string()
}

/// The codepoint of a hexadecimal digit character, which makes the sixteen
/// digit characters pairwise distinct.
pub proof fn lemma_hex_digit_code(d: int)
    requires
        0 <= d < 16,
    ensures
        d < 10 ==> spec_hex_digit(d) as u32 == 48 + d,
        d >= 10 ==> spec_hex_digit(d) as u32 == 87 + d,
{
    if d < 10 {
        crate::numtext::lemma_digit_char_code(d);
    }
}

/// The hexadecimal rendering of a byte string determines the bytes: two equal
/// renderings come from equal byte strings.
pub proof fn lemma_hex_injective(a: Seq<u8>, b: Seq<u8>)
    requires
        spec_hex(a) == spec_hex(b),
    ensures
        a == b,
    decreases a.len(),
{
    lemma_hex_len(a);
    lemma_hex_len(b);
    if a.len() == 0 {
        assert(a =~= b);
    } else {
        assert(spec_hex(a) == spec_byte_hex(a[0]) + spec_hex(a.drop_first()));
        assert(spec_hex(b) == spec_byte_hex(b[0]) + spec_hex(b.drop_first()));
        assert(spec_hex(a)[0] == spec_hex_digit(a[0] as int / 16));
        assert(spec_hex(a)[1] == spec_hex_digit(a[0] as int % 16));
        assert(spec_hex(b)[0] == spec_hex_digit(b[0] as int / 16));
        assert(spec_hex(b)[1] == spec_hex_digit(b[0] as int % 16));
        lemma_hex_digit_code(a[0] as int / 16);
        lemma_hex_digit_code(a[0] as int % 16);
        lemma_hex_digit_code(b[0] as int / 16);
        lemma_hex_digit_code(b[0] as int % 16);
        assert(a[0] as int / 16 == b[0] as int / 16);
        assert(a[0] as int % 16 == b[0] as int % 16);
        vstd::arithmetic::div_mod::lemma_fundamental_div_mod(a[0] as int, 16);
        vstd::arithmetic::div_mod::lemma_fundamental_div_mod(b[0] as int, 16);
        assert(a[0] == b[0]);
        assert(spec_hex(a.drop_first()) =~= spec_hex(a).skip(2));
        assert(spec_hex(b.drop_first()) =~= spec_hex(b).skip(2));
        lemma_hex_injective(a.drop_first(), b.drop_first());
        assert(a.len() == b.len());
        assert forall|i: int| 0 <= i < a.len() implies a[i] == b[i] by {
            if i > 0 {
                assert(a[i] == a.drop_first()[i - 1]);
                assert(b[i] == b.drop_first()[i - 1]);
            }
        }
        assert(a =~= b);
    }
}

/// A hexadecimal rendering is twice as long as its byte string.
pub proof fn lemma_hex_len(bytes: Seq<u8>)
    ensures
        spec_hex(bytes).len() == 2 * bytes.len(),
    decreases bytes.len(),
{
    if bytes.len() > 0 {
        lemma_hex_len(bytes.drop_first());
    }
}

} // verus!
