//! Content digests and their hexadecimal text.
//!
//! The digest itself comes from the `sha2` crate and the hexadecimal codec from
//! the `hex` crate. Nothing about either is proved here: the functions marked
//! as trusted state what those crates compute, and the rest of the library is
//! verified against those statements.

use sha2::{Digest, Sha256};
use vstd::prelude::*;

verus! {

/// The SHA-256 digest of the UTF-8 encoding of `text`.
pub uninterp spec fn sha256_digest(text: Seq<char>) -> Seq<u8>;

/// The lower-case hexadecimal digit of a value below sixteen.
pub open spec fn hex_digit(v: nat) -> char
    recommends
        v < 16,
{
    if v < 10 {
        crate::text::digit_char(v)
    } else if v == 10 {
        'a'
    } else if v == 11 {
        'b'
    } else if v == 12 {
        'c'
    } else if v == 13 {
        'd'
    } else if v == 14 {
        'e'
    } else {
        'f'
    }
}

/// Two lower-case hexadecimal digits per byte, high nibble first.
pub open spec fn hex_text(bytes: Seq<u8>) -> Seq<char>
    decreases bytes.len(),
{
    if bytes.len() == 0 {
        Seq::empty()
    } else {
        hex_text(bytes.drop_last()).push(hex_digit((bytes.last() / 16) as nat)).push(
            hex_digit((bytes.last() % 16) as nat),
        )
    }
}

/// The hexadecimal text of bytes has two characters per byte.
pub proof fn lemma_hex_text_len(bytes: Seq<u8>)
    ensures
        hex_text(bytes).len() == 2 * bytes.len(),
    decreases bytes.len(),
{
    if bytes.len() > 0 {
        lemma_hex_text_len(bytes.drop_last());
    }
}

/// Different bytes have different hexadecimal texts.
pub proof fn lemma_hex_text_injective(a: Seq<u8>, b: Seq<u8>)
    requires
        hex_text(a) == hex_text(b),
    ensures
        a == b,
    decreases a.len(),
{
    lemma_hex_text_len(a);
    lemma_hex_text_len(b);
    if a.len() == 0 {
        assert(a =~= b);
    } else {
        let ta = hex_text(a);
        let tb = hex_text(b);
        lemma_hex_text_len(a.drop_last());
        lemma_hex_text_len(b.drop_last());
        assert(ta.drop_last().drop_last() =~= hex_text(a.drop_last()));
        assert(tb.drop_last().drop_last() =~= hex_text(b.drop_last()));
        lemma_hex_text_injective(a.drop_last(), b.drop_last());
        let (x, y) = (a.last(), b.last());
        assert(ta[ta.len() - 1] == hex_digit((x % 16) as nat));
        assert(ta[ta.len() - 2] == hex_digit((x / 16) as nat));
        assert(tb[tb.len() - 1] == hex_digit((y % 16) as nat));
        assert(tb[tb.len() - 2] == hex_digit((y / 16) as nat));
        assert(x % 16 == y % 16);
        assert(x / 16 == y / 16);
        assert(x == y);
        assert(a =~= a.drop_last().push(x));
        assert(b =~= b.drop_last().push(y));
    }
}

/// The value of a hexadecimal digit of either case, or `None` for any other character.
pub open spec fn hex_value(c: char) -> Option<nat> {
    if '0' <= c <= '9' {
        Some((c as nat - '0' as nat) as nat)
    } else if 'a' <= c <= 'f' {
        Some((c as nat - 'a' as nat + 10) as nat)
    } else if 'A' <= c <= 'F' {
        Some((c as nat - 'A' as nat + 10) as nat)
    } else {
        None
    }
}

/// Whether `text` is an even number of hexadecimal digits.
pub open spec fn is_hex_text(text: Seq<char>) -> bool {
    &&& text.len() % 2 == 0
    &&& forall|i: int| 0 <= i < text.len() ==> hex_value(#[trigger] text[i]) is Some
}

/// The bytes that hexadecimal `text` writes, one per pair of digits.
pub open spec fn hex_bytes(text: Seq<char>) -> Seq<u8>
    recommends
        is_hex_text(text),
{
    Seq::new(
        text.len() / 2,
        |i: int| (16 * hex_value(text[2 * i]).unwrap() + hex_value(text[2 * i + 1]).unwrap()) as u8,
    )
}

/// The character of `hex_text(bytes)` at each position: the high digit of a
/// byte at the even positions, the low digit at the odd ones.
pub proof fn lemma_hex_text_index(bytes: Seq<u8>, i: int)
    requires
        0 <= i < bytes.len(),
    ensures
        hex_text(bytes).len() == 2 * bytes.len(),
        hex_text(bytes)[2 * i] == hex_digit((bytes[i] / 16) as nat),
        hex_text(bytes)[2 * i + 1] == hex_digit((bytes[i] % 16) as nat),
    decreases bytes.len(),
{
    lemma_hex_text_len(bytes);
    lemma_hex_text_len(bytes.drop_last());
    if i < bytes.len() - 1 {
        lemma_hex_text_index(bytes.drop_last(), i);
    }
}

/// What `hex_text` writes, `hex_bytes` reads back.
pub proof fn lemma_hex_round_trip(bytes: Seq<u8>)
    ensures
        is_hex_text(hex_text(bytes)),
        hex_bytes(hex_text(bytes)) == bytes,
{
    let text = hex_text(bytes);
    lemma_hex_text_len(bytes);
    assert forall|j: int| 0 <= j < text.len() implies hex_value(#[trigger] text[j]) is Some by {
        lemma_hex_text_index(bytes, j / 2);
    }
    assert forall|i: int| 0 <= i < bytes.len() implies hex_bytes(text)[i] == bytes[i] by {
        lemma_hex_text_index(bytes, i);
        let b = bytes[i];
        assert(hex_value(hex_digit((b / 16) as nat)) == Some((b / 16) as nat));
        assert(hex_value(hex_digit((b % 16) as nat)) == Some((b % 16) as nat));
    }
    assert(hex_bytes(text) =~= bytes);
}

/// Trusted: `sha2::Sha256::digest` on the UTF-8 bytes of `text`. The contract
/// names the result, since the same text always gives the same digest, and
/// states its size: the output of `Sha256` is an array of 32 bytes.
#[verifier::external_body]
pub(crate) fn sha256(text: &str) -> (digest: Vec<u8>)
    ensures
        digest@ == sha256_digest(text@),
        digest@.len() == 32,
{
    Sha256::digest(text.as_bytes()).to_vec()
}

/// Trusted: `hex::encode`, which writes every byte as two lower-case
/// hexadecimal digits, high nibble first.
#[verifier::external_body]
pub(crate) fn hex_encode(bytes: &[u8]) -> (text: String)
    ensures
        text@ == hex_text(bytes@),
{
    hex::encode(bytes)
}

/// Trusted: `hex::decode`, which fails on an odd length or on any character
/// that is not a hexadecimal digit, and otherwise yields one byte per pair of
/// digits of either case.
#[verifier::external_body]
pub(crate) fn hex_decode(text: &str) -> (bytes: Option<Vec<u8>>)
    ensures
        bytes is Some <==> is_hex_text(text@),
        bytes matches Some(b) ==> b@ == hex_bytes(text@),
{
    hex::decode(text).ok()
}

/// The SHA-256 digest of `text`, written as 64 lower-case hexadecimal digits.
pub fn sha256_hex(text: &str) -> (digest: String)
    ensures
        digest@ == hex_text(sha256_digest(text@)),
        digest@.len() == 64,
{
    let raw = sha256(text);
    proof {
        lemma_hex_text_len(raw@);
    }
    hex_encode(raw.as_slice())
}

} // verus!
