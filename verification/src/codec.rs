//! Hex text, MD5 digests and random bytes, from the `hex`, `md5` and `rand`
//! crates.

use vstd::prelude::*;

use crate::json::hex_digit;
use crate::workloads::{hex_bytes, hex_value};

verus! {

/// The lower-case hex text of `bytes`, two digits per byte.
pub open spec fn hex_text(bytes: Seq<u8>) -> Seq<char>
    decreases bytes.len(),
{
    if bytes.len() == 0 {
        Seq::empty()
    } else {
        hex_text(bytes.drop_last()) + seq![
            hex_digit((bytes.last() / 16) as nat),
            hex_digit((bytes.last() % 16) as nat),
        ]
    }
}

/// `hex::encode`: the claim is that it writes each byte as two lower-case
/// hex digits, in order, as its documentation states.
#[verifier::external_body]
pub(crate) fn hex_encode(bytes: &[u8]) -> (r: String)
    ensures
        r@ == hex_text(bytes@),
{
    hex::encode(bytes)
}

/// The bytes that `hex::decode` reads from `s`: an even number of hex
/// digits of either case; nothing otherwise.
pub open spec fn hex_decoded(s: Seq<char>) -> Option<Seq<u8>> {
    if s.len() % 2 == 0 && forall|i: int| 0 <= i < s.len() ==> #[trigger] hex_value(s[i]) is Some {
        Some(hex_bytes(s))
    } else {
        None
    }
}

/// A hex digit reads back as the value it writes.
proof fn lemma_hex_digit_value(d: nat)
    requires
        d < 16,
    ensures
        hex_value(hex_digit(d)) == Some(d as u8),
{
}

/// Digit `j` of the hex text of `bytes`: the high half of byte `j / 2` at
/// even places, its low half at odd ones.
spec fn hex_place(bytes: Seq<u8>, j: int) -> char {
    if j % 2 == 0 {
        hex_digit((bytes[j / 2] / 16) as nat)
    } else {
        hex_digit((bytes[j / 2] % 16) as nat)
    }
}

/// The hex text of `bytes` has two digits per byte, the high one first.
proof fn lemma_hex_text_digits(bytes: Seq<u8>)
    ensures
        hex_text(bytes).len() == 2 * bytes.len(),
        forall|j: int| 0 <= j < 2 * bytes.len() ==> #[trigger] hex_text(bytes)[j] == hex_place(bytes, j),
    decreases bytes.len(),
{
    if bytes.len() > 0 {
        let rest = bytes.drop_last();
        lemma_hex_text_digits(rest);
        assert forall|j: int| 0 <= j < 2 * bytes.len() implies #[trigger] hex_text(bytes)[j] == hex_place(bytes, j) by {
            if j < 2 * rest.len() {
                assert(hex_text(rest)[j] == hex_place(rest, j));
                assert(rest[j / 2] == bytes[j / 2]);
            }
        }
    }
}

/// Decoding the hex text of any bytes gives those bytes back.
pub proof fn law_hex_round_trip(bytes: Seq<u8>)
    ensures
        hex_decoded(hex_text(bytes)) == Some(bytes),
{
    let t = hex_text(bytes);
    lemma_hex_text_digits(bytes);
    assert forall|j: int| 0 <= j < t.len() implies #[trigger] hex_value(t[j]) is Some by {
        assert(t[j] == hex_place(bytes, j));
        lemma_hex_digit_value((bytes[j / 2] / 16) as nat);
        lemma_hex_digit_value((bytes[j / 2] % 16) as nat);
    }
    assert forall|i: int| 0 <= i < bytes.len() implies #[trigger] hex_bytes(t)[i] == bytes[i] by {
        lemma_hex_digit_value((bytes[i] / 16) as nat);
        lemma_hex_digit_value((bytes[i] % 16) as nat);
        assert(t[2 * i] == hex_place(bytes, 2 * i));
        assert(t[2 * i + 1] == hex_place(bytes, 2 * i + 1));
        assert((2 * i) / 2 == i && (2 * i) % 2 == 0);
        assert((2 * i + 1) / 2 == i && (2 * i + 1) % 2 == 1);
        assert(bytes[i] / 16 * 16 + bytes[i] % 16 == bytes[i]);
    }
    assert(hex_bytes(t) =~= bytes);
}

/// `hex::decode`: the claim is that it accepts exactly an even number of hex
/// digits (of either case) and yields the bytes they write; an odd length or
/// another character is an error.
#[verifier::external_body]
pub(crate) fn hex_decode(s: &str) -> (r: Option<Vec<u8>>)
    ensures
        match hex_decoded(s@) {
            Some(b) => r matches Some(v) && v@ == b,
            None => r is None,
        },
{
    hex::decode(s).ok()
}

/// The MD5 digest of `data`.
pub uninterp spec fn md5_digest(data: Seq<u8>) -> Seq<u8>;

/// `md5::compute`: the digest of `data`, 16 bytes long.
#[verifier::external_body]
pub(crate) fn md5_compute(data: &[u8]) -> (r: Vec<u8>)
    ensures
        r@ == md5_digest(data@),
        r@.len() == 16,
{
    md5::compute(data).0.to_vec()
}

/// `rand::RngCore::fill_bytes` on the thread generator: `len` random bytes.
/// Nothing is claimed of the bytes but their number.
#[verifier::external_body]
pub(crate) fn random_bytes(len: usize) -> (r: Vec<u8>)
    ensures
        r@.len() == len,
{
    let mut bytes = vec![0u8; len];
    rand::RngCore::fill_bytes(&mut rand::thread_rng(), &mut bytes);
    bytes
}

} // verus!
