//! The cryptography of the live client that needs no secret held by an
//! outside type: base64 text, the payload an sr25519 signature covers, JWT
//! tokens for the relay, WireGuard keys, the end-to-end key derived from a
//! mnemonic's entropy, and decryption of relay payloads.

use vstd::prelude::*;

use crate::codec::{hex_decode, hex_decoded, random_bytes};
use crate::error::GridError;
use crate::json::{json_text, to_json_string, JsonModel, JsonNumber, JsonValue};
use crate::text::decimal;
use vstd::string::StringSliceAdditionalSpecFns;
use vstd::utf8::encode_utf8;

verus! {

/// The base64 digit of `v`, standard or URL-safe.
pub open spec fn b64_digit(v: int, url: bool) -> char {
    if v < 26 {
        (65 + v) as char
    } else if v < 52 {
        (97 + v - 26) as char
    } else if v < 62 {
        (48 + v - 52) as char
    } else if v == 62 {
        if url { '-' } else { '+' }
    } else {
        if url { '_' } else { '/' }
    }
}

/// Base64 text of `bytes` (RFC 4648): three bytes to four digits, the last
/// group shortened, `=` padding when `pad`; URL-safe digits when `url`.
pub open spec fn base64_text(bytes: Seq<u8>, url: bool, pad: bool) -> Seq<char>
    decreases bytes.len(),
{
    if bytes.len() == 0 {
        Seq::empty()
    } else if bytes.len() == 1 {
        let a = bytes[0] as int;
        seq![b64_digit(a / 4, url), b64_digit((a % 4) * 16, url)] + if pad { seq!['=', '='] } else { Seq::empty() }
    } else if bytes.len() == 2 {
        let a = bytes[0] as int;
        let b = bytes[1] as int;
        seq![b64_digit(a / 4, url), b64_digit((a % 4) * 16 + b / 16, url), b64_digit((b % 16) * 4, url)]
            + if pad { seq!['='] } else { Seq::empty() }
    } else {
        let a = bytes[0] as int;
        let b = bytes[1] as int;
        let c = bytes[2] as int;
        seq![
            b64_digit(a / 4, url),
            b64_digit((a % 4) * 16 + b / 16, url),
            b64_digit((b % 16) * 4 + c / 64, url),
            b64_digit(c % 64, url),
        ] + base64_text(bytes.skip(3), url, pad)
    }
}

/// `base64`'s `STANDARD` engine: standard digits with padding, as RFC 4648
/// writes them.
#[verifier::external_body]
fn base64_standard(bytes: &[u8]) -> (r: String)
    ensures
        r@ == base64_text(bytes@, false, true),
{
    base64::Engine::encode(&base64::engine::general_purpose::STANDARD, bytes)
}

/// `base64`'s `URL_SAFE_NO_PAD` engine: URL-safe digits, no padding.
#[verifier::external_body]
fn base64_url(bytes: &[u8]) -> (r: String)
    ensures
        r@ == base64_text(bytes@, true, false),
{
    base64::Engine::encode(&base64::engine::general_purpose::URL_SAFE_NO_PAD, bytes)
}

/// The BLAKE2b digest of `data` with a 32-byte output.
pub uninterp spec fn blake2b_256(data: Seq<u8>) -> Seq<u8>;

/// `blake2::Blake2b<U32>` over `data`: its 32-byte digest.
#[verifier::external_body]
fn blake2b_256_of(data: &[u8]) -> (r: Vec<u8>)
    ensures
        r@ == blake2b_256(data@),
        r@.len() == 32,
{
    <blake2::Blake2b<blake2::digest::consts::U32> as blake2::Digest>::digest(data).to_vec()
}

/// The SHA-256 digest of `data`.
pub uninterp spec fn sha256_digest(data: Seq<u8>) -> Seq<u8>;

/// `sha2::Sha256` over `data`: its 32-byte digest.
#[verifier::external_body]
fn sha256_of(data: &[u8]) -> (r: Vec<u8>)
    ensures
        r@ == sha256_digest(data@),
        r@.len() == 32,
{
    <sha2::Sha256 as sha2::Digest>::digest(data).to_vec()
}

/// AES-256-GCM decryption of `ciphertext` (with its tag) under `key` and
/// `nonce`: the plaintext, or the text of the error when it does not
/// authenticate.
pub uninterp spec fn gcm_open(key: Seq<u8>, nonce: Seq<u8>, ciphertext: Seq<u8>) -> Result<Seq<u8>, Seq<char>>;

/// `aes_gcm::Aes256Gcm` built from a 32-byte key, then `decrypt` with a
/// 12-byte nonce; what comes out is named by [`gcm_open`].
#[verifier::external_body]
fn aes256gcm_open(key: &[u8], nonce: &[u8], ciphertext: &[u8]) -> (r: Result<Vec<u8>, String>)
    requires
        key@.len() == 32,
        nonce@.len() == 12,
    ensures
        match gcm_open(key@, nonce@, ciphertext@) {
            Ok(p) => r matches Ok(v) && v@ == p,
            Err(m) => r matches Err(s) && s@ == m,
        },
{
    let cipher = match <aes_gcm::Aes256Gcm as aes_gcm::aead::KeyInit>::new_from_slice(key) {
        Ok(c) => c,
        Err(e) => return Err(e.to_string()),
    };
    aes_gcm::aead::Aead::decrypt(&cipher, aes_gcm::Nonce::from_slice(nonce), ciphertext).map_err(|e| e.to_string())
}

/// The secp256k1 ECDH point (x and y, 64 bytes) of a public key and a secret
/// key given as bytes, or the text of the error when a key is not valid.
pub uninterp spec fn ecdh_point(public_key: Seq<u8>, secret_key: Seq<u8>) -> Result<Seq<u8>, Seq<char>>;

/// `secp256k1::ecdh::shared_secret_point`, with both keys read from bytes
/// by `from_slice`; what comes out is named by [`ecdh_point`], 64 bytes
/// when it succeeds.
#[verifier::external_body]
fn ecdh_shared_point(public_key: &[u8], secret_key: &[u8]) -> (r: Result<Vec<u8>, String>)
    ensures
        match ecdh_point(public_key@, secret_key@) {
            Ok(p) => r matches Ok(v) && v@ == p,
            Err(m) => r matches Err(s) && s@ == m,
        },
        r matches Ok(v) ==> v@.len() == 64,
{
    let pk = secp256k1::PublicKey::from_slice(public_key).map_err(|e| e.to_string())?;
    let sk = secp256k1::SecretKey::from_slice(secret_key).map_err(|e| e.to_string())?;
    Ok(secp256k1::ecdh::shared_secret_point(&pk, &sk).to_vec())
}

/// PBKDF2 with HMAC-SHA512 over `password` and `salt`, 64 bytes of output,
/// or the text of the error.
pub uninterp spec fn pbkdf2_sha512(password: Seq<u8>, salt: Seq<u8>, rounds: u32) -> Result<Seq<u8>, Seq<char>>;

/// `pbkdf2::pbkdf2::<Hmac<Sha512>>` filling 64 bytes; what comes out is
/// named by [`pbkdf2_sha512`].
#[verifier::external_body]
fn pbkdf2_sha512_of(password: &[u8], salt: &[u8], rounds: u32) -> (r: Result<Vec<u8>, String>)
    ensures
        match pbkdf2_sha512(password@, salt@, rounds) {
            Ok(p) => r matches Ok(v) && v@ == p,
            Err(m) => r matches Err(s) && s@ == m,
        },
        r matches Ok(v) ==> v@.len() == 64,
{
    let mut out = [0u8; 64];
    pbkdf2::pbkdf2::<hmac::Hmac<sha2::Sha512>>(password, salt, rounds, &mut out).map_err(|e| e.to_string())?;
    Ok(out.to_vec())
}

/// The big-endian value of `bytes`.
pub open spec fn big_endian_value(bytes: Seq<u8>) -> nat
    decreases bytes.len(),
{
    if bytes.len() == 0 {
        0
    } else {
        big_endian_value(bytes.drop_last()) * 256 + bytes.last() as nat
    }
}

/// The order of the secp256k1 group.
pub open spec fn secp256k1_order() -> nat {
    0xfffffffffffffffffffffffffffffffebaaedce6af48a03bbfd25e8cd0364141nat
}

/// Whether `bytes` are a secp256k1 secret key: 32 bytes whose big-endian
/// value is neither zero nor the group order or above.
pub open spec fn secret_key_valid(bytes: Seq<u8>) -> bool {
    &&& bytes.len() == 32
    &&& 0 < big_endian_value(bytes) < secp256k1_order()
}

/// The text of secp256k1's error for a bad secret key.
pub open spec fn bad_secret_key_text() -> Seq<char> {
    "malformed or out-of-range secret key"@
}

/// `secp256k1::SecretKey::from_slice`, keeping only whether it succeeds: the
/// claim is that it accepts exactly 32 bytes that `secp256k1_ec_seckey_verify`
/// finds valid (not zero and below the group order), and that its error
/// reads as the crate's `InvalidSecretKey` does.
#[verifier::external_body]
fn secp_secret_check(bytes: &[u8]) -> (r: Result<(), String>)
    ensures
        r is Ok <==> secret_key_valid(bytes@),
        r matches Err(s) ==> s@ == bad_secret_key_text(),
{
    secp256k1::SecretKey::from_slice(bytes).map(|_| ()).map_err(|e| e.to_string())
}

/// What an sr25519 signature over `input` signs: the input itself, or its
/// BLAKE2b-256 digest when it is longer than 256 bytes.
pub fn signing_payload(input: &[u8]) -> (r: Vec<u8>)
    ensures
        r@ == if input@.len() > 256 { blake2b_256(input@) } else { input@ },
{
    if input.len() > 256 {
        blake2b_256_of(input)
    } else {
        vstd::slice::slice_to_vec(input)
    }
}

/// `bytes` clamped as a Curve25519 secret: the low three bits of the first
/// byte cleared, the top bit of the last cleared and the one below it set.
pub open spec fn clamped(bytes: Seq<u8>) -> Seq<u8> {
    bytes.update(0, bytes[0] & 248u8).update(31, (bytes[31] & 127u8) | 64u8)
}

/// The WireGuard private key made of 32 bytes: clamped, in standard base64.
pub fn wireguard_key_from(bytes: &[u8]) -> (r: String)
    requires
        bytes@.len() == 32,
    ensures
        r@ == base64_text(clamped(bytes@), false, true),
{
    let mut key = vstd::slice::slice_to_vec(bytes);
    let first = key[0] & 248u8;
    key.set(0, first);
    let last = (key[31] & 127u8) | 64u8;
    key.set(31, last);
    assert(key@ =~= clamped(bytes@));
    base64_standard(key.as_slice())
}

/// A fresh WireGuard private key: 32 random bytes, clamped, in base64.
pub fn generate_wireguard_private_key() -> (r: String)
    ensures
        exists|bytes: Seq<u8>| bytes.len() == 32 && r@ == #[trigger] base64_text(clamped(bytes), false, true),
{
    let bytes = random_bytes(32);
    wireguard_key_from(bytes.as_slice())
}

/// The header of every relay token: `{"alg":"RS512","typ":"JWT"}`.
pub open spec fn jwt_header_json() -> Seq<char> {
    "{\"alg\":\"RS512\",\"typ\":\"JWT\"}"@
}

/// The claims of a relay token, members in the order `serde_json` writes a
/// map: expiry, issue time, session (when there is one) and twin.
pub open spec fn jwt_claims(twin_id: u32, now: u64, ttl_secs: u64, session: Option<Seq<char>>) -> JsonModel {
    JsonModel::Object(jwt_claim_members(twin_id, now, ttl_secs, session))
}

/// The members of [`jwt_claims`].
pub open spec fn jwt_claim_members(twin_id: u32, now: u64, ttl_secs: u64, session: Option<Seq<char>>) -> Seq<(Seq<char>, JsonModel)> {
    let head = seq![
        ("exp"@, JsonModel::Number(JsonNumber::PosInt((now + ttl_secs) as u64))),
        ("iat"@, JsonModel::Number(JsonNumber::PosInt(now))),
    ];
    let with_sid = match session {
        Some(s) => head.push(("sid"@, JsonModel::Str(s))),
        None => head,
    };
    with_sid.push(("sub"@, JsonModel::Number(JsonNumber::PosInt(twin_id as u64))))
}

/// What a relay token signs: the header and the claims, each in URL-safe
/// base64 without padding, joined by a dot.
pub open spec fn jwt_signing_text(twin_id: u32, now: u64, ttl_secs: u64, session: Option<Seq<char>>) -> Seq<char> {
    base64_text(encode_utf8(jwt_header_json()), true, false) + "."@ + base64_text(
        encode_utf8(json_text(jwt_claims(twin_id, now, ttl_secs, session))),
        true,
        false,
    )
}

/// The view of an optional text.
pub open spec fn opt_view(o: Option<&str>) -> Option<Seq<char>> {
    match o {
        Some(s) => Some(s@),
        None => None,
    }
}

/// The part of a relay token for `twin_id` that its signature covers,
/// issued at `now` and valid for `ttl_secs`.
pub fn jwt_signing_input(twin_id: u32, now: u64, ttl_secs: u64, session: Option<&str>) -> (r: String)
    requires
        now + ttl_secs <= u64::MAX,
    ensures
        r@ == jwt_signing_text(twin_id, now, ttl_secs, opt_view(session)),
{
    let header_text = "{\"alg\":\"RS512\",\"typ\":\"JWT\"}";
    proof {
        reveal_strlit("{\"alg\":\"RS512\",\"typ\":\"JWT\"}");
    }
    let header = base64_url(header_text.as_bytes());
    let mut members: Vec<(String, JsonValue)> = Vec::new();
    crate::json::object_push(&mut members, "exp", JsonValue::Number(JsonNumber::PosInt(now + ttl_secs)));
    crate::json::object_push(&mut members, "iat", JsonValue::Number(JsonNumber::PosInt(now)));
    match session {
        Some(s) => crate::json::object_push(&mut members, "sid", JsonValue::String(String::from_str(s))),
        None => {},
    }
    crate::json::object_push(&mut members, "sub", JsonValue::Number(JsonNumber::PosInt(twin_id as u64)));
    assert(crate::json::member_models(members@) =~= jwt_claim_members(twin_id, now, ttl_secs, opt_view(session)));
    let claims = JsonValue::Object(members);
    let claims_text = to_json_string(&claims);
    let payload = base64_url(claims_text.as_str().as_bytes());
    let mut out = header;
    out.append(".");
    out.append(payload.as_str());
    out
}

/// A relay token: the signed part, a dot, and the signature typed as
/// sr25519 (the byte `s` before it) in URL-safe base64 without padding.
pub fn jwt_with_signature(signing_input: &str, signature: &[u8]) -> (r: String)
    ensures
        r@ == signing_input@ + "."@ + base64_text(seq![115u8] + signature@, true, false),
{
    let mut typed: Vec<u8> = Vec::new();
    typed.push(115u8);
    let mut i: usize = 0;
    while i < signature.len()
        invariant
            i <= signature@.len(),
            typed@ == seq![115u8] + signature@.take(i as int),
        decreases signature.len() - i,
    {
        typed.push(signature[i]);
        proof {
            assert(signature@.take(i + 1) =~= signature@.take(i as int).push(signature@[i as int]));
        }
        i = i + 1;
    }
    assert(signature@.take(signature@.len() as int) =~= signature@);
    let mut out = String::from_str(signing_input);
    out.append(".");
    let sig = base64_url(typed.as_slice());
    out.append(sig.as_str());
    out
}

/// The salt of the end-to-end key derivation.
pub open spec fn mnemonic_salt() -> Seq<u8> {
    seq![109u8, 110u8, 101u8, 109u8, 111u8, 110u8, 105u8, 99u8]
}

/// The end-to-end secret key of a mnemonic, from its entropy: the first 32
/// bytes of PBKDF2-HMAC-SHA512 over the entropy with the salt `mnemonic` and
/// 2048 rounds, when they make a valid secp256k1 key.
pub fn e2e_key_from_entropy(entropy: &[u8]) -> (r: Result<Vec<u8>, GridError>)
    ensures
        match pbkdf2_sha512(entropy@, mnemonic_salt(), 2048) {
            Err(m) => r matches Err(GridError::Backend(s)) && s@ == m,
            Ok(seed) => if secret_key_valid(seed.take(32)) {
                r matches Ok(k) && k@ == seed.take(32)
            } else {
                r matches Err(GridError::Backend(s)) && s@ == bad_secret_key_text()
            },
        },
{
    let mut salt: Vec<u8> = Vec::new();
    salt.push(109u8);
    salt.push(110u8);
    salt.push(101u8);
    salt.push(109u8);
    salt.push(111u8);
    salt.push(110u8);
    salt.push(105u8);
    salt.push(99u8);
    assert(salt@ =~= mnemonic_salt());
    let seed = match pbkdf2_sha512_of(entropy, salt.as_slice(), 2048) {
        Ok(s) => s,
        Err(m) => return Err(GridError::Backend(m)),
    };
    let key = vstd::slice::slice_to_vec(vstd::slice::slice_subrange(seed.as_slice(), 0, 32));
    assert(key@ =~= seed@.take(32));
    match secp_secret_check(key.as_slice()) {
        Ok(()) => Ok(key),
        Err(m) => Err(GridError::Backend(m)),
    }
}

/// `s` with every leading `0x` removed.
pub open spec fn strip_hex_prefix(s: Seq<char>) -> Seq<char>
    decreases s.len(),
{
    if s.len() >= 2 && s[0] == '0' && s[1] == 'x' {
        strip_hex_prefix(s.skip(2))
    } else {
        s
    }
}

fn strip_prefixes(s: &str) -> (r: String)
    ensures
        r@ == strip_hex_prefix(s@),
{
    let n = s.unicode_len();
    let mut i: usize = 0;
    assert(s@.skip(0) =~= s@);
    while n >= 2 && i <= n - 2 && s.get_char(i) == '0' && s.get_char(i + 1) == 'x'
        invariant
            n == s@.len(),
            i <= n,
            strip_hex_prefix(s@) == strip_hex_prefix(s@.skip(i as int)),
        decreases n - i,
    {
        proof {
            let t = s@.skip(i as int);
            assert(t[0] == '0' && t[1] == 'x');
            assert(t.skip(2) =~= s@.skip(i + 2));
        }
        i = i + 2;
    }
    proof {
        let t = s@.skip(i as int);
        if t.len() >= 2 {
            assert(t[0] == s@[i as int] && t[1] == s@[i + 1]);
        }
    }
    String::from_str(s.substring_char(i, n))
}

/// How a relay payload encrypted for this client opens: the sender's public
/// key (hex, `0x` prefixes dropped) and the client's end-to-end secret give
/// an ECDH point; the SHA-256 of its first 32 bytes is the AES-256-GCM key;
/// the payload is a 12-byte nonce followed by the sealed text.
pub open spec fn decrypted(secret: Seq<u8>, twin_id: u32, public_key: Option<Seq<char>>, cipher_text: Seq<u8>) -> Result<Seq<u8>, Seq<char>> {
    match public_key {
        None => Err("twin "@ + decimal(twin_id as nat) + " missing public key"@),
        Some(pk) => match hex_decoded(strip_hex_prefix(pk)) {
            None => Err("invalid public key hex"@),
            Some(pk_bytes) => match ecdh_point(pk_bytes, secret) {
                Err(m) => Err(m),
                Ok(point) => if cipher_text.len() < 12 {
                    Err("invalid encrypted RMB payload"@)
                } else {
                    match gcm_open(sha256_digest(point.take(32)), cipher_text.take(12), cipher_text.skip(12)) {
                        Ok(p) => Ok(p),
                        Err(m) => Err("decrypt RMB payload: "@ + m),
                    }
                },
            },
        },
    }
}

/// Opens a relay payload sent encrypted by the twin `twin_id` (see
/// [`decrypted`]); every failure is a backend error.
pub fn decrypt_rmb_payload(e2e_secret: &[u8], twin_id: u32, public_key: Option<&str>, cipher_text: &[u8]) -> (r: Result<Vec<u8>, GridError>)
    ensures
        match decrypted(e2e_secret@, twin_id, opt_view(public_key), cipher_text@) {
            Ok(p) => r matches Ok(v) && v@ == p,
            Err(m) => r matches Err(GridError::Backend(s)) && s@ == m,
        },
{
    let pk = match public_key {
        Some(pk) => pk,
        None => {
            let mut msg = String::from_str("twin ");
            crate::text::push_decimal(&mut msg, twin_id as u64);
            msg.append(" missing public key");
            return Err(GridError::Backend(msg));
        },
    };
    let stripped = strip_prefixes(pk);
    let pk_bytes = match hex_decode(stripped.as_str()) {
        Some(b) => b,
        None => return Err(GridError::backend("invalid public key hex")),
    };
    let point = match ecdh_shared_point(pk_bytes.as_slice(), e2e_secret) {
        Ok(p) => p,
        Err(m) => return Err(GridError::Backend(m)),
    };
    let half = vstd::slice::slice_subrange(point.as_slice(), 0, 32);
    assert(half@ =~= point@.take(32));
    let key = sha256_of(half);
    if cipher_text.len() < 12 {
        return Err(GridError::backend("invalid encrypted RMB payload"));
    }
    let nonce = vstd::slice::slice_subrange(cipher_text, 0, 12);
    let sealed = vstd::slice::slice_subrange(cipher_text, 12, cipher_text.len());
    assert(nonce@ =~= cipher_text@.take(12));
    assert(sealed@ =~= cipher_text@.skip(12));
    match aes256gcm_open(key.as_slice(), nonce, sealed) {
        Ok(p) => Ok(p),
        Err(m) => {
            let mut msg = String::from_str("decrypt RMB payload: ");
            msg.append(m.as_str());
            Err(GridError::Backend(msg))
        },
    }
}

} // verus!
