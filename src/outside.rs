//! The calls this library makes into outside crates, each with the contract
//! that the crate's source or documentation gives it.
use vstd::prelude::*;

verus! {

/// The SHA-512 digest of a byte string.
pub uninterp spec fn sha512_of(data: Seq<u8>) -> [u8; 64];

/// Whether Ed25519ph (SHA-512 prehash of `message`, empty context, strict
/// verification) accepts `signature` from the compressed point `key`.
pub uninterp spec fn ed25519ph_accepts(key: Seq<u8>, message: Seq<u8>, signature: Seq<u8>) -> bool;

/// Whether a count of microseconds since the epoch names a UTC date-time
/// that chrono can represent: the range `DateTime::from_timestamp_micros`
/// accepts (within years -262143 to 262142), to the microsecond.
pub open spec fn utc_micros_representable(micros: int) -> bool {
    -8_334_601_228_800_000_000 <= micros <= 8_210_266_876_799_999_999
}

/// Relies on sha2::Sha512 (via `Digest::digest`): the 64-byte digest of `data`.
#[verifier::external_body]
pub(crate) fn sha512(data: &[u8]) -> (r: [u8; 64])
    ensures
        r == sha512_of(data@),
{
    <sha2::Sha512 as sha2::Digest>::digest(data).into()
}

/// Relies on ed25519_dalek::VerifyingKey::verify_prehashed_strict, fed a
/// sha2::Sha512 state that has absorbed `message`; a key whose bytes do not
/// decompress (VerifyingKey::from_bytes fails) accepts nothing.
#[verifier::external_body]
pub(crate) fn verify_prehashed_strict(key: &[u8; 32], message: &[u8], signature: &[u8; 64]) -> (r: bool)
    ensures
        r == ed25519ph_accepts(key@, message@, signature@),
{
    match ed25519_dalek::VerifyingKey::from_bytes(key) {
        Ok(key) => {
            let prehash = <sha2::Sha512 as sha2::Digest>::new_with_prefix(message);
            let signature = ed25519_dalek::Signature::from_bytes(signature);
            key.verify_prehashed_strict(prehash, None, &signature).is_ok()
        },
        Err(_) => false,
    }
}

/// Relies on chrono::TimeZone::timestamp_micros for Utc: whether it gives a
/// single date-time. It gives none outside the range of NaiveDate
/// (years MIN_YEAR = -262143 to MAX_YEAR = 262142).
#[verifier::external_body]
pub(crate) fn utc_micros_valid(micros: i64) -> (r: bool)
    ensures
        r == utc_micros_representable(micros as int),
{
    chrono::TimeZone::timestamp_micros(&chrono::Utc, micros).single().is_some()
}

/// The lowercase hexadecimal digit of a value below 16.
pub open spec fn hex_digit(v: nat) -> char {
    if v < 10 {
        ((v + 48) as u8) as char
    } else {
        ((v + 87) as u8) as char
    }
}

/// Lowercase hexadecimal notation of a byte string, two digits per byte.
pub open spec fn hex_of(b: Seq<u8>) -> Seq<char>
    decreases b.len(),
{
    if b.len() == 0 {
        Seq::empty()
    } else {
        hex_of(b.drop_last()) + seq![hex_digit((b.last() / 16) as nat), hex_digit((b.last() % 16) as nat)]
    }
}

/// Relies on hex::encode: lowercase, two digits per byte, most significant
/// nibble first.
#[verifier::external_body]
pub(crate) fn hex_encode(data: &[u8]) -> (r: String)
    ensures
        r@ == hex_of(data@),
{
    hex::encode(data)
}

/// The public key (compressed Edwards point) of an Ed25519 secret key.
pub uninterp spec fn verifying_key_of(secret: Seq<u8>) -> [u8; 32];

/// The Ed25519ph signature (SHA-512 prehash, empty context) by `secret` of `message`.
pub uninterp spec fn ed25519ph_signature_of(secret: Seq<u8>, message: Seq<u8>) -> [u8; 64];

/// The X25519 secret scalar bytes that belong to an Ed25519 secret key:
/// the first half of the SHA-512 digest of the key.
pub open spec fn scalar_bytes_of(secret: Seq<u8>) -> Seq<u8> {
    sha512_of(secret)@.subrange(0, 32)
}

/// The Montgomery form of an Ed25519 public key, if its bytes decompress.
pub uninterp spec fn montgomery_of(public: Seq<u8>) -> Option<[u8; 32]>;

/// The X25519 function on a scalar and a Montgomery u-coordinate.
pub uninterp spec fn x25519_of(k: Seq<u8>, u: Seq<u8>) -> [u8; 32];

/// `x25519_dalek::X25519_BASEPOINT_BYTES`: u = 9.
pub open spec fn x25519_basepoint() -> Seq<u8> {
    seq![9u8] + Seq::new(31, |i: int| 0u8)
}

/// The X25519 public key of scalar bytes `k`.
pub open spec fn x25519_public_of(k: Seq<u8>) -> [u8; 32] {
    x25519_of(k, x25519_basepoint())
}

/// AES-SIV (CMAC, 256-bit key) sealing of `plaintext` under `nonce`, empty associated data.
pub uninterp spec fn siv_sealed(key: Seq<u8>, nonce: Seq<u8>, plaintext: Seq<u8>) -> Seq<u8>;

/// AES-SIV opening of `ciphertext` under `nonce`, empty associated data; `None` when it does not authenticate.
pub uninterp spec fn siv_opened(key: Seq<u8>, nonce: Seq<u8>, ciphertext: Seq<u8>) -> Option<Seq<u8>>;

/// Relies on ed25519_dalek::SigningKey::verifying_key (after SigningKey::from_bytes).
#[verifier::external_body]
pub(crate) fn verifying_key(secret: &[u8; 32]) -> (r: [u8; 32])
    ensures
        r == verifying_key_of(secret@),
{
    ed25519_dalek::SigningKey::from_bytes(secret).verifying_key().to_bytes()
}

/// Relies on ed25519_dalek::SigningKey::sign_prehashed, fed a sha2::Sha512
/// state that has absorbed `message`; with no context it cannot fail.
#[verifier::external_body]
pub(crate) fn sign_prehashed(secret: &[u8; 32], message: &[u8]) -> (r: [u8; 64])
    ensures
        r == ed25519ph_signature_of(secret@, message@),
{
    let prehash = <sha2::Sha512 as sha2::Digest>::new_with_prefix(message);
    ed25519_dalek::SigningKey::from_bytes(secret)
        .sign_prehashed(prehash, None)
        .expect("signing without a context does not fail")
        .to_bytes()
}

/// Relies on ed25519_dalek::SigningKey::to_scalar_bytes: the first 32 bytes
/// of the SHA-512 digest of the secret key.
#[verifier::external_body]
pub(crate) fn to_scalar_bytes(secret: &[u8; 32]) -> (r: [u8; 32])
    ensures
        r@ == scalar_bytes_of(secret@),
{
    ed25519_dalek::SigningKey::from_bytes(secret).to_scalar_bytes()
}

/// Relies on ed25519_dalek::VerifyingKey::to_montgomery, after
/// VerifyingKey::from_bytes, which fails on bytes that do not decompress.
/// Its documentation: the result is the X25519 public key whose secret is
/// `sk.to_scalar_bytes()` for the signing key `sk` of this key.
#[verifier::external_body]
pub(crate) fn to_montgomery(public: &[u8; 32]) -> (r: Option<[u8; 32]>)
    ensures
        r == montgomery_of(public@),
        forall|sk: Seq<u8>| sk.len() == 32 && public == #[trigger] verifying_key_of(sk) ==>
            r == Some(x25519_public_of(scalar_bytes_of(sk))),
{
    match ed25519_dalek::VerifyingKey::from_bytes(public) {
        Ok(key) => Some(key.to_montgomery().to_bytes()),
        Err(_) => None,
    }
}

/// Relies on x25519_dalek::x25519, a Diffie-Hellman function: as its
/// documentation shows, `x25519(a, public(b)) == x25519(b, public(a))`
/// where `public(x)` is `x25519(x, X25519_BASEPOINT_BYTES)`.
#[verifier::external_body]
pub(crate) fn x25519(k: [u8; 32], u: [u8; 32]) -> (r: [u8; 32])
    ensures
        r == x25519_of(k@, u@),
        forall|b: Seq<u8>| b.len() == 32 && u == #[trigger] x25519_public_of(b) ==>
            r == x25519_of(b, x25519_public_of(k@)@),
{
    x25519_dalek::x25519(k, u)
}

/// Relies on aes_siv::Aes128SivAead (a 256-bit key) through aead::Aead::encrypt:
/// it passes two headers to SIV (the associated data and the nonce), below
/// the limit of 126, so it cannot fail; it prepends the 16-byte synthetic IV.
#[verifier::external_body]
pub(crate) fn siv_seal(key: &[u8; 32], nonce: &[u8; 16], plaintext: &[u8]) -> (r: Vec<u8>)
    ensures
        r@ == siv_sealed(key@, nonce@, plaintext@),
        r@.len() == plaintext@.len() + 16,
{
    let cipher = <aes_siv::Aes128SivAead as aes_siv::KeyInit>::new(key.into());
    aes_siv::aead::Aead::encrypt(&cipher, aes_siv::Nonce::from_slice(nonce), plaintext)
        .expect("SIV sealing with two headers does not fail")
}

/// Relies on aes_siv::Aes128SivAead through aead::Aead::decrypt: it opens
/// exactly what sealing under the same key and nonce produced.
#[verifier::external_body]
pub(crate) fn siv_open(key: &[u8; 32], nonce: &[u8], ciphertext: &[u8]) -> (r: Option<Vec<u8>>)
    requires
        nonce@.len() == 16,
    ensures
        r matches Some(p) ==> siv_opened(key@, nonce@, ciphertext@) == Some(p@),
        r is None ==> siv_opened(key@, nonce@, ciphertext@) is None,
        r is None ==> forall|m: Seq<u8>| ciphertext@ != #[trigger] siv_sealed(key@, nonce@, m),
        r matches Some(p) ==> forall|m: Seq<u8>| ciphertext@ == #[trigger] siv_sealed(key@, nonce@, m) ==> p@ == m,
{
    let cipher = <aes_siv::Aes128SivAead as aes_siv::KeyInit>::new(key.into());
    aes_siv::aead::Aead::decrypt(&cipher, aes_siv::Nonce::from_slice(nonce), ciphertext).ok()
}

/// Relies on String::from_utf8: it succeeds exactly on valid UTF-8, and the
/// string holds the characters those bytes encode.
#[verifier::external_body]
pub(crate) fn utf8_string(bytes: Vec<u8>) -> (r: Option<String>)
    ensures
        r is Some <==> vstd::utf8::valid_utf8(bytes@),
        r matches Some(s) ==> s@ == vstd::utf8::decode_utf8(bytes@),
{
    String::from_utf8(bytes).ok()
}

} // verus!
