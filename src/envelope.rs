//! The encryption envelope: X25519 key agreement on the Curve25519 form of
//! the Ed25519 keys, AES-SIV sealing, and the wire format
//! `"aes-256-siv" || nonce(16) || ciphertext`.
use vstd::prelude::*;
use vstd::string::StringExecFns;
use vstd::utf8::{valid_utf8, decode_utf8};
use crate::outside::{
    verifying_key_of, x25519_public_of, scalar_bytes_of, montgomery_of, x25519_of, siv_sealed, siv_opened, to_scalar_bytes, to_montgomery,
    x25519, siv_seal, siv_open, utf8_string,
};

verus! {

/// The ASCII format tag "aes-256-siv".
pub open spec fn format_tag() -> Seq<u8> {
    seq![97u8, 101u8, 115u8, 45u8, 50u8, 53u8, 54u8, 45u8, 115u8, 105u8, 118u8]
}

/// The envelope bytes for `nonce` and `ciphertext`.
pub open spec fn framed(nonce: Seq<u8>, ciphertext: Seq<u8>) -> Seq<u8> {
    format_tag() + nonce + ciphertext
}

/// The key that `secret` shares with the holder of `opposite`, if `opposite`
/// is a curve point.
pub open spec fn shared_key_of(secret: Seq<u8>, opposite: Seq<u8>) -> Option<[u8; 32]> {
    match montgomery_of(opposite) {
        None => None,
        Some(u) => Some(x25519_of(scalar_bytes_of(secret), u@)),
    }
}

/// The key the holder of secret `a` derives against the public key of
/// secret `b`.
pub open spec fn dh_key(a: Seq<u8>, b: Seq<u8>) -> [u8; 32] {
    x25519_of(scalar_bytes_of(a), x25519_public_of(scalar_bytes_of(b))@)
}

pub open spec fn no_format_text() -> Seq<char> {
    "Cannot get message format"@
}

pub open spec fn failed_text() -> Seq<char> {
    "Failed to decrypt this message"@
}

pub open spec fn failed_decryption_text() -> Seq<char> {
    "Failed to decrypt this message due decryption"@
}

/// What a reader holding `key` sees of envelope `data`: the text, or a
/// placeholder saying why there is none.
pub open spec fn reading_of(key: Option<[u8; 32]>, data: Seq<u8>) -> Seq<char> {
    if !(data.len() >= 11 && data.take(11) == format_tag()) {
        no_format_text()
    } else if data.len() < 27 {
        failed_text()
    } else {
        match key {
            None => failed_text(),
            Some(k) => match siv_opened(k@, data.subrange(11, 27), data.skip(27)) {
                None => failed_decryption_text(),
                Some(p) => if valid_utf8(p) { decode_utf8(p) } else { failed_text() },
            },
        }
    }
}

/// The key `secret` shares with `opposite`.
/// Both parties derive the same key: against the public key of secret
/// `other`, the key is `dh_key(secret, other)`, which is `dh_key(other, secret)`.
pub fn shared_key(secret: &[u8; 32], opposite: &[u8; 32]) -> (r: Option<[u8; 32]>)
    ensures
        r == shared_key_of(secret@, opposite@),
        forall|other: Seq<u8>| other.len() == 32 && *opposite == #[trigger] verifying_key_of(other) ==>
            r == Some(dh_key(secret@, other)) && r == Some(dh_key(other, secret@)),
{
    match to_montgomery(opposite) {
        None => None,
        Some(u) => {
            let k = to_scalar_bytes(secret);
            let r = x25519(k, u);
            proof {
                assert forall|other: Seq<u8>| other.len() == 32 && *opposite == #[trigger] verifying_key_of(other) implies
                    r == dh_key(secret@, other) && r == dh_key(other, secret@) by {
                    assert(u == x25519_public_of(scalar_bytes_of(other)));
                    assert(scalar_bytes_of(other).len() == 32);
                }
            }
            Some(r)
        },
    }
}

/// Encrypts `plaintext` from the holder of `secret` to `opposite` under
/// `nonce` (fresh random bytes); `None` when `opposite` is not a curve point.
pub fn encrypt(secret: &[u8; 32], opposite: &[u8; 32], plaintext: &[u8], nonce: &[u8; 16]) -> (r: Option<Vec<u8>>)
    ensures
        shared_key_of(secret@, opposite@) is None ==> r is None,
        shared_key_of(secret@, opposite@) matches Some(k) ==>
            (r matches Some(v) && v@ == framed(nonce@, siv_sealed(k@, nonce@, plaintext@))),
        r matches Some(v) ==> v@.len() == 27 + plaintext@.len() + 16,
        forall|other: Seq<u8>| other.len() == 32 && *opposite == #[trigger] verifying_key_of(other) ==>
            (r matches Some(v) && v@ == framed(nonce@, siv_sealed(dh_key(secret@, other)@, nonce@, plaintext@))),
{
    let key = match shared_key(secret, opposite) {
        None => { return None; },
        Some(k) => k,
    };
    let mut sealed = siv_seal(&key, nonce, plaintext);
    let mut out: Vec<u8> = vec![97u8, 101u8, 115u8, 45u8, 50u8, 53u8, 54u8, 45u8, 115u8, 105u8, 118u8];
    assert(out@ =~= format_tag());
    let mut i: usize = 0;
    while i < 16
        invariant
            i <= 16,
            out@ == format_tag() + nonce@.subrange(0, i as int),
        decreases 16 - i,
    {
        out.push(nonce[i]);
        assert(nonce@.subrange(0, i + 1) =~= nonce@.subrange(0, i as int).push(nonce@[i as int]));
        i = i + 1;
    }
    assert(nonce@.subrange(0, 16) =~= nonce@);
    out.append(&mut sealed);
    Some(out)
}

/// Whether `data` starts with the format tag.
fn has_format_tag(data: &Vec<u8>) -> (r: bool)
    ensures
        r == (data@.len() >= 11 && data@.take(11) == format_tag()),
{
    if data.len() < 11 {
        return false;
    }
    let tag: Vec<u8> = vec![97u8, 101u8, 115u8, 45u8, 50u8, 53u8, 54u8, 45u8, 115u8, 105u8, 118u8];
    assert(tag@ =~= format_tag());
    let mut i: usize = 0;
    while i < 11
        invariant
            i <= 11,
            data@.len() >= 11,
            tag@ == format_tag(),
            forall|j: int| 0 <= j < i ==> data@[j] == tag@[j],
        decreases 11 - i,
    {
        if data[i] != tag[i] {
            assert(data@.take(11)[i as int] != format_tag()[i as int]);
            return false;
        }
        i = i + 1;
    }
    assert(data@.take(11) =~= format_tag());
    true
}

/// Decrypts envelope `data` exchanged between the holder of `secret` and
/// `opposite`. It never fails: an unknown format, a short envelope, or a
/// ciphertext that does not authenticate each read as a placeholder text.
/// Round trip: when `opposite` is the public key of secret `other`, an
/// envelope that `other` encrypted for the holder of `secret` (sealed under
/// `dh_key(other, secret)`, as `encrypt` states) reads back as its
/// plaintext; this holds in either direction.
pub fn decrypt(secret: &[u8; 32], opposite: &[u8; 32], data: &Vec<u8>) -> (r: String)
    ensures
        r@ == reading_of(shared_key_of(secret@, opposite@), data@),
        forall|n: Seq<u8>, m: Seq<u8>|
            shared_key_of(secret@, opposite@) is Some && n.len() == 16
            && #[trigger] framed(n, siv_sealed(shared_key_of(secret@, opposite@)->0@, n, m)) == data@ ==>
                r@ == (if valid_utf8(m) { decode_utf8(m) } else { failed_text() }),
        forall|other: Seq<u8>, n: Seq<u8>, m: Seq<u8>|
            other.len() == 32 && *opposite == verifying_key_of(other) && n.len() == 16
            && #[trigger] framed(n, siv_sealed(dh_key(other, secret@)@, n, m)) == data@ ==>
                r@ == (if valid_utf8(m) { decode_utf8(m) } else { failed_text() }),
{
    proof {
        assert forall|n: Seq<u8>, c: Seq<u8>| n.len() == 16 && #[trigger] framed(n, c) == data@ implies
            data@.len() >= 27 && data@.take(11) == format_tag() by {
            assert(framed(n, c).take(11) =~= format_tag());
        }
    }
    if !has_format_tag(data) {
        return String::from_str("Cannot get message format");
    }
    if data.len() < 27 {
        return String::from_str("Failed to decrypt this message");
    }
    let key = match shared_key(secret, opposite) {
        None => { return String::from_str("Failed to decrypt this message"); },
        Some(k) => k,
    };
    let nonce = slice_to_vec_range(data, 11, 27);
    let body = slice_to_vec_range(data, 27, data.len());
    proof {
        assert forall|n: Seq<u8>, m: Seq<u8>|
            n.len() == 16 && #[trigger] framed(n, siv_sealed(key@, n, m)) == data@ implies
                n == nonce@ && siv_sealed(key@, nonce@, m) == body@ by {
            assert(framed(n, siv_sealed(key@, n, m)).subrange(11, 27) =~= n);
            assert(framed(n, siv_sealed(key@, n, m)).skip(27) =~= siv_sealed(key@, n, m));
        }
    }
    match siv_open(&key, nonce.as_slice(), body.as_slice()) {
        None => String::from_str("Failed to decrypt this message due decryption"),
        Some(p) => match utf8_string(p) {
            Some(text) => text,
            None => String::from_str("Failed to decrypt this message"),
        },
    }
}

/// Bytes `lo .. hi` of `data`.
fn slice_to_vec_range(data: &Vec<u8>, lo: usize, hi: usize) -> (r: Vec<u8>)
    requires
        lo <= hi <= data@.len(),
    ensures
        r@ == data@.subrange(lo as int, hi as int),
{
    let mut r: Vec<u8> = Vec::new();
    let mut j: usize = lo;
    while j < hi
        invariant
            lo <= j <= hi,
            hi <= data@.len(),
            r@ == data@.subrange(lo as int, j as int),
        decreases hi - j,
    {
        r.push(data[j]);
        assert(data@.subrange(lo as int, j + 1) =~= data@.subrange(lo as int, j as int).push(data@[j as int]));
        j = j + 1;
    }
    r
}

} // verus!
