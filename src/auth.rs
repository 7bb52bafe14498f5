//! Request authentication: the domain-separated signed digest, the replay
//! window, and signature verification.
use vstd::prelude::*;
use crate::interface::ISigner;
use crate::irpcerror::{
    INVALID_SIGNATURE, MAXIMUM_CONFIRMATION_TIMESTAMP_OFFSET_EXCCEED, DESERIALIZATION_ERROR,
};
use crate::outside::{
    sha512, sha512_of, verify_prehashed_strict, ed25519ph_accepts, utc_micros_valid,
    utc_micros_representable, verifying_key, verifying_key_of, sign_prehashed, ed25519ph_signature_of,
    montgomery_of, to_montgomery,
};

verus! {

/// The kind of operation a signature authorises.
#[derive(Clone, Copy, Debug, PartialEq, Eq, Structural)]
pub enum Operation {
    SendMessage,
    GetMessages,
    DeleteMessages,
    Authorize,
}

/// The ASCII domain tag of an operation.
pub open spec fn tag_of(op: Operation) -> Seq<u8> {
    match op {
        // "send-message"
        Operation::SendMessage => seq![115u8, 101u8, 110u8, 100u8, 45u8, 109u8, 101u8, 115u8, 115u8, 97u8, 103u8, 101u8],
        // "get-messages"
        Operation::GetMessages => seq![103u8, 101u8, 116u8, 45u8, 109u8, 101u8, 115u8, 115u8, 97u8, 103u8, 101u8, 115u8],
        // "delete-messages"
        Operation::DeleteMessages => seq![100u8, 101u8, 108u8, 101u8, 116u8, 101u8, 45u8, 109u8, 101u8, 115u8, 115u8, 97u8, 103u8, 101u8, 115u8],
        // "authorize"
        Operation::Authorize => seq![97u8, 117u8, 116u8, 104u8, 111u8, 114u8, 105u8, 122u8, 101u8],
    }
}

/// The `k` low-order bytes of `n`, least significant first.
pub open spec fn le_bytes_of(n: nat, k: nat) -> Seq<u8>
    decreases k,
{
    if k == 0 {
        Seq::empty()
    } else {
        seq![(n % 256) as u8] + le_bytes_of(n / 256, (k - 1) as nat)
    }
}

/// The two's-complement bit pattern of a 64-bit signed integer, as a natural.
pub open spec fn twos_complement(v: i64) -> nat {
    if v >= 0 {
        v as nat
    } else {
        (v + 0x1_0000_0000_0000_0000) as nat
    }
}

/// `i64::to_le_bytes`.
pub open spec fn i64_le(v: i64) -> Seq<u8> {
    le_bytes_of(twos_complement(v), 8)
}

/// The bytes whose digest a signature covers: `tag || salt || timestamp_le`.
pub open spec fn signed_input_of(op: Operation, salt: Seq<u8>, timestamp: i64) -> Seq<u8> {
    tag_of(op) + salt + i64_le(timestamp)
}

/// The digest a signed request stands for (the message hash of a Send).
pub open spec fn request_digest(op: Operation, salt: Seq<u8>, timestamp: i64) -> [u8; 64] {
    sha512_of(signed_input_of(op, salt, timestamp))
}

/// Whether the signature of a request is valid for operation `op`.
pub open spec fn signature_valid(op: Operation, s: ISigner) -> bool {
    ed25519ph_accepts(s.address@, signed_input_of(op, s.salt@, s.timestamp), s.signature@)
}

/// Whether `timestamp` lies inside the window `[now - max_offset, now]`.
pub open spec fn within_window(timestamp: i64, now: i64, max_offset: i64) -> bool {
    now - max_offset <= timestamp && timestamp <= now
}

/// The outcome of authenticating a request: the error code, or the digest.
pub open spec fn authentication_of(op: Operation, s: ISigner, now: i64, max_offset: i64) -> Result<[u8; 64], i32> {
    if request_check(s, now, max_offset) is Err {
        Err(request_check(s, now, max_offset)->Err_0)
    } else if !signature_valid(op, s) {
        Err(INVALID_SIGNATURE)
    } else {
        Ok(request_digest(op, s.salt@, s.timestamp))
    }
}

/// The domain tag of `op` as bytes.
pub fn domain_tag(op: Operation) -> (r: Vec<u8>)
    ensures
        r@ == tag_of(op),
{
    let r = match op {
        Operation::SendMessage => vec![115u8, 101u8, 110u8, 100u8, 45u8, 109u8, 101u8, 115u8, 115u8, 97u8, 103u8, 101u8],
        Operation::GetMessages => vec![103u8, 101u8, 116u8, 45u8, 109u8, 101u8, 115u8, 115u8, 97u8, 103u8, 101u8, 115u8],
        Operation::DeleteMessages => vec![100u8, 101u8, 108u8, 101u8, 116u8, 101u8, 45u8, 109u8, 101u8, 115u8, 115u8, 97u8, 103u8, 101u8, 115u8],
        Operation::Authorize => vec![97u8, 117u8, 116u8, 104u8, 111u8, 114u8, 105u8, 122u8, 101u8],
    };
    assert(r@ =~= tag_of(op));
    r
}

/// Little-endian bytes of a 64-bit signed integer, as `i64::to_le_bytes`.
pub fn timestamp_le_bytes(v: i64) -> (r: Vec<u8>)
    ensures
        r@ == i64_le(v),
{
    let mut n: u64 = if v >= 0 {
        v as u64
    } else {
        let magnitude: u64 = (-(v as i128)) as u64;
        (u64::MAX - magnitude) + 1
    };
    let mut out: Vec<u8> = Vec::new();
    let mut k: usize = 0;
    while k < 8
        invariant
            k <= 8,
            out@ + le_bytes_of(n as nat, (8 - k) as nat) == i64_le(v),
        decreases 8 - k,
    {
        let ghost before = out@;
        out.push((n % 256) as u8);
        proof {
            let rest = le_bytes_of((n / 256) as nat, (8 - k - 1) as nat);
            assert(le_bytes_of(n as nat, (8 - k) as nat) == seq![(n % 256) as u8] + rest);
            assert(out@ + rest =~= before + (seq![(n % 256) as u8] + rest));
        }
        n = n / 256;
        k = k + 1;
    }
    assert(out@ =~= out@ + le_bytes_of(n as nat, 0));
    out
}

/// The bytes that a request's signature covers, `tag || salt || timestamp_le`.
pub fn signed_input(op: Operation, salt: &[u8; 16], timestamp: i64) -> (r: Vec<u8>)
    ensures
        r@ == signed_input_of(op, salt@, timestamp),
{
    let mut out = domain_tag(op);
    let mut i: usize = 0;
    while i < 16
        invariant
            i <= 16,
            out@ == tag_of(op) + salt@.subrange(0, i as int),
        decreases 16 - i,
    {
        out.push(salt[i]);
        assert(salt@.subrange(0, i + 1) =~= salt@.subrange(0, i as int).push(salt@[i as int]));
        i = i + 1;
    }
    assert(salt@.subrange(0, 16) =~= salt@);
    let mut le = timestamp_le_bytes(timestamp);
    out.append(&mut le);
    out
}

/// Replay-window check: fails unless `now - max_offset <= timestamp <= now`.
pub fn check_window(timestamp: i64, now: i64, max_offset: i64) -> (r: Result<(), i32>)
    ensures
        r is Ok <==> within_window(timestamp, now, max_offset),
        r is Err ==> r == Err::<(), i32>(MAXIMUM_CONFIRMATION_TIMESTAMP_OFFSET_EXCCEED),
{
    let earliest: i128 = (now as i128) - (max_offset as i128);
    if (timestamp as i128) < earliest || timestamp > now {
        Err(MAXIMUM_CONFIRMATION_TIMESTAMP_OFFSET_EXCCEED)
    } else {
        Ok(())
    }
}

/// Whether 32 bytes decode to an Ed25519 public key, i.e. a curve point
/// (exactly then does the key have a Montgomery form).
pub open spec fn key_valid(k: Seq<u8>) -> bool {
    montgomery_of(k) is Some
}

/// Whether `key` decodes to an Ed25519 public key.
pub fn valid_key(key: &[u8; 32]) -> (r: bool)
    ensures
        r == key_valid(key@),
{
    to_montgomery(key).is_some()
}

/// The checks a signed request passes before its signature is looked at:
/// its address must decode to a public key and its timestamp must name a
/// date-time (else it does not decode), and the timestamp must lie in the
/// replay window.
pub open spec fn request_check(s: ISigner, now: i64, max_offset: i64) -> Result<(), i32> {
    if !key_valid(s.address@) || !utc_micros_representable(s.timestamp as int) {
        Err(DESERIALIZATION_ERROR)
    } else if !within_window(s.timestamp, now, max_offset) {
        Err(MAXIMUM_CONFIRMATION_TIMESTAMP_OFFSET_EXCCEED)
    } else {
        Ok(())
    }
}

/// Runs the checks of a signed request that come before its signature, at
/// time `now` (microseconds).
pub fn check_request(signer: &ISigner, now: i64, max_offset: i64) -> (r: Result<(), i32>)
    ensures
        r == request_check(*signer, now, max_offset),
{
    if !valid_key(&signer.address) || !utc_micros_valid(signer.timestamp) {
        return Err(DESERIALIZATION_ERROR);
    }
    if check_window(signer.timestamp, now, max_offset).is_err() {
        return Err(MAXIMUM_CONFIRMATION_TIMESTAMP_OFFSET_EXCCEED);
    }
    Ok(())
}

/// Verifies the signature of a request for operation `op` over the
/// domain-separated digest, and returns that digest.
pub fn check_signature(op: Operation, signer: &ISigner) -> (r: Result<[u8; 64], i32>)
    ensures
        signature_valid(op, *signer) ==> r == Ok::<[u8; 64], i32>(request_digest(op, signer.salt@, signer.timestamp)),
        !signature_valid(op, *signer) ==> r == Err::<[u8; 64], i32>(INVALID_SIGNATURE),
{
    let input = signed_input(op, &signer.salt, signer.timestamp);
    if !verify_prehashed_strict(&signer.address, input.as_slice(), &signer.signature) {
        return Err(INVALID_SIGNATURE);
    }
    Ok(sha512(input.as_slice()))
}

/// Authenticates a signed request for operation `op` at time `now`
/// (microseconds): the timestamp check comes first, then the signature.
/// Returns the digest that the signature covers.
pub fn authenticate(op: Operation, signer: &ISigner, now: i64, max_offset: i64) -> (r: Result<[u8; 64], i32>)
    ensures
        r == authentication_of(op, *signer, now, max_offset),
{
    match check_request(signer, now, max_offset) {
        Err(e) => Err(e),
        Ok(()) => check_signature(op, signer),
    }
}

/// Signs a request for operation `op` with the Ed25519 secret key `secret`,
/// a fresh random `salt` and the current time `timestamp` (microseconds).
pub fn sign_request(op: Operation, secret: &[u8; 32], salt: [u8; 16], timestamp: i64) -> (r: ISigner)
    ensures
        r.address == verifying_key_of(secret@),
        r.salt == salt,
        r.timestamp == timestamp,
        r.signature == ed25519ph_signature_of(secret@, signed_input_of(op, salt@, timestamp)),
{
    let input = signed_input(op, &salt, timestamp);
    ISigner {
        address: verifying_key(secret),
        salt,
        timestamp,
        signature: sign_prehashed(secret, input.as_slice()),
    }
}

/// `256^k`.
pub open spec fn pow256(k: nat) -> nat
    decreases k,
{
    if k == 0 { 1 } else { 256 * pow256((k - 1) as nat) }
}

proof fn lemma_le_bytes_len(n: nat, k: nat)
    ensures
        le_bytes_of(n, k).len() == k,
    decreases k,
{
    if k > 0 {
        lemma_le_bytes_len(n / 256, (k - 1) as nat);
    }
}

proof fn lemma_le_bytes_injective(n: nat, m: nat, k: nat)
    requires
        n < pow256(k),
        m < pow256(k),
        le_bytes_of(n, k) == le_bytes_of(m, k),
    ensures
        n == m,
    decreases k,
{
    if k > 0 {
        let kk = (k - 1) as nat;
        let a = le_bytes_of(n, k);
        let b = le_bytes_of(m, k);
        assert(a[0] == b[0]);
        assert(((n % 256) as u8) == ((m % 256) as u8));
        assert(n % 256 == m % 256);
        lemma_le_bytes_len(n / 256, kk);
        lemma_le_bytes_len(m / 256, kk);
        assert(a.subrange(1, a.len() as int) =~= le_bytes_of(n / 256, kk));
        assert(b.subrange(1, b.len() as int) =~= le_bytes_of(m / 256, kk));
        assert(n / 256 < pow256(kk)) by (nonlinear_arith)
            requires n < 256 * pow256(kk);
        assert(m / 256 < pow256(kk)) by (nonlinear_arith)
            requires m < 256 * pow256(kk);
        lemma_le_bytes_injective(n / 256, m / 256, kk);
        assert(n == 256 * (n / 256) + n % 256) by (nonlinear_arith);
        assert(m == 256 * (m / 256) + m % 256) by (nonlinear_arith);
    }
}

proof fn lemma_i64_le_injective(t1: i64, t2: i64)
    requires
        i64_le(t1) == i64_le(t2),
    ensures
        t1 == t2,
{
    reveal_with_fuel(pow256, 9);
    assert(pow256(8) == 0x1_0000_0000_0000_0000);
    lemma_le_bytes_injective(twos_complement(t1), twos_complement(t2), 8);
}

/// A signature binds its salt and timestamp: within one operation, two
/// requests whose signed bytes agree carry the same salt and the same
/// timestamp, so tampering with either changes what the signature must cover.
pub proof fn lemma_signed_input_binds_fields(op: Operation, salt1: Seq<u8>, t1: i64, salt2: Seq<u8>, t2: i64)
    requires
        salt1.len() == 16,
        salt2.len() == 16,
        signed_input_of(op, salt1, t1) == signed_input_of(op, salt2, t2),
    ensures
        salt1 == salt2,
        t1 == t2,
{
    let a = signed_input_of(op, salt1, t1);
    let n: int = tag_of(op).len() as int;
    lemma_le_bytes_len(twos_complement(t1), 8);
    lemma_le_bytes_len(twos_complement(t2), 8);
    assert(a.subrange(n, n + 16) =~= salt1);
    assert(signed_input_of(op, salt2, t2).subrange(n, n + 16) =~= salt2);
    assert(a.subrange(n + 16, n + 24) =~= i64_le(t1));
    assert(signed_input_of(op, salt2, t2).subrange(n + 16, n + 24) =~= i64_le(t2));
    lemma_i64_le_injective(t1, t2);
}

/// Domain separation: the bytes signed for one operation are never the bytes
/// signed for another, whatever the salts and timestamps.
pub proof fn lemma_domain_separation(op1: Operation, salt1: Seq<u8>, t1: i64, op2: Operation, salt2: Seq<u8>, t2: i64)
    requires
        op1 != op2,
        salt1.len() == 16,
        salt2.len() == 16,
    ensures
        signed_input_of(op1, salt1, t1) != signed_input_of(op2, salt2, t2),
{
    lemma_le_bytes_len(twos_complement(t1), 8);
    lemma_le_bytes_len(twos_complement(t2), 8);
    let a = signed_input_of(op1, salt1, t1);
    let b = signed_input_of(op2, salt2, t2);
    if a.len() == b.len() {
        assert(a[0] == tag_of(op1)[0]);
        assert(b[0] == tag_of(op2)[0]);
    }
}

/// A request whose timestamp lies outside the replay window is rejected
/// whatever its signature (as one that does not decode).
pub proof fn lemma_stale_or_future_rejected(op: Operation, s: ISigner, now: i64, max_offset: i64)
    requires
        s.timestamp < now - max_offset || s.timestamp > now,
    ensures
        authentication_of(op, s, now, max_offset) is Err,
{
}

} // verus!
