use project_toot::auth::{authenticate, sign_request, signed_input, timestamp_le_bytes, Operation};
use project_toot::interface::{
    IDeleteMessagesPayload, IGetMessagesPayload, IMessage, IRPCRequest, IRPCResponse, ISendMessagePayload,
    ISigner, IWebSocketRequest, IWebSocketResponse, MAXIMUM_CONFIRMATION_TIMESTAMP_OFFSET,
};
use project_toot::irpcerror;
use project_toot::relay::{borsh_content_type, Relay};
use chrono::TimeZone;
use sha2::Digest;

const NOW: i64 = 1_700_000_000_000_000;

fn secret(seed: u8) -> [u8; 32] {
    [seed; 32]
}

fn public(seed: u8) -> [u8; 32] {
    ed25519_dalek::SigningKey::from_bytes(&secret(seed)).verifying_key().to_bytes()
}

fn signer(op: Operation, seed: u8, salt: u8, timestamp: i64) -> ISigner {
    sign_request(op, &secret(seed), [salt; 16], timestamp)
}

fn relay() -> Relay {
    Relay::new(MAXIMUM_CONFIRMATION_TIMESTAMP_OFFSET, 1 << 30, 1_000_000)
}

fn sha512(data: &[u8]) -> [u8; 64] {
    sha2::Sha512::digest(data).into()
}

fn list(r: &Relay, seed: u8, salt: u8, offset: u32, limit: u32) -> Result<Vec<IMessage>, i32> {
    let payload = IGetMessagesPayload { offset, limit, with: None, mine: false };
    match r.get_messages(&signer(Operation::GetMessages, seed, salt, NOW - 10), &payload, NOW)? {
        IRPCResponse::GetMessages(v) => Ok(v),
        _ => panic!("unexpected response"),
    }
}

fn delete(r: &mut Relay, seed: u8, salt: u8, hashes: Vec<[u8; 64]>) -> Result<Vec<bool>, i32> {
    let payload = IDeleteMessagesPayload { hashes };
    match r.delete_messages(&signer(Operation::DeleteMessages, seed, salt, NOW - 10), &payload, NOW)? {
        IRPCResponse::DeleteMessages(v) => Ok(v),
        _ => panic!("unexpected response"),
    }
}

#[test]
fn error_texts() {
    assert_eq!(irpcerror::to_string(irpcerror::FILE_SYSTEM_WRITE_ERROR), "Internal error: Failed to write file");
    assert_eq!(irpcerror::to_string(irpcerror::DATABASE_POOL_ERROR), "Internal error: Failed to get database pool");
    assert_eq!(irpcerror::to_string(irpcerror::DATABASE_READ_ERROR), "Internal error: Failed to read from database");
    assert_eq!(irpcerror::to_string(irpcerror::DATABASE_WRITE_ERROR), "Internal error: Failed to write to database");
    assert_eq!(irpcerror::to_string(irpcerror::DATABASE_DELETE_ERROR), "Internal error: Failed to delete from database");
    assert_eq!(irpcerror::to_string(irpcerror::DESERIALIZATION_ERROR), "Failed to deserialize data");
    assert_eq!(
        irpcerror::to_string(irpcerror::MAXIMUM_CONFIRMATION_TIMESTAMP_OFFSET_EXCCEED),
        "Maximum confirmation timestamp offset excceed"
    );
    assert_eq!(irpcerror::to_string(irpcerror::INVALID_SIGNATURE), "Invalid signature");
    assert_eq!(irpcerror::to_string(irpcerror::LIMIT_DONT_FIT_RANGE), "Limit don't fit range");
    assert_eq!(irpcerror::to_string(irpcerror::HASHES_LEN_DONT_FIT_RANGE), "Hashes vector length don't fit range");
}

#[test]
fn unknown_error_texts() {
    assert_eq!(irpcerror::to_string(0), "Unknown error: 0");
    assert_eq!(irpcerror::to_string(42), "Unknown error: 42");
    assert_eq!(irpcerror::to_string(-7), "Unknown error: -7");
    assert_eq!(irpcerror::to_string(i32::MIN), "Unknown error: -2147483648");
    assert_eq!(irpcerror::to_string(i32::MAX), "Unknown error: 2147483647");
}

#[test]
fn timestamp_bytes_are_little_endian() {
    for v in [0i64, 1, -1, 255, 256, NOW, i64::MIN, i64::MAX, -1234567890123] {
        assert_eq!(timestamp_le_bytes(v), v.to_le_bytes().to_vec());
    }
}

#[test]
fn signed_input_layout() {
    let input = signed_input(Operation::SendMessage, &[7u8; 16], 5);
    let mut expected = b"send-message".to_vec();
    expected.extend([7u8; 16]);
    expected.extend(5i64.to_le_bytes());
    assert_eq!(input, expected);
    assert!(signed_input(Operation::GetMessages, &[0u8; 16], 0).starts_with(b"get-messages"));
    assert!(signed_input(Operation::DeleteMessages, &[0u8; 16], 0).starts_with(b"delete-messages"));
    assert!(signed_input(Operation::Authorize, &[0u8; 16], 0).starts_with(b"authorize"));
}

#[test]
fn valid_request_authenticates_to_its_digest() {
    let s = signer(Operation::SendMessage, 1, 3, NOW - 5);
    assert_eq!(s.address, public(1));
    let digest = authenticate(Operation::SendMessage, &s, NOW, MAXIMUM_CONFIRMATION_TIMESTAMP_OFFSET).unwrap();
    let mut input = b"send-message".to_vec();
    input.extend([3u8; 16]);
    input.extend((NOW - 5).to_le_bytes());
    assert_eq!(digest, sha512(&input));
}

#[test]
fn tampered_salt_timestamp_or_signature_fail() {
    let good = signer(Operation::SendMessage, 1, 3, NOW - 5);
    let mut salt = good;
    salt.salt[0] ^= 1;
    let mut time = good;
    time.timestamp -= 1;
    let mut sig = good;
    sig.signature[10] ^= 0x40;
    let mut address = good;
    address.address = public(2);
    for bad in [salt, time, sig, address] {
        assert_eq!(
            authenticate(Operation::SendMessage, &bad, NOW, MAXIMUM_CONFIRMATION_TIMESTAMP_OFFSET),
            Err(irpcerror::INVALID_SIGNATURE)
        );
    }
}

#[test]
fn signature_of_one_operation_fails_for_another() {
    let s = signer(Operation::GetMessages, 1, 3, NOW - 5);
    assert_eq!(
        authenticate(Operation::SendMessage, &s, NOW, MAXIMUM_CONFIRMATION_TIMESTAMP_OFFSET),
        Err(irpcerror::INVALID_SIGNATURE)
    );
    assert!(authenticate(Operation::GetMessages, &s, NOW, MAXIMUM_CONFIRMATION_TIMESTAMP_OFFSET).is_ok());
}

#[test]
fn stale_and_future_requests_are_rejected() {
    let max = MAXIMUM_CONFIRMATION_TIMESTAMP_OFFSET;
    let stale = signer(Operation::SendMessage, 1, 3, NOW - max - 1);
    let future = signer(Operation::SendMessage, 1, 3, NOW + 1);
    let edge_old = signer(Operation::SendMessage, 1, 3, NOW - max);
    let edge_now = signer(Operation::SendMessage, 1, 3, NOW);
    let exceeded = Err(irpcerror::MAXIMUM_CONFIRMATION_TIMESTAMP_OFFSET_EXCCEED);
    assert_eq!(authenticate(Operation::SendMessage, &stale, NOW, max), exceeded);
    assert_eq!(authenticate(Operation::SendMessage, &future, NOW, max), exceeded);
    assert!(authenticate(Operation::SendMessage, &edge_old, NOW, max).is_ok());
    assert!(authenticate(Operation::SendMessage, &edge_now, NOW, max).is_ok());
    let mut unsigned_stale = stale;
    unsigned_stale.signature = [0u8; 64];
    assert_eq!(authenticate(Operation::SendMessage, &unsigned_stale, NOW, max), exceeded);
}

#[test]
fn unrepresentable_timestamp_is_a_decoding_error() {
    let s = signer(Operation::SendMessage, 1, 3, i64::MAX);
    assert_eq!(
        authenticate(Operation::SendMessage, &s, i64::MAX, MAXIMUM_CONFIRMATION_TIMESTAMP_OFFSET),
        Err(irpcerror::DESERIALIZATION_ERROR)
    );
}

#[test]
fn send_then_list_returns_the_envelope() {
    let mut r = relay();
    let data = b"ciphertext bytes".to_vec();
    let s = signer(Operation::SendMessage, 1, 9, NOW - 3);
    let out = r.send_message(&s, ISendMessagePayload { receiver: public(2), data: data.clone() }, NOW);
    assert!(matches!(out.response, Ok(IRPCResponse::SendMessage)));
    assert!(out.push.is_none());
    let rows = list(&r, 2, 1, 0, 100).unwrap();
    assert_eq!(rows.len(), 1);
    assert_eq!(rows[0].data_hash, sha512(&data));
    assert_eq!(rows[0].sender, public(1));
    assert_eq!(rows[0].receiver, public(2));
    assert_eq!(rows[0].timestamp, NOW);
    assert_eq!(rows[0].hash, authenticate(Operation::SendMessage, &s, NOW, MAXIMUM_CONFIRMATION_TIMESTAMP_OFFSET).unwrap());
    assert_eq!(r.blobs.get(&sha512(&data)), Some(data));
    assert_eq!(list(&r, 3, 1, 0, 100).unwrap().len(), 0);
}

#[test]
fn send_twice_keeps_one_row() {
    let mut r = relay();
    let s = signer(Operation::SendMessage, 1, 9, NOW - 3);
    let payload = ISendMessagePayload { receiver: public(2), data: vec![1, 2, 3] };
    assert!(r.send_message(&s, payload.clone(), NOW).response.is_ok());
    assert!(r.send_message(&s, payload, NOW + 1).response.is_ok());
    assert_eq!(r.ledger.len(), 1);
    assert_eq!(list(&r, 2, 1, 0, 100).unwrap().len(), 1);
}

#[test]
fn send_with_bad_signature_stores_nothing() {
    let mut r = relay();
    let mut s = signer(Operation::SendMessage, 1, 9, NOW - 3);
    s.salt[3] ^= 8;
    let out = r.send_message(&s, ISendMessagePayload { receiver: public(2), data: vec![1] }, NOW);
    assert!(matches!(out.response, Err(irpcerror::INVALID_SIGNATURE)));
    assert_eq!(r.ledger.len(), 0);
    assert_eq!(r.blobs.get(&sha512(&[1])), None);
}

#[test]
fn delete_twice_reports_false() {
    let mut r = relay();
    let s = signer(Operation::SendMessage, 1, 9, NOW - 3);
    r.send_message(&s, ISendMessagePayload { receiver: public(2), data: vec![4] }, NOW);
    let hash = list(&r, 1, 1, 0, 10).unwrap()[0].hash;
    assert_eq!(delete(&mut r, 1, 2, vec![hash]), Ok(vec![true]));
    assert_eq!(delete(&mut r, 1, 3, vec![hash]), Ok(vec![false]));
    assert_eq!(r.ledger.len(), 0);
}

#[test]
fn delete_only_removes_own_messages() {
    let mut r = relay();
    let s = signer(Operation::SendMessage, 1, 9, NOW - 3);
    r.send_message(&s, ISendMessagePayload { receiver: public(2), data: vec![4] }, NOW);
    let hash = list(&r, 2, 1, 0, 10).unwrap()[0].hash;
    assert_eq!(delete(&mut r, 2, 2, vec![hash, [0u8; 64]]), Ok(vec![false, false]));
    assert_eq!(r.ledger.len(), 1);
}

#[test]
fn delete_batch_size_range() {
    let mut r = relay();
    assert_eq!(delete(&mut r, 1, 2, vec![]), Err(irpcerror::HASHES_LEN_DONT_FIT_RANGE));
    assert_eq!(delete(&mut r, 1, 2, vec![[0u8; 64]; 10_001]), Err(irpcerror::HASHES_LEN_DONT_FIT_RANGE));
    assert_eq!(delete(&mut r, 1, 2, vec![[0u8; 64]; 10_000]), Ok(vec![false; 10_000]));
}

#[test]
fn list_limit_out_of_range() {
    let mut r = relay();
    let s = signer(Operation::SendMessage, 1, 9, NOW - 3);
    r.send_message(&s, ISendMessagePayload { receiver: public(2), data: vec![4] }, NOW);
    assert_eq!(list(&r, 2, 1, 0, 0), Err(irpcerror::LIMIT_DONT_FIT_RANGE));
    assert_eq!(list(&r, 2, 1, 0, 10_001), Err(irpcerror::LIMIT_DONT_FIT_RANGE));
    let out = r.dispatch(
        IRPCRequest::GetMessages(
            signer(Operation::GetMessages, 2, 1, NOW - 10),
            IGetMessagesPayload { offset: 0, limit: 0, with: None, mine: false },
        ),
        NOW,
    );
    assert!(matches!(out.response, Err(irpcerror::LIMIT_DONT_FIT_RANGE)));
    assert_eq!(r.ledger.len(), 1);
    assert_eq!(list(&r, 2, 1, 0, 1).unwrap().len(), 1);
    assert_eq!(list(&r, 2, 1, 0, 10_000).unwrap().len(), 1);
}

#[test]
fn list_filters_and_pages() {
    let mut r = relay();
    for (k, (from, to)) in [(1u8, 2u8), (2, 1), (1, 3), (3, 2), (1, 2)].iter().enumerate() {
        let s = signer(Operation::SendMessage, *from, k as u8, NOW - 3);
        let now = NOW + k as i64;
        r.send_message(&s, ISendMessagePayload { receiver: public(*to), data: vec![k as u8] }, now);
    }
    let all = list(&r, 1, 50, 0, 100).unwrap();
    assert_eq!(all.len(), 4);
    assert!(all.windows(2).all(|w| w[0].timestamp <= w[1].timestamp));
    let mine = |with: Option<[u8; 32]>, mine: bool| {
        let payload = IGetMessagesPayload { offset: 0, limit: 100, with, mine };
        match r.get_messages(&signer(Operation::GetMessages, 1, 60, NOW - 10), &payload, NOW) {
            Ok(IRPCResponse::GetMessages(v)) => v.len(),
            _ => panic!("unexpected response"),
        }
    };
    assert_eq!(mine(None, true), 3);
    assert_eq!(mine(Some(public(2)), false), 3);
    assert_eq!(mine(Some(public(2)), true), 2);
    assert_eq!(mine(Some(public(3)), false), 1);
    assert_eq!(list(&r, 1, 51, 1, 2).unwrap(), all[1..3].to_vec());
    assert_eq!(list(&r, 1, 52, 3, 5).unwrap().len(), 1);
    assert_eq!(list(&r, 1, 53, 9, 5).unwrap().len(), 0);
}

#[test]
fn authorized_receiver_gets_one_push() {
    let mut r = relay();
    let auth = IWebSocketRequest::Authorize(signer(Operation::Authorize, 2, 4, NOW - 1));
    let ack = r.authorize(&auth, 77, NOW).unwrap();
    assert_eq!(ack.channel, 77);
    assert!(matches!(ack.event, IWebSocketResponse::Authorized));
    let s = signer(Operation::SendMessage, 1, 9, NOW - 3);
    let out = r.send_message(&s, ISendMessagePayload { receiver: public(2), data: vec![5] }, NOW);
    let push = out.push.unwrap();
    assert_eq!(push.channel, 77);
    match push.event {
        IWebSocketResponse::NewMessage(m) => {
            assert_eq!(m.receiver, public(2));
            assert_eq!(m.data_hash, sha512(&[5]));
        },
        _ => panic!("expected a new message"),
    }
    let other = r.send_message(
        &signer(Operation::SendMessage, 2, 9, NOW - 3),
        ISendMessagePayload { receiver: public(1), data: vec![6] },
        NOW,
    );
    assert!(other.push.is_none());
}

#[test]
fn newest_authorization_wins_and_bad_ones_are_ignored() {
    let mut r = relay();
    r.authorize(&IWebSocketRequest::Authorize(signer(Operation::Authorize, 2, 4, NOW - 1)), 1, NOW).unwrap();
    r.authorize(&IWebSocketRequest::Authorize(signer(Operation::Authorize, 2, 5, NOW - 1)), 2, NOW).unwrap();
    let wrong_tag = IWebSocketRequest::Authorize(signer(Operation::SendMessage, 2, 6, NOW - 1));
    assert!(r.authorize(&wrong_tag, 3, NOW).is_none());
    assert_eq!(r.sessions.lookup(&public(2)), Some(2));
}

#[test]
fn unauthorized_receiver_still_lists_the_message() {
    let mut r = relay();
    let s = signer(Operation::SendMessage, 1, 9, NOW - 3);
    let out = r.dispatch(
        IRPCRequest::SendMessage(s, ISendMessagePayload { receiver: public(2), data: vec![5] }),
        NOW,
    );
    assert!(out.push.is_none());
    assert_eq!(list(&r, 2, 1, 0, 10).unwrap().len(), 1);
}

#[test]
fn content_type_check() {
    assert!(borsh_content_type(Some("application/borsh")));
    assert!(!borsh_content_type(Some("application/json")));
    assert!(!borsh_content_type(Some("application/borsh2")));
    assert!(!borsh_content_type(Some("")));
    assert!(!borsh_content_type(None));
}

fn invalid_key() -> [u8; 32] {
    (0u8..=255)
        .map(|b| {
            let mut k = [b; 32];
            k[31] &= 0x7f;
            k
        })
        .find(|k| ed25519_dalek::VerifyingKey::from_bytes(k).is_err())
        .expect("some byte pattern is off the curve")
}

#[test]
fn keys_off_the_curve_do_not_decode() {
    let mut r = relay();
    let s = signer(Operation::SendMessage, 1, 9, NOW - 3);
    let out = r.send_message(&s, ISendMessagePayload { receiver: invalid_key(), data: vec![1] }, NOW);
    assert!(matches!(out.response, Err(irpcerror::DESERIALIZATION_ERROR)));
    assert_eq!(r.ledger.len(), 0);
    let payload = IGetMessagesPayload { offset: 0, limit: 10, with: Some(invalid_key()), mine: false };
    let res = r.get_messages(&signer(Operation::GetMessages, 1, 2, NOW - 3), &payload, NOW);
    assert!(matches!(res, Err(irpcerror::DESERIALIZATION_ERROR)));
    let mut forged = signer(Operation::GetMessages, 1, 2, NOW - 3);
    forged.address = invalid_key();
    assert_eq!(
        authenticate(Operation::GetMessages, &forged, NOW, MAXIMUM_CONFIRMATION_TIMESTAMP_OFFSET),
        Err(irpcerror::DESERIALIZATION_ERROR)
    );
}

#[test]
fn disconnect_ends_only_that_channel() {
    let mut r = relay();
    r.authorize(&IWebSocketRequest::Authorize(signer(Operation::Authorize, 2, 4, NOW - 1)), 7, NOW).unwrap();
    r.authorize(&IWebSocketRequest::Authorize(signer(Operation::Authorize, 3, 4, NOW - 1)), 8, NOW).unwrap();
    r.disconnect(7);
    assert_eq!(r.sessions.lookup(&public(2)), None);
    assert_eq!(r.sessions.lookup(&public(3)), Some(8));
    let out = r.send_message(
        &signer(Operation::SendMessage, 1, 9, NOW - 3),
        ISendMessagePayload { receiver: public(2), data: vec![1] },
        NOW,
    );
    assert!(out.push.is_none());
    assert_eq!(list(&r, 2, 1, 0, 10).unwrap().len(), 1);
}

#[test]
fn peer_filter_equal_to_caller_keeps_only_self_messages() {
    let mut r = relay();
    for (k, (from, to)) in [(1u8, 2u8), (1, 1), (2, 1), (3, 1)].iter().enumerate() {
        let s = signer(Operation::SendMessage, *from, k as u8, NOW - 3);
        r.send_message(&s, ISendMessagePayload { receiver: public(*to), data: vec![k as u8] }, NOW + k as i64);
    }
    let payload = IGetMessagesPayload { offset: 0, limit: 100, with: Some(public(1)), mine: false };
    match r.get_messages(&signer(Operation::GetMessages, 1, 60, NOW - 10), &payload, NOW) {
        Ok(IRPCResponse::GetMessages(v)) => {
            assert_eq!(v.len(), 1);
            assert_eq!((v[0].sender, v[0].receiver), (public(1), public(1)));
        },
        _ => panic!("unexpected response"),
    }
}

#[test]
fn full_blob_store_refuses_before_the_ledger() {
    let mut r = Relay::new(MAXIMUM_CONFIRMATION_TIMESTAMP_OFFSET, 10, 100);
    let ok = r.send_message(&signer(Operation::SendMessage, 1, 1, NOW - 3), ISendMessagePayload { receiver: public(2), data: vec![1; 6] }, NOW);
    assert!(ok.response.is_ok());
    let out = r.send_message(&signer(Operation::SendMessage, 1, 2, NOW - 3), ISendMessagePayload { receiver: public(2), data: vec![2; 5] }, NOW);
    assert!(matches!(out.response, Err(irpcerror::FILE_SYSTEM_WRITE_ERROR)));
    assert!(out.push.is_none());
    assert_eq!(r.ledger.len(), 1);
    assert_eq!(r.blobs.get(&sha512(&[2; 5])), None);
    // Content already stored needs no room.
    let again = r.send_message(&signer(Operation::SendMessage, 1, 3, NOW - 3), ISendMessagePayload { receiver: public(2), data: vec![1; 6] }, NOW);
    assert!(again.response.is_ok());
    assert_eq!(r.ledger.len(), 2);
}

#[test]
fn full_ledger_refuses_the_row_and_keeps_the_blob() {
    let mut r = Relay::new(MAXIMUM_CONFIRMATION_TIMESTAMP_OFFSET, 1000, 1);
    r.authorize(&IWebSocketRequest::Authorize(signer(Operation::Authorize, 2, 4, NOW - 1)), 5, NOW).unwrap();
    let first = signer(Operation::SendMessage, 1, 1, NOW - 3);
    assert!(r.send_message(&first, ISendMessagePayload { receiver: public(2), data: vec![1] }, NOW).response.is_ok());
    let out = r.send_message(&signer(Operation::SendMessage, 1, 2, NOW - 3), ISendMessagePayload { receiver: public(2), data: vec![2] }, NOW);
    assert!(matches!(out.response, Err(irpcerror::DATABASE_WRITE_ERROR)));
    assert!(out.push.is_none());
    assert_eq!(r.ledger.len(), 1);
    assert_eq!(r.blobs.get(&sha512(&[2])), Some(vec![2]));
    // A retry of the stored message is still a no-op success.
    assert!(r.send_message(&first, ISendMessagePayload { receiver: public(2), data: vec![1] }, NOW).response.is_ok());
}

#[test]
fn representable_timestamps_match_chrono() {
    let lo: i64 = -8_334_601_228_800_000_000;
    let hi: i64 = 8_210_266_876_799_999_999;
    for (v, expected) in [(lo, true), (lo - 1, false), (hi, true), (hi + 1, false), (0, true), (i64::MIN, false)] {
        assert_eq!(chrono::Utc.timestamp_micros(v).single().is_some(), expected, "{}", v);
        let s = signer(Operation::SendMessage, 1, 3, v);
        let res = authenticate(Operation::SendMessage, &s, v, MAXIMUM_CONFIRMATION_TIMESTAMP_OFFSET);
        assert_eq!(res == Err(irpcerror::DESERIALIZATION_ERROR), !expected, "{}", v);
    }
}
