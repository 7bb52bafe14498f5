use project_toot::auth::{sign_request, Operation};
use project_toot::client::{compose_message, read_message, Account};
use project_toot::envelope::{decrypt, encrypt, shared_key};
use project_toot::interface::{
    IDeleteMessagesPayload, IGetMessagesPayload, IMessage, IRPCResponse, ISendMessagePayload,
    MAXIMUM_CONFIRMATION_TIMESTAMP_OFFSET,
};
use project_toot::relay::Relay;
use project_toot::sync::{data_path, download_job, MailboxSync, SyncAction, SyncPhase};
use sha2::Digest;

const NOW: i64 = 1_700_000_000_000_000;

fn public(seed: u8) -> [u8; 32] {
    ed25519_dalek::SigningKey::from_bytes(&[seed; 32]).verifying_key().to_bytes()
}

fn message(k: u32) -> IMessage {
    let mut hash = [0u8; 64];
    hash[..4].copy_from_slice(&k.to_le_bytes());
    let mut data_hash = [0u8; 64];
    data_hash[60..].copy_from_slice(&k.to_be_bytes());
    IMessage { hash, sender: public(1), receiver: public(2), data_hash, timestamp: k as i64 }
}

#[test]
fn round_trip_both_directions() {
    let (a, b) = ([1u8; 32], [2u8; 32]);
    let text = "hello, world";
    let sealed = encrypt(&a, &public(2), text.as_bytes(), &[9u8; 16]).unwrap();
    assert!(sealed.starts_with(b"aes-256-siv"));
    assert_eq!(&sealed[11..27], &[9u8; 16]);
    assert_eq!(sealed.len(), 11 + 16 + text.len() + 16);
    assert_eq!(decrypt(&b, &public(1), &sealed), text);
    assert_eq!(decrypt(&a, &public(2), &sealed), text);
    let back = encrypt(&b, &public(1), "reply".as_bytes(), &[3u8; 16]).unwrap();
    assert_eq!(decrypt(&a, &public(2), &back), "reply");
    assert_eq!(shared_key(&a, &public(2)), shared_key(&b, &public(1)));
    let empty = encrypt(&a, &public(2), b"", &[0u8; 16]).unwrap();
    assert_eq!(decrypt(&b, &public(1), &empty), "");
}

#[test]
fn decryption_failures_read_as_placeholders() {
    let (a, c) = ([1u8; 32], [3u8; 32]);
    let sealed = encrypt(&a, &public(2), b"secret", &[9u8; 16]).unwrap();
    assert_eq!(decrypt(&c, &public(1), &sealed), "Failed to decrypt this message due decryption");
    assert_eq!(decrypt(&a, &public(2), &b"plain text".to_vec()), "Cannot get message format");
    assert_eq!(decrypt(&a, &public(2), &b"aes-256-siv0123".to_vec()), "Failed to decrypt this message");
    let not_utf8 = encrypt(&a, &public(2), &[0xff, 0xfe], &[9u8; 16]).unwrap();
    assert_eq!(decrypt(&a, &public(2), &not_utf8), "Failed to decrypt this message");
}

#[test]
fn data_path_shards_by_hex_prefix() {
    assert_eq!(data_path("/home/u/.toot", "abcdef0123456789"), "/home/u/.toot/data/abcd/ef01");
    assert_eq!(data_path("base/", "0011223344"), "base/data/0011/2233");
    assert_eq!(data_path("", "0011223344"), "data/0011/2233");
}

#[test]
fn download_job_names_hex_file() {
    let m = message(0x0102_0304);
    let job = download_job("dir", &m);
    let hex = hex::encode(m.data_hash);
    assert_eq!(job.file_name, format!("{}.dat", hex));
    assert!(job.file_name.ends_with("01020304.dat"));
    assert_eq!(job.directory, "dir/data/0000/0000");
    assert_eq!(job.data_hash, m.data_hash);
}

#[test]
fn pagination_of_twenty_five_thousand() {
    let pending: Vec<IMessage> = (0..25_000).map(message).collect();
    let mut sync = MailboxSync::new("base".to_string());
    let mut action = sync.start();
    let mut calls = Vec::new();
    loop {
        match action {
            SyncAction::List(p) => {
                assert_eq!(p.limit, 10_000);
                assert!(p.with.is_none());
                let lo = (p.offset as usize).min(pending.len());
                let hi = (p.offset as usize + p.limit as usize).min(pending.len());
                let page = pending[lo..hi].to_vec();
                calls.push(page.len());
                action = sync.on_page(page);
            },
            SyncAction::CheckExisting(h) => {
                assert_eq!(h.len(), 25_000);
                break;
            },
            _ => panic!("unexpected action"),
        }
    }
    assert_eq!(calls, vec![10_000, 10_000, 5_000]);
    assert_eq!(sync.phase, SyncPhase::Deduplicating);
    let known = vec![pending[0].hash, pending[24_999].hash];
    match sync.on_existing(&known) {
        SyncAction::Persist(v) => {
            assert_eq!(v.len(), 24_998);
            assert_eq!(v[0], pending[1]);
        },
        _ => panic!("expected persist"),
    }
    let mut downloads = 0usize;
    action = sync.on_persisted();
    while let SyncAction::Download(job) = action {
        assert_eq!(job.data_hash, pending[downloads].data_hash);
        downloads += 1;
        action = sync.on_downloaded();
    }
    assert_eq!(downloads, 25_000);
    let mut chunks = Vec::new();
    while let SyncAction::Delete(h) = action {
        chunks.push(h.len());
        action = sync.on_deleted();
    }
    assert_eq!(chunks, vec![10_000, 10_000, 5_000]);
    assert!(matches!(action, SyncAction::Done));
    assert_eq!(sync.phase, SyncPhase::Idle);
}

#[test]
fn exact_page_multiple_needs_a_trailing_empty_page() {
    let mut sync = MailboxSync::new("base".to_string());
    sync.start();
    let full: Vec<IMessage> = (0..10_000).map(message).collect();
    match sync.on_page(full) {
        SyncAction::List(p) => assert_eq!(p.offset, 10_000),
        _ => panic!("expected another page"),
    }
    assert!(matches!(sync.on_page(Vec::new()), SyncAction::CheckExisting(_)));
}

#[test]
fn empty_mailbox_pass() {
    let mut sync = MailboxSync::new("base".to_string());
    sync.start();
    assert!(matches!(sync.on_page(Vec::new()), SyncAction::CheckExisting(h) if h.is_empty()));
    assert!(matches!(sync.on_existing(&Vec::new()), SyncAction::Persist(v) if v.is_empty()));
    assert!(matches!(sync.on_persisted(), SyncAction::Done));
}

#[test]
fn end_to_end_send_sync_acknowledge() {
    let mut relay = Relay::new(MAXIMUM_CONFIRMATION_TIMESTAMP_OFFSET, 1 << 30, 1_000_000);
    let (a, b) = ([1u8; 32], [2u8; 32]);
    let c = encrypt(&a, &public(2), b"see you", &[5u8; 16]).unwrap();
    let s = sign_request(Operation::SendMessage, &a, [1u8; 16], NOW - 2);
    let out = relay.send_message(&s, ISendMessagePayload { receiver: public(2), data: c.clone() }, NOW);
    assert!(out.response.is_ok());

    let mut sync = MailboxSync::new("home".to_string());
    let mut action = sync.start();
    let mut fetched = Vec::new();
    let mut salt = 10u8;
    loop {
        salt += 1;
        match action {
            SyncAction::List(p) => {
                let signer = sign_request(Operation::GetMessages, &b, [salt; 16], NOW - 1);
                let page = match relay.get_messages(&signer, &p, NOW) {
                    Ok(IRPCResponse::GetMessages(v)) => v,
                    _ => panic!("list failed"),
                };
                action = sync.on_page(page);
            },
            SyncAction::CheckExisting(h) => {
                assert_eq!(h.len(), 1);
                action = sync.on_existing(&Vec::new());
            },
            SyncAction::Persist(v) => {
                assert_eq!(v.len(), 1);
                let expected: [u8; 64] = sha2::Sha512::digest(&c).into();
                assert_eq!(v[0].data_hash, expected);
                fetched = v;
                action = sync.on_persisted();
            },
            SyncAction::Download(job) => {
                let blob = relay.blobs.get(&job.data_hash).unwrap();
                assert_eq!(blob, c);
                assert_eq!(decrypt(&b, &public(1), &blob), "see you");
                action = sync.on_downloaded();
            },
            SyncAction::Delete(h) => {
                assert_eq!(h, vec![fetched[0].hash]);
                let signer = sign_request(Operation::DeleteMessages, &b, [salt; 16], NOW - 1);
                let res = relay.delete_messages(&signer, &IDeleteMessagesPayload { hashes: h }, NOW);
                // Only the sender of a message may delete its row.
                assert!(matches!(res, Ok(IRPCResponse::DeleteMessages(ref f)) if f == &vec![false]));
                action = sync.on_deleted();
            },
            SyncAction::Done => break,
            SyncAction::Abort => panic!("aborted"),
        }
    }
    let signer = sign_request(Operation::DeleteMessages, &a, [99u8; 16], NOW - 1);
    let res = relay.delete_messages(&signer, &IDeleteMessagesPayload { hashes: vec![fetched[0].hash] }, NOW);
    assert!(matches!(res, Ok(IRPCResponse::DeleteMessages(ref f)) if f == &vec![true]));
    let signer = sign_request(Operation::GetMessages, &b, [98u8; 16], NOW - 1);
    let payload = IGetMessagesPayload { offset: 0, limit: 10, with: None, mine: false };
    assert!(matches!(relay.get_messages(&signer, &payload, NOW), Ok(IRPCResponse::GetMessages(v)) if v.is_empty()));
}

#[test]
fn composed_message_matches_the_relay_row() {
    let alice = Account::new([1u8; 32]);
    assert_eq!(alice.address, public(1));
    let out = compose_message(&alice, public(2), b"hi bob", [4u8; 16], NOW - 2, &[6u8; 16]).unwrap();
    assert_eq!(out.envelope.sender, public(1));
    assert_eq!(out.envelope.receiver, public(2));
    assert_eq!(out.envelope.timestamp, NOW - 2);
    let expected: [u8; 64] = sha2::Sha512::digest(&out.payload.data).into();
    assert_eq!(out.envelope.data_hash, expected);
    let mut relay = Relay::new(MAXIMUM_CONFIRMATION_TIMESTAMP_OFFSET, 1 << 30, 1_000_000);
    assert!(relay.send_message(&out.signer, out.payload.clone(), NOW).response.is_ok());
    let signer = sign_request(Operation::GetMessages, &[2u8; 32], [7u8; 16], NOW - 1);
    let payload = IGetMessagesPayload { offset: 0, limit: 10, with: None, mine: false };
    let rows = match relay.get_messages(&signer, &payload, NOW) {
        Ok(IRPCResponse::GetMessages(v)) => v,
        _ => panic!("list failed"),
    };
    assert_eq!(rows.len(), 1);
    assert_eq!(rows[0].hash, out.envelope.hash);
    assert_eq!(rows[0].data_hash, out.envelope.data_hash);
}

#[test]
fn read_message_uses_the_party_account() {
    let alice = Account::new([1u8; 32]);
    let bob = Account::new([2u8; 32]);
    let carol = Account::new([3u8; 32]);
    let out = compose_message(&alice, bob.address, "for bob".as_bytes(), [4u8; 16], NOW, &[6u8; 16]).unwrap();
    let data = out.payload.data.clone();
    assert_eq!(read_message(&vec![carol, bob], &out.envelope, &data), "for bob");
    assert_eq!(read_message(&vec![alice], &out.envelope, &data), "for bob");
    assert_eq!(read_message(&vec![carol], &out.envelope, &data), "No account to decrypt this message");
    assert_eq!(read_message(&vec![], &out.envelope, &data), "No account to decrypt this message");
}
