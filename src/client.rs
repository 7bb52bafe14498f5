//! Client-side message handling: composing an encrypted, signed Send, and
//! reading a stored message with the right one of the user's accounts.
use vstd::prelude::*;
use vstd::string::StringExecFns;
use crate::auth::{Operation, request_digest, sign_request, signed_input, signed_input_of};
use crate::bytes::bytes_eq;
use crate::envelope::{decrypt, encrypt, framed, reading_of, shared_key_of};
use crate::interface::{IMessage, ISendMessagePayload, ISigner};
use crate::outside::{sha512, sha512_of, siv_sealed, verifying_key, verifying_key_of, ed25519ph_signature_of};
use crate::relay::sent_row;

verus! {

/// One of the user's identities: an Ed25519 secret key and its public key.
#[derive(Clone, Copy, Debug)]
pub struct Account {
    pub secret: [u8; 32],
    pub address: [u8; 32],
}

impl Account {
    pub open spec fn wf(&self) -> bool {
        self.address == verifying_key_of(self.secret@)
    }

    /// The account of secret key `secret`.
    pub fn new(secret: [u8; 32]) -> (r: Account)
        ensures
            r.wf(),
            r.secret == secret,
    {
        Account { secret, address: verifying_key(&secret) }
    }
}

/// A Send ready to go, and the envelope the sender keeps locally.
#[derive(Clone, Debug)]
pub struct Outgoing {
    pub signer: ISigner,
    pub payload: ISendMessagePayload,
    pub envelope: IMessage,
}

/// The envelope a sender records for its own Send.
pub open spec fn own_envelope(secret: Seq<u8>, receiver: [u8; 32], data: Seq<u8>, salt: [u8; 16], timestamp: i64) -> IMessage {
    IMessage {
        hash: request_digest(Operation::SendMessage, salt@, timestamp),
        sender: verifying_key_of(secret),
        receiver,
        data_hash: sha512_of(data),
        timestamp,
    }
}

/// Composes a message from `account` to `receiver`: encrypts `plaintext`
/// under `nonce`, signs the Send with `salt` at `timestamp`, and builds the
/// envelope the sender keeps. `None` when `receiver` is not a public key.
pub fn compose_message(
    account: &Account, receiver: [u8; 32], plaintext: &[u8], salt: [u8; 16], timestamp: i64, nonce: &[u8; 16],
) -> (r: Option<Outgoing>)
    ensures
        shared_key_of(account.secret@, receiver@) is None ==> r is None,
        shared_key_of(account.secret@, receiver@) matches Some(k) ==> (r matches Some(o) && {
            &&& o.payload.receiver == receiver
            &&& o.payload.data@ == framed(nonce@, siv_sealed(k@, nonce@, plaintext@))
            &&& o.signer.address == verifying_key_of(account.secret@)
            &&& o.signer.salt == salt
            &&& o.signer.timestamp == timestamp
            &&& o.signer.signature == ed25519ph_signature_of(
                account.secret@, signed_input_of(Operation::SendMessage, salt@, timestamp))
            &&& o.envelope == own_envelope(account.secret@, receiver, o.payload.data@, salt, timestamp)
        }),
{
    let data = match encrypt(&account.secret, &receiver, plaintext, nonce) {
        None => { return None; },
        Some(d) => d,
    };
    let signer = sign_request(Operation::SendMessage, &account.secret, salt, timestamp);
    let input = signed_input(Operation::SendMessage, &salt, timestamp);
    let envelope = IMessage {
        hash: sha512(input.as_slice()),
        sender: signer.address,
        receiver,
        data_hash: sha512(data.as_slice()),
        timestamp,
    };
    Some(Outgoing { signer, payload: ISendMessagePayload { receiver, data }, envelope })
}

/// The other party of `m`, seen from `own`: the receiver when `own` sent it,
/// else the sender.
pub open spec fn counterpart_of(own: Seq<u8>, m: IMessage) -> [u8; 32] {
    if m.sender@ == own { m.receiver } else { m.sender }
}

/// Whether `a` took part in `m`.
pub open spec fn party_to(a: Account, m: IMessage) -> bool {
    a.address == m.sender || a.address == m.receiver
}

/// The index of the first account that took part in `m`.
pub open spec fn first_party(accounts: Seq<Account>, m: IMessage) -> Option<int>
    decreases accounts.len(),
{
    if accounts.len() == 0 {
        None
    } else {
        match first_party(accounts.drop_last(), m) {
            Some(i) => Some(i),
            None => if party_to(accounts.last(), m) { Some(accounts.len() - 1) } else { None },
        }
    }
}

pub open spec fn no_account_text() -> Seq<char> {
    "No account to decrypt this message"@
}

/// What the user reads of message `m` with ciphertext `data`: decrypted by
/// the first of `accounts` that took part, against the other party.
pub open spec fn reading_for(accounts: Seq<Account>, m: IMessage, data: Seq<u8>) -> Seq<char> {
    match first_party(accounts, m) {
        None => no_account_text(),
        Some(i) => reading_of(
            shared_key_of(accounts[i].secret@, counterpart_of(accounts[i].address@, m)@),
            data,
        ),
    }
}

/// Reads message `m` with ciphertext `data`, using the first of `accounts`
/// that sent or received it; a message none of them took part in reads as a
/// placeholder.
pub fn read_message(accounts: &Vec<Account>, m: &IMessage, data: &Vec<u8>) -> (r: String)
    ensures
        r@ == reading_for(accounts@, *m, data@),
{
    let mut i: usize = 0;
    while i < accounts.len()
        invariant
            i <= accounts@.len(),
            first_party(accounts@.take(i as int), *m) is None,
        decreases accounts@.len() - i,
    {
        assert(accounts@.take(i + 1).drop_last() =~= accounts@.take(i as int));
        let a = accounts[i];
        if bytes_eq(&a.address, &m.sender) || bytes_eq(&a.address, &m.receiver) {
            proof {
                assert(a.address@ == m.sender@ ==> a.address == m.sender);
                assert(a.address@ == m.receiver@ ==> a.address == m.receiver);
                lemma_first_party_prefix(accounts@, *m, i as int);
            }
            let opposite = if bytes_eq(&a.address, &m.sender) { m.receiver } else { m.sender };
            return decrypt(&a.secret, &opposite, data);
        }
        proof {
            assert(a.address != m.sender && a.address != m.receiver);
        }
        i = i + 1;
    }
    assert(accounts@.take(i as int) =~= accounts@);
    String::from_str("No account to decrypt this message")
}

proof fn lemma_first_party_prefix(accounts: Seq<Account>, m: IMessage, i: int)
    requires
        0 <= i < accounts.len(),
        first_party(accounts.take(i), m) is None,
        party_to(accounts[i], m),
    ensures
        first_party(accounts, m) == Some(i),
    decreases accounts.len(),
{
    if i < accounts.len() - 1 {
        assert(accounts.drop_last().take(i) =~= accounts.take(i));
        lemma_first_party_prefix(accounts.drop_last(), m, i);
    } else {
        assert(accounts.drop_last() =~= accounts.take(i));
    }
}

/// The sender's copy agrees with the relay: the ledger row an accepted Send
/// writes carries the hash, sender, receiver and content digest of the
/// envelope the sender composed (only the timestamp is the relay's own).
pub proof fn lemma_own_envelope_matches_row(account: Account, o: Outgoing, now: i64)
    requires
        account.wf(),
        o.signer.address == account.address,
        o.envelope == own_envelope(account.secret@, o.payload.receiver, o.payload.data@, o.signer.salt, o.signer.timestamp),
    ensures
        sent_row(o.signer, o.payload, now).hash == o.envelope.hash,
        sent_row(o.signer, o.payload, now).sender == o.envelope.sender,
        sent_row(o.signer, o.payload, now).receiver == o.envelope.receiver,
        sent_row(o.signer, o.payload, now).data_hash == o.envelope.data_hash,
{
}

} // verus!
