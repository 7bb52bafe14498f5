//! The RPC dispatcher: authenticates each request, then runs Send, List or
//! Delete against the ledger and the blob store, and names the push that a
//! live session of the receiver should get.
use vstd::prelude::*;
use crate::auth::{
    Operation, authentication_of, request_check, signature_valid, request_digest, check_request,
    check_signature, authenticate, key_valid, valid_key,
};
use crate::blobs::BlobStore;
use crate::interface::{
    IDeleteMessagesPayload, IGetMessagesPayload, IMessage, IRPCRequest, IRPCResponse, ISendMessagePayload,
    ISigner, IWebSocketRequest, IWebSocketResponse, MAXIMUM_BATCH,
};
use crate::irpcerror::{
    DATABASE_WRITE_ERROR, DESERIALIZATION_ERROR, FILE_SYSTEM_WRITE_ERROR, HASHES_LEN_DONT_FIT_RANGE,
    LIMIT_DONT_FIT_RANGE,
};
use crate::ledger::{Ledger, after_delete, has_hash, has_owned, insert_result, page, selection, view_of_peer};
use crate::outside::sha512_of;
use crate::session::SessionDirectory;

verus! {

/// An event to be delivered on a push channel.
#[derive(Clone, Copy, Debug)]
pub struct Push {
    pub channel: u64,
    pub event: IWebSocketResponse,
}

/// The reply to an RPC request, and the push it triggers, if any.
#[derive(Debug)]
pub struct Dispatch {
    pub response: Result<IRPCResponse, i32>,
    pub push: Option<Push>,
}

/// The ledger row that an authenticated Send writes.
pub open spec fn sent_row(s: ISigner, p: ISendMessagePayload, now: i64) -> IMessage {
    IMessage {
        hash: request_digest(Operation::SendMessage, s.salt@, s.timestamp),
        sender: s.address,
        receiver: p.receiver,
        data_hash: sha512_of(p.data@),
        timestamp: now,
    }
}

/// How a Send is answered: a receiver that is no public key does not
/// decode; otherwise the request is authenticated.
pub open spec fn send_check(s: ISigner, p: ISendMessagePayload, now: i64, max_offset: i64) -> Result<[u8; 64], i32> {
    if !key_valid(p.receiver@) {
        Err(DESERIALIZATION_ERROR)
    } else {
        authentication_of(Operation::SendMessage, s, now, max_offset)
    }
}

/// The outcome of a List call against ledger rows `rows`.
pub open spec fn list_outcome(rows: Seq<IMessage>, s: ISigner, p: IGetMessagesPayload, now: i64, max_offset: i64) -> Result<Seq<IMessage>, i32> {
    if p.with matches Some(k) && !key_valid(k@) {
        Err(DESERIALIZATION_ERROR)
    } else if request_check(s, now, max_offset) is Err {
        Err(request_check(s, now, max_offset)->Err_0)
    } else if !(1 <= p.limit <= MAXIMUM_BATCH) {
        Err(LIMIT_DONT_FIT_RANGE)
    } else if !signature_valid(Operation::GetMessages, s) {
        Err(crate::irpcerror::INVALID_SIGNATURE)
    } else {
        Ok(page(selection(rows, s.address@, view_of_peer(p.with), p.mine), p.offset as nat, p.limit as nat))
    }
}

/// Whether a Delete call gets past its checks.
pub open spec fn delete_check(s: ISigner, p: IDeleteMessagesPayload, now: i64, max_offset: i64) -> Result<(), i32> {
    if request_check(s, now, max_offset) is Err {
        request_check(s, now, max_offset)
    } else if !(1 <= p.hashes@.len() <= MAXIMUM_BATCH) {
        Err(HASHES_LEN_DONT_FIT_RANGE)
    } else if !signature_valid(Operation::DeleteMessages, s) {
        Err(crate::irpcerror::INVALID_SIGNATURE)
    } else {
        Ok(())
    }
}

/// The push a Send of `row` triggers, given the session directory `sessions`.
pub open spec fn push_for(sessions: Map<Seq<u8>, u64>, row: IMessage) -> Option<Push> {
    if sessions.contains_key(row.receiver@) {
        Some(Push { channel: sessions[row.receiver@], event: IWebSocketResponse::NewMessage(row) })
    } else {
        None
    }
}

/// The relay's state: ledger, blob store, live sessions, and the replay
/// window's width in microseconds.
///
/// Both stores live in this process. A store that is full refuses a write
/// (FILE_SYSTEM_WRITE_ERROR for a blob, DATABASE_WRITE_ERROR for a row);
/// there is no connection to lose and no read or delete that can fail, so
/// DATABASE_POOL_ERROR, DATABASE_READ_ERROR and DATABASE_DELETE_ERROR, the
/// codes of stores reached over a connection, never arise here.
pub struct Relay {
    pub ledger: Ledger,
    pub blobs: BlobStore,
    pub sessions: SessionDirectory,
    pub max_offset: i64,
}

/// What a Send does to the relay and what it answers.
/// Whether a Send's blob is refused: it is new and does not fit in what is
/// left of the blob store.
pub open spec fn blob_refused(blobs: BlobStore, data: Seq<u8>) -> bool {
    !blobs@.contains_key(sha512_of(data)@) && blobs.used() + data.len() > blobs.capacity()
}

/// Whether a Send's row is refused: it is new and the ledger is full.
pub open spec fn row_refused(ledger: Ledger, row: IMessage) -> bool {
    !has_hash(ledger@, row.hash@) && ledger@.len() >= ledger.max_rows()
}

/// What a Send does to the relay and what it answers. The blob is written
/// before the row: a refused blob leaves everything as it was; a refused
/// row leaves the blob stored (harmless, it is addressed by its content).
pub open spec fn send_spec(pre: Relay, post: Relay, s: ISigner, p: ISendMessagePayload, now: i64, out: Dispatch) -> bool {
    &&& post.max_offset == pre.max_offset
    &&& post.sessions == pre.sessions
    &&& post.blobs.capacity() == pre.blobs.capacity()
    &&& post.ledger.max_rows() == pre.ledger.max_rows()
    &&& match send_check(s, p, now, pre.max_offset) {
        Err(e) => {
            &&& out.response == Err::<IRPCResponse, i32>(e)
            &&& out.push is None
            &&& post.ledger@ == pre.ledger@
            &&& post.blobs@ == pre.blobs@
            &&& post.blobs.used() == pre.blobs.used()
        },
        Ok(_) => {
            let row = sent_row(s, p, now);
            if blob_refused(pre.blobs, p.data@) {
                &&& out.response == Err::<IRPCResponse, i32>(FILE_SYSTEM_WRITE_ERROR)
                &&& out.push is None
                &&& post.ledger@ == pre.ledger@
                &&& post.blobs@ == pre.blobs@
                &&& post.blobs.used() == pre.blobs.used()
            } else {
                &&& (pre.blobs@.contains_key(row.data_hash@) ==>
                        post.blobs@ == pre.blobs@ && post.blobs.used() == pre.blobs.used())
                &&& (!pre.blobs@.contains_key(row.data_hash@) ==>
                        post.blobs@ == pre.blobs@.insert(row.data_hash@, p.data@)
                        && post.blobs.used() == pre.blobs.used() + p.data@.len())
                &&& if row_refused(pre.ledger, row) {
                    &&& out.response == Err::<IRPCResponse, i32>(DATABASE_WRITE_ERROR)
                    &&& out.push is None
                    &&& post.ledger@ == pre.ledger@
                } else {
                    &&& out.response == Ok::<IRPCResponse, i32>(IRPCResponse::SendMessage)
                    &&& out.push == push_for(pre.sessions@, row)
                    &&& insert_result(pre.ledger@, post.ledger@, row)
                }
            }
        },
    }
}

/// What a List answers.
pub open spec fn list_spec(pre: Relay, s: ISigner, p: IGetMessagesPayload, now: i64, r: Result<IRPCResponse, i32>) -> bool {
    match list_outcome(pre.ledger@, s, p, now, pre.max_offset) {
        Err(e) => r == Err::<IRPCResponse, i32>(e),
        Ok(rows) => r matches Ok(IRPCResponse::GetMessages(v)) && v@ == rows,
    }
}

/// What a Delete does to the ledger and what it answers.
pub open spec fn delete_spec(pre: Relay, post: Relay, s: ISigner, p: IDeleteMessagesPayload, now: i64, r: Result<IRPCResponse, i32>) -> bool {
    &&& post.max_offset == pre.max_offset
    &&& post.sessions == pre.sessions
    &&& post.blobs == pre.blobs
    &&& post.ledger.max_rows() == pre.ledger.max_rows()
    &&& match delete_check(s, p, now, pre.max_offset) {
        Err(e) => r == Err::<IRPCResponse, i32>(e) && post.ledger@ == pre.ledger@,
        Ok(_) => {
            &&& post.ledger@ == after_delete(pre.ledger@, s.address@, p.hashes@)
            &&& r matches Ok(IRPCResponse::DeleteMessages(flags)) && flags@.len() == p.hashes@.len()
                && forall|k: int| 0 <= k < p.hashes@.len() ==>
                    #[trigger] flags@[k] == has_owned(pre.ledger@, s.address@, p.hashes@[k]@)
        },
    }
}

/// The media type of the binary wire encoding.
pub open spec fn borsh_media_type() -> Seq<char> {
    "application/borsh"@
}

/// Whether a request's Content-Type header (absent, or not readable as
/// text, is `None`) names the binary wire encoding; any other type is
/// rejected before decoding.
pub fn borsh_content_type(content_type: Option<&str>) -> (r: bool)
    ensures
        r == (content_type matches Some(v) && v@ == borsh_media_type()),
{
    match content_type {
        None => false,
        Some(v) => {
            let expected = "application/borsh";
            let n = v.unicode_len();
            if n != expected.unicode_len() {
                return false;
            }
            let mut i: usize = 0;
            while i < n
                invariant
                    i <= n,
                    n == v@.len(),
                    n == expected@.len(),
                    expected@ == borsh_media_type(),
                    content_type == Some(v),
                    forall|j: int| 0 <= j < i ==> v@[j] == expected@[j],
                decreases n - i,
            {
                if v.get_char(i) != expected.get_char(i) {
                    assert(v@[i as int] != borsh_media_type()[i as int]);
                    return false;
                }
                i = i + 1;
            }
            assert(v@ =~= expected@);
            true
        },
    }
}

impl Relay {
    pub open spec fn wf(&self) -> bool {
        self.ledger.wf() && self.blobs.wf() && self.sessions.wf()
    }

    /// An empty relay whose replay window is `max_offset` microseconds wide.
    /// The blob store holds at most `blob_capacity` bytes and the ledger at
    /// most `max_rows` rows.
    pub fn new(max_offset: i64, blob_capacity: usize, max_rows: usize) -> (r: Relay)
        ensures
            r.wf(),
            r.max_offset == max_offset,
            r.ledger@ == Seq::<IMessage>::empty(),
            r.ledger.max_rows() == max_rows,
            r.blobs@ == Map::<Seq<u8>, Seq<u8>>::empty(),
            r.blobs.capacity() == blob_capacity,
            r.blobs.used() == 0,
            r.sessions@ == Map::<Seq<u8>, u64>::empty(),
    {
        Relay {
            ledger: Ledger::new(max_rows),
            blobs: BlobStore::new(blob_capacity),
            sessions: SessionDirectory::new(),
            max_offset,
        }
    }

    /// Send: authenticates over "send-message", stores the ciphertext blob,
    /// then the ledger row (a retried request is a ledger no-op), and names
    /// the push for the receiver's live session, if it has one. A blob that
    /// does not fit answers FILE_SYSTEM_WRITE_ERROR, a row that does not fit
    /// DATABASE_WRITE_ERROR.
    pub fn send_message(&mut self, signer: &ISigner, payload: ISendMessagePayload, now: i64) -> (out: Dispatch)
        requires
            old(self).wf(),
        ensures
            final(self).wf(),
            send_spec(*old(self), *final(self), *signer, payload, now, out),
    {
        if !valid_key(&payload.receiver) {
            return Dispatch { response: Err(DESERIALIZATION_ERROR), push: None };
        }
        let hash = match authenticate(Operation::SendMessage, signer, now, self.max_offset) {
            Err(e) => {
                return Dispatch { response: Err(e), push: None };
            },
            Ok(h) => h,
        };
        let receiver = payload.receiver;
        let data_hash = match self.blobs.put(payload.data) {
            None => {
                return Dispatch { response: Err(FILE_SYSTEM_WRITE_ERROR), push: None };
            },
            Some(d) => d,
        };
        let row = IMessage { hash, sender: signer.address, receiver, data_hash, timestamp: now };
        assert(row == sent_row(*signer, payload, now));
        if self.ledger.insert(row).is_err() {
            return Dispatch { response: Err(DATABASE_WRITE_ERROR), push: None };
        }
        let push = match self.sessions.lookup(&receiver) {
            Some(channel) => Some(Push { channel, event: IWebSocketResponse::NewMessage(row) }),
            None => None,
        };
        Dispatch { response: Ok(IRPCResponse::SendMessage), push }
    }

    /// List: authenticates over "get-messages"; a limit outside
    /// `1..=10000` fails before the ledger is read.
    pub fn get_messages(&self, signer: &ISigner, payload: &IGetMessagesPayload, now: i64) -> (r: Result<IRPCResponse, i32>)
        requires
            self.wf(),
        ensures
            list_spec(*self, *signer, *payload, now, r),
    {
        if let Some(peer) = &payload.with {
            if !valid_key(peer) {
                return Err(DESERIALIZATION_ERROR);
            }
        }
        if let Err(e) = check_request(signer, now, self.max_offset) {
            return Err(e);
        }
        if payload.limit < 1 || payload.limit > MAXIMUM_BATCH {
            return Err(LIMIT_DONT_FIT_RANGE);
        }
        if let Err(e) = check_signature(Operation::GetMessages, signer) {
            return Err(e);
        }
        let rows = self.ledger.list(&signer.address, payload.offset, payload.limit, &payload.with, payload.mine);
        Ok(IRPCResponse::GetMessages(rows))
    }

    /// Delete: authenticates over "delete-messages"; a hash list that is
    /// empty or longer than 10000 fails before the ledger is touched. Removes
    /// the caller's own rows among the hashes and reports, per hash in order,
    /// whether it removed one.
    pub fn delete_messages(&mut self, signer: &ISigner, payload: &IDeleteMessagesPayload, now: i64) -> (r: Result<IRPCResponse, i32>)
        requires
            old(self).wf(),
        ensures
            final(self).wf(),
            delete_spec(*old(self), *final(self), *signer, *payload, now, r),
    {
        if let Err(e) = check_request(signer, now, self.max_offset) {
            return Err(e);
        }
        if payload.hashes.len() < 1 || payload.hashes.len() > MAXIMUM_BATCH as usize {
            return Err(HASHES_LEN_DONT_FIT_RANGE);
        }
        if let Err(e) = check_signature(Operation::DeleteMessages, signer) {
            return Err(e);
        }
        let flags = self.ledger.delete(&signer.address, &payload.hashes);
        Ok(IRPCResponse::DeleteMessages(flags))
    }

    /// Runs one RPC request.
    pub fn dispatch(&mut self, request: IRPCRequest, now: i64) -> (out: Dispatch)
        requires
            old(self).wf(),
        ensures
            final(self).wf(),
            match request {
                IRPCRequest::SendMessage(s, p) => send_spec(*old(self), *final(self), s, p, now, out),
                IRPCRequest::GetMessages(s, p) => list_spec(*old(self), s, p, now, out.response)
                    && out.push is None && *final(self) == *old(self),
                IRPCRequest::DeleteMessages(s, p) => delete_spec(*old(self), *final(self), s, p, now, out.response)
                    && out.push is None,
            },
    {
        match request {
            IRPCRequest::SendMessage(s, p) => self.send_message(&s, p, now),
            IRPCRequest::GetMessages(s, p) => Dispatch { response: self.get_messages(&s, &p, now), push: None },
            IRPCRequest::DeleteMessages(s, p) => Dispatch { response: self.delete_messages(&s, &p, now), push: None },
        }
    }

    /// A push connection closed: sessions that pointed at its channel end.
    pub fn disconnect(&mut self, channel: u64)
        requires
            old(self).wf(),
        ensures
            final(self).wf(),
            final(self).ledger == old(self).ledger,
            final(self).blobs == old(self).blobs,
            final(self).max_offset == old(self).max_offset,
            forall|k: Seq<u8>| #[trigger] final(self).sessions@.contains_key(k) <==>
                (old(self).sessions@.contains_key(k) && old(self).sessions@[k] != channel),
            forall|k: Seq<u8>| #[trigger] final(self).sessions@.contains_key(k) ==>
                final(self).sessions@[k] == old(self).sessions@[k],
    {
        self.sessions.release(channel);
    }

    /// Authorize on a push connection: on a valid request the identity's
    /// session now points at `channel` and the connection is acknowledged;
    /// an invalid one is ignored.
    pub fn authorize(&mut self, request: &IWebSocketRequest, channel: u64, now: i64) -> (r: Option<Push>)
        requires
            old(self).wf(),
        ensures
            final(self).wf(),
            final(self).ledger == old(self).ledger,
            final(self).blobs == old(self).blobs,
            final(self).max_offset == old(self).max_offset,
            match *request {
                IWebSocketRequest::Authorize(s) => if authentication_of(Operation::Authorize, s, now, old(self).max_offset) is Ok {
                    &&& final(self).sessions@ == old(self).sessions@.insert(s.address@, channel)
                    &&& r == Some(Push { channel, event: IWebSocketResponse::Authorized })
                } else {
                    final(self).sessions@ == old(self).sessions@ && r is None
                },
            },
    {
        match request {
            IWebSocketRequest::Authorize(s) => {
                if authenticate(Operation::Authorize, s, now, self.max_offset).is_err() {
                    return None;
                }
                self.sessions.authorize(&s.address, channel);
                Some(Push { channel, event: IWebSocketResponse::Authorized })
            },
        }
    }
}

/// Idempotent retry: once a Send has been accepted, sending the same signed
/// request again leaves the ledger and the blob store as the first Send left
/// them, and the ledger holds a row with the request's hash.
pub proof fn lemma_send_twice_single_row(
    r0: Relay, r1: Relay, r2: Relay, s: ISigner, p: ISendMessagePayload, now1: i64, now2: i64,
    out1: Dispatch, out2: Dispatch,
)
    requires
        r0.wf(),
        r1.wf(),
        send_spec(r0, r1, s, p, now1, out1),
        send_spec(r1, r2, s, p, now2, out2),
        out1.response is Ok,
    ensures
        has_hash(r1.ledger@, sent_row(s, p, now1).hash@),
        r2.ledger@ == r1.ledger@,
        r2.blobs@ == r1.blobs@,
{
    let row1 = sent_row(s, p, now1);
    let row2 = sent_row(s, p, now2);
    assert(send_check(s, p, now1, r0.max_offset) is Ok);
    if !has_hash(r0.ledger@, row1.hash@) {
        let q = choose|q: int| 0 <= q <= r0.ledger@.len() && r1.ledger@ == #[trigger] r0.ledger@.insert(q, row1);
        assert(r1.ledger@[q] == row1);
    }
    assert(r1.blobs@.contains_key(row1.data_hash@));
    assert(row2.hash == row1.hash);
    assert(row2.data_hash == row1.data_hash);
}

/// Deleting twice: after a Delete that got past its checks, a second Delete
/// by the same identity of the same hashes reports `false` for every hash,
/// and is no error once it too gets past its checks.
pub proof fn lemma_delete_twice_reports_false(
    r0: Relay, r1: Relay, r2: Relay, s1: ISigner, s2: ISigner, p: IDeleteMessagesPayload, now1: i64, now2: i64,
    res1: Result<IRPCResponse, i32>, res2: Result<IRPCResponse, i32>,
)
    requires
        delete_spec(r0, r1, s1, p, now1, res1),
        delete_spec(r1, r2, s2, p, now2, res2),
        s1.address == s2.address,
        delete_check(s1, p, now1, r0.max_offset) is Ok,
        delete_check(s2, p, now2, r1.max_offset) is Ok,
    ensures
        res2 matches Ok(IRPCResponse::DeleteMessages(flags)) && flags@.len() == p.hashes@.len()
            && forall|k: int| 0 <= k < flags@.len() ==> !#[trigger] flags@[k],
{
    let pred = crate::ledger::kept_pred(s1.address@, p.hashes@);
    assert forall|k: int| 0 <= k < p.hashes@.len() implies !has_owned(r1.ledger@, s2.address@, #[trigger] p.hashes@[k]@) by {
        if has_owned(r1.ledger@, s2.address@, p.hashes@[k]@) {
            let i = choose|i: int| 0 <= i < r1.ledger@.len() && #[trigger] r1.ledger@[i].hash@ == p.hashes@[k]@
                && r1.ledger@[i].sender@ == s2.address@;
            r0.ledger@.lemma_filter_pred(pred, i);
            assert(crate::ledger::hash_listed(p.hashes@, r1.ledger@[i].hash@));
        }
    }
}

/// A List whose limit lies outside `1..=10000` fails with the range error
/// (once it decodes and its timestamp passes), whatever its signature; a List never changes
/// the relay.
pub proof fn lemma_list_limit_out_of_range(r: Relay, s: ISigner, p: IGetMessagesPayload, now: i64, res: Result<IRPCResponse, i32>)
    requires
        list_spec(r, s, p, now, res),
        request_check(s, now, r.max_offset) is Ok,
        p.with is None || key_valid(p.with->0@),
        p.limit == 0 || p.limit > MAXIMUM_BATCH,
    ensures
        res == Err::<IRPCResponse, i32>(LIMIT_DONT_FIT_RANGE),
{
}

/// Push on Send: when the receiver has authorised a channel, an accepted Send
/// names exactly one push, on that channel, carrying the new row; when it has
/// not, no push is named and the row is among those a List by the receiver
/// selects, so the message is not lost.
pub proof fn lemma_send_pushes_or_keeps(r0: Relay, r1: Relay, s: ISigner, p: ISendMessagePayload, now: i64, out: Dispatch)
    requires
        r0.wf(),
        send_spec(r0, r1, s, p, now, out),
        out.response is Ok,
    ensures
        r0.sessions@.contains_key(p.receiver@) ==> out.push == Some(Push {
            channel: r0.sessions@[p.receiver@],
            event: IWebSocketResponse::NewMessage(sent_row(s, p, now)),
        }),
        !r0.sessions@.contains_key(p.receiver@) ==> out.push is None,
        !has_hash(r0.ledger@, sent_row(s, p, now).hash@) ==>
            selection(r1.ledger@, p.receiver@, None, false).contains(sent_row(s, p, now)),
{
    let row = sent_row(s, p, now);
    assert(send_check(s, p, now, r0.max_offset) is Ok);
    if !has_hash(r0.ledger@, row.hash@) {
        let q = choose|q: int| 0 <= q <= r0.ledger@.len() && r1.ledger@ == #[trigger] r0.ledger@.insert(q, row);
        assert(r1.ledger@[q] == row);
        let pred = crate::ledger::visible_pred(p.receiver@, None, false);
        assert(pred(row));
        r1.ledger@.lemma_filter_contains(pred, q);
    }
}

/// Authorising and then receiving: after a valid Authorize of `b` on
/// `channel`, an accepted Send to `b` names one push, on `channel`, carrying
/// the new row.
pub proof fn lemma_authorized_receiver_is_pushed(
    r0: Relay, r1: Relay, r2: Relay, auth: ISigner, channel: u64, now1: i64, s: ISigner, p: ISendMessagePayload,
    now2: i64, out: Dispatch,
)
    requires
        authentication_of(Operation::Authorize, auth, now1, r0.max_offset) is Ok,
        r1.sessions@ == r0.sessions@.insert(auth.address@, channel),
        auth.address@ == p.receiver@,
        send_spec(r1, r2, s, p, now2, out),
        out.response is Ok,
    ensures
        out.push == Some(Push { channel, event: IWebSocketResponse::NewMessage(sent_row(s, p, now2)) }),
{
    assert(send_check(s, p, now2, r1.max_offset) is Ok);
}

/// Deleting by the sender removes the message for everyone: after a Delete
/// by `s.address` that got past its checks, no row sent by that identity
/// with a requested hash is left, so no later List returns one.
pub proof fn lemma_deleted_rows_leave_every_list(
    r0: Relay, r1: Relay, s: ISigner, p: IDeleteMessagesPayload, now: i64, res: Result<IRPCResponse, i32>,
    reader: Seq<u8>, with: Option<Seq<u8>>, mine: bool, k: int,
)
    requires
        delete_spec(r0, r1, s, p, now, res),
        delete_check(s, p, now, r0.max_offset) is Ok,
        0 <= k < p.hashes@.len(),
    ensures
        !has_owned(r1.ledger@, s.address@, p.hashes@[k]@),
        forall|i: int| 0 <= i < selection(r1.ledger@, reader, with, mine).len() ==>
            !(#[trigger] selection(r1.ledger@, reader, with, mine)[i].hash@ == p.hashes@[k]@
              && selection(r1.ledger@, reader, with, mine)[i].sender@ == s.address@),
{
    let pred = crate::ledger::kept_pred(s.address@, p.hashes@);
    if has_owned(r1.ledger@, s.address@, p.hashes@[k]@) {
        let i = choose|i: int| 0 <= i < r1.ledger@.len() && #[trigger] r1.ledger@[i].hash@ == p.hashes@[k]@
            && r1.ledger@[i].sender@ == s.address@;
        r0.ledger@.lemma_filter_pred(pred, i);
        assert(crate::ledger::hash_listed(p.hashes@, r1.ledger@[i].hash@));
    }
    let vis = crate::ledger::visible_pred(reader, with, mine);
    assert forall|i: int| 0 <= i < selection(r1.ledger@, reader, with, mine).len() implies
        !(#[trigger] selection(r1.ledger@, reader, with, mine)[i].hash@ == p.hashes@[k]@
          && selection(r1.ledger@, reader, with, mine)[i].sender@ == s.address@) by {
        let m = selection(r1.ledger@, reader, with, mine)[i];
        r1.ledger@.lemma_filter_contains_rev(vis, m);
        assert(r1.ledger@.filter(vis).contains(m));
        if m.hash@ == p.hashes@[k]@ && m.sender@ == s.address@ {
            let j = choose|j: int| 0 <= j < r1.ledger@.len() && r1.ledger@[j] == m;
            assert(r1.ledger@[j].hash@ == p.hashes@[k]@);
        }
    }
}

/// A Send whose timestamp lies outside the replay window is answered with
/// the window error (once its keys and timestamp decode), whatever its
/// signature, and stores nothing and pushes nothing.
pub proof fn lemma_stale_send_stores_nothing(pre: Relay, post: Relay, s: ISigner, p: ISendMessagePayload, now: i64, out: Dispatch)
    requires
        send_spec(pre, post, s, p, now, out),
        key_valid(p.receiver@),
        key_valid(s.address@),
        crate::outside::utc_micros_representable(s.timestamp as int),
        s.timestamp < now - pre.max_offset || s.timestamp > now,
    ensures
        out.response == Err::<IRPCResponse, i32>(crate::irpcerror::MAXIMUM_CONFIRMATION_TIMESTAMP_OFFSET_EXCCEED),
        out.push is None,
        post.ledger@ == pre.ledger@,
        post.blobs@ == pre.blobs@,
{
}

/// A Send that passes its other checks but whose signature does not verify
/// over its own salt and timestamp (as when either was altered after
/// signing) is answered with INVALID_SIGNATURE, and stores nothing and
/// pushes nothing.
pub proof fn lemma_unsigned_send_stores_nothing(pre: Relay, post: Relay, s: ISigner, p: ISendMessagePayload, now: i64, out: Dispatch)
    requires
        send_spec(pre, post, s, p, now, out),
        key_valid(p.receiver@),
        request_check(s, now, pre.max_offset) is Ok,
        !signature_valid(Operation::SendMessage, s),
    ensures
        out.response == Err::<IRPCResponse, i32>(crate::irpcerror::INVALID_SIGNATURE),
        out.push is None,
        post.ledger@ == pre.ledger@,
        post.blobs@ == pre.blobs@,
{
}

} // verus!
