//! Wire-level data types shared by the relay and its clients.
//!
//! Keys, signatures, salts and digests are held as fixed-width byte arrays:
//! an identity is the 32-byte compressed Ed25519 verification key.
use vstd::prelude::*;

verus! {

/// Largest accepted age of a signed request, in microseconds.
pub const MAXIMUM_CONFIRMATION_TIMESTAMP_OFFSET: i64 = 60_000_000;

/// Largest page a List call may ask for, and largest batch a Delete call may carry.
pub const MAXIMUM_BATCH: u32 = 10_000;

/// A request signed by `address` at `timestamp` (microseconds since the epoch).
#[derive(Clone, Copy, Debug)]
pub struct ISigner {
    pub address: [u8; 32],
    pub salt: [u8; 16],
    pub timestamp: i64,
    pub signature: [u8; 64],
}

/// A ledger row: one stored message.
#[derive(Clone, Copy, Debug, PartialEq, Eq)]
pub struct IMessage {
    pub hash: [u8; 64],
    pub sender: [u8; 32],
    pub receiver: [u8; 32],
    pub data_hash: [u8; 64],
    pub timestamp: i64,
}

#[derive(Clone, Debug)]
pub struct ISendMessagePayload {
    pub receiver: [u8; 32],
    pub data: Vec<u8>,
}

#[derive(Clone, Copy, Debug)]
pub struct IGetMessagesPayload {
    pub offset: u32,
    pub limit: u32,
    pub with: Option<[u8; 32]>,
    pub mine: bool,
}

#[derive(Clone, Debug)]
pub struct IDeleteMessagesPayload {
    pub hashes: Vec<[u8; 64]>,
}

#[derive(Clone, Debug)]
pub enum IRPCRequest {
    SendMessage(ISigner, ISendMessagePayload),
    GetMessages(ISigner, IGetMessagesPayload),
    DeleteMessages(ISigner, IDeleteMessagesPayload),
}

#[derive(Clone, Debug)]
pub enum IRPCResponse {
    SendMessage,
    GetMessages(Vec<IMessage>),
    DeleteMessages(Vec<bool>),
}

#[derive(Clone, Copy, Debug)]
pub enum IWebSocketRequest {
    Authorize(ISigner),
}

#[derive(Clone, Copy, Debug)]
pub enum IWebSocketResponse {
    Authorized,
    NewMessage(IMessage),
}

} // verus!
