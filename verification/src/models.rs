//! Application record shapes carried through the entry store, and the
//! session-key material shared by client and server.

use vstd::prelude::*;

verus! {

/// The negotiated symmetric session material: key material and the 12-byte
/// session nonce. Held only in memory, never persisted in cleartext.
///
/// The nonce is established once per handshake and then reused for every
/// symmetric message of the session, as the handshake contract hands exactly
/// one (key, nonce) pair to the peer. Nonce reuse under a fixed key weakens
/// an AEAD construction (it can leak relationships between plaintexts); a
/// deployment that does not need wire compatibility should rotate the session
/// instead of holding it open.
#[derive(Clone)]
pub struct EncryptionConfiguration {
    pub shared_key: Vec<u8>,
    pub nonce: Vec<u8>,
}

impl EncryptionConfiguration {
    pub fn new(shared_key: Vec<u8>, nonce: Vec<u8>) -> (r: EncryptionConfiguration)
        ensures
            r.shared_key == shared_key,
            r.nonce == nonce,
    {
        EncryptionConfiguration { shared_key, nonce }
    }
}

/// A known peer: display name and its public key rendering.
pub struct User {
    pub username: String,
    pub pub_key: String,
}

impl User {
    pub fn new(username: String, pub_key: String) -> (r: User)
        ensures
            r.username == username,
            r.pub_key == pub_key,
    {
        User { username, pub_key }
    }
}

/// One stored message; the timestamp is milliseconds since the epoch,
/// supplied by the caller's clock.
pub struct Message {
    pub server_id: String,
    pub sender_id: Option<String>,
    pub chat_id: String,
    pub message: String,
    pub timestamp: u64,
}

impl Message {
    pub fn new(
        server_id: String,
        sender_id: Option<String>,
        chat_id: String,
        message: String,
        timestamp: u64,
    ) -> (r: Message)
        ensures
            r.server_id == server_id,
            r.sender_id == sender_id,
            r.chat_id == chat_id,
            r.message == message,
            r.timestamp == timestamp,
    {
        Message { server_id, sender_id, chat_id, message, timestamp }
    }
}

/// A conversation and its own symmetric material.
pub struct Chat {
    pub user_id: String,
    pub name: String,
    pub shared_key: Vec<u8>,
    pub nonce: Vec<u8>,
    pub message_ids: Vec<String>,
    pub last_message_id: String,
}

impl Chat {
    pub fn new(user_id: String, name: String, shared_key: Vec<u8>, nonce: Vec<u8>) -> (r: Chat)
        ensures
            r.user_id == user_id,
            r.name == name,
            r.shared_key == shared_key,
            r.nonce == nonce,
            r.message_ids@.len() == 0,
            r.last_message_id@.len() == 0,
    {
        Chat {
            user_id,
            name,
            shared_key,
            nonce,
            message_ids: Vec::new(),
            last_message_id: String::new(),
        }
    }
}

/// A server the client knows: its address and, once a handshake completed,
/// the session material negotiated with it.
pub struct ServerModel {
    pub server_name: String,
    pub encryption: Option<EncryptionConfiguration>,
    pub user_ids: Vec<String>,
    pub chat_ids: Vec<String>,
    pub ip: String,
    pub port: u16,
}

impl ServerModel {
    pub fn new(
        server_name: String,
        user_ids: Vec<String>,
        chat_ids: Vec<String>,
        ip: String,
        port: u16,
    ) -> (r: ServerModel)
        ensures
            r.server_name == server_name,
            r.encryption is None,
            r.user_ids == user_ids,
            r.chat_ids == chat_ids,
            r.ip == ip,
            r.port == port,
    {
        ServerModel { server_name, encryption: None, user_ids, chat_ids, ip, port }
    }

    pub fn add_encryption(&mut self, encryption: EncryptionConfiguration)
        ensures
            final(self).encryption == Some(encryption),
            final(self).server_name == old(self).server_name,
            final(self).user_ids == old(self).user_ids,
            final(self).chat_ids == old(self).chat_ids,
            final(self).ip == old(self).ip,
            final(self).port == old(self).port,
    {
        self.encryption = Some(encryption);
    }
}

} // verus!
