//! The server's long-lived identity and configuration. The listener that
//! accepts connections and spawns one handler per connection lives with the
//! embedding application; each accepted connection gets its own
//! `ServerHandler` so per-connection handshake state never leaks.

use vstd::prelude::*;

use crate::errors::CryptoError;
use crate::rpc::Request;

verus! {

/// Listener configuration. `timeout_ms` bounds one request/response wait.
pub struct ServerConfig {
    pub open_registration: bool,
    pub timeout_ms: u64,
}

impl Default for ServerConfig {
    fn default() -> (r: ServerConfig)
        ensures
            !r.open_registration,
            r.timeout_ms == 10000,
    {
        ServerConfig { open_registration: false, timeout_ms: 10000 }
    }
}

/// The shared, read-mostly server state: its identity key, the peers allowed
/// to register, and its configuration.
pub struct Server {
    pub private_key: rsa::RsaPrivateKey,
    pub authorized_keys: Vec<rsa::RsaPublicKey>,
    pub config: ServerConfig,
}

impl Server {
    pub fn new(
        private_key: rsa::RsaPrivateKey,
        authorized_keys: Vec<rsa::RsaPublicKey>,
        config: Option<ServerConfig>,
    ) -> (r: Server)
        ensures
            r.authorized_keys == authorized_keys,
            config matches Some(c) ==> r.config == c,
            config is None ==> !r.config.open_registration && r.config.timeout_ms == 10000,
    {
        let config = match config {
            Some(c) => c,
            None => Default::default(),
        };
        Server { private_key, authorized_keys, config }
    }

    /// Adds a peer's PEM-rendered public key to the authorized list; text
    /// that is not such a rendering is rejected and the list is unchanged.
    pub fn add_authorized_key_pem(&mut self, pem: &str) -> (r: Result<(), CryptoError>)
        ensures
            final(self).private_key == old(self).private_key,
            final(self).config == old(self).config,
            r is Ok ==> final(self).authorized_keys@.len() == old(self).authorized_keys@.len() + 1
                && final(self).authorized_keys@.take(
                old(self).authorized_keys@.len() as int,
            ) == old(self).authorized_keys@,
            r matches Err(e) ==> e == CryptoError::DecodeFailure && final(self).authorized_keys
                == old(self).authorized_keys,
    {
        let pk = crate::pki::pub_key_from_str(pem)?;
        self.authorized_keys.push(pk);
        proof {
            assert(self.authorized_keys@.take(old(self).authorized_keys@.len() as int) =~= old(
                self,
            ).authorized_keys@);
        }
        Ok(())
    }
}

/// A message waiting to be forwarded to peers that are not connected.
pub struct PendingNotification {
    pub recipients: Vec<String>,
    pub notification: Request,
}

impl PendingNotification {
    pub fn new(recipients: Vec<String>, notification: Request) -> (r: PendingNotification)
        ensures
            r.recipients == recipients,
            r.notification == notification,
    {
        PendingNotification { recipients, notification }
    }
}

} // verus!
