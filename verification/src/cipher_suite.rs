use vstd::prelude::*;

use crate::bytes::copy_range;
use crate::errors::Error;

verus! {

/// TLS_ECDHE_ECDSA_WITH_AES_128_GCM_SHA256
pub const CIPHER_SUITE_ID_ECDHE_ECDSA_AES128_GCM_SHA256: u16 = 0xc02b;

/// TLS_ECDHE_RSA_WITH_AES_128_GCM_SHA256
pub const CIPHER_SUITE_ID_ECDHE_RSA_AES128_GCM_SHA256: u16 = 0xc02f;

/// TLS_ECDHE_ECDSA_WITH_AES_256_CBC_SHA
pub const CIPHER_SUITE_ID_ECDHE_ECDSA_AES256_CBC_SHA: u16 = 0xc00a;

/// TLS_ECDHE_RSA_WITH_AES_256_CBC_SHA
pub const CIPHER_SUITE_ID_ECDHE_RSA_AES256_CBC_SHA: u16 = 0xc014;

/// TLS_PSK_WITH_AES_128_CCM_8
pub const CIPHER_SUITE_ID_PSK_AES128_CCM_8: u16 = 0xc0a8;

/// TLS_PSK_WITH_AES_128_GCM_SHA256
pub const CIPHER_SUITE_ID_PSK_AES128_GCM_SHA256: u16 = 0x00a8;

/// The hash algorithm a cipher suite hands to the pseudorandom function.
///
/// Every suite this build registers uses the SHA-256 based TLS 1.2 PRF.
#[derive(Clone, Copy, Debug, PartialEq, Eq, Structural)]
pub enum HashAlgorithm {
    Sha256,
}

/// The inputs a cipher suite's key schedule was derived from.
///
/// The record-layer keys of a suite are a pure function of the master
/// secret, the two handshake randoms in (client, server) order, and the
/// role flag; holding these inputs is what "owning a derived key schedule"
/// means to this core. The derivation itself belongs to the record layer.
#[derive(Debug)]
pub struct KeySchedule {
    pub master_secret: Vec<u8>,
    pub client_random: Vec<u8>,
    pub server_random: Vec<u8>,
    pub is_client: bool,
}

/// The cipher-suite capability chosen during negotiation, identified by a
/// stable numeric id; it owns a key schedule once initialized.
#[derive(Debug)]
pub struct CipherSuite {
    pub id: u16,
    pub key_schedule: Option<KeySchedule>,
}

impl CipherSuite {
    /// Returns the stable numeric identifier of this suite.
    pub fn id(&self) -> (r: u16)
        ensures
            r == self.id,
    {
        self.id
    }

    /// Returns the hash algorithm this suite uses for the PRF.
    pub fn hash_func(&self) -> (r: HashAlgorithm)
        ensures
            r == HashAlgorithm::Sha256,
    {
        HashAlgorithm::Sha256
    }

    /// Whether the key schedule has been derived.
    pub open spec fn spec_is_initialized(&self) -> bool {
        self.key_schedule is Some
    }

    /// Returns whether the key schedule has been derived.
    pub fn is_initialized(&self) -> (r: bool)
        ensures
            r == self.spec_is_initialized(),
    {
        self.key_schedule.is_some()
    }

    /// Derives the key schedule from the master secret and the two handshake
    /// randoms, which the caller must pass in (client, server) order
    /// regardless of its own role.
    ///
    /// Re-initialization replaces the previous schedule wholesale.
    pub fn init(
        &mut self,
        master_secret: &[u8],
        client_random: &[u8],
        server_random: &[u8],
        is_client: bool,
    )
        ensures
            final(self).id == old(self).id,
            final(self).key_schedule is Some,
            final(self).key_schedule.unwrap().master_secret@ == master_secret@,
            final(self).key_schedule.unwrap().client_random@ == client_random@,
            final(self).key_schedule.unwrap().server_random@ == server_random@,
            final(self).key_schedule.unwrap().is_client == is_client,
    {
        let n_ms = master_secret.len();
        let n_cr = client_random.len();
        let n_sr = server_random.len();
        let ks = KeySchedule {
            master_secret: copy_range(master_secret, 0, n_ms),
            client_random: copy_range(client_random, 0, n_cr),
            server_random: copy_range(server_random, 0, n_sr),
            is_client,
        };
        proof {
            assert(master_secret@.subrange(0, master_secret@.len() as int) == master_secret@);
            assert(client_random@.subrange(0, client_random@.len() as int) == client_random@);
            assert(server_random@.subrange(0, server_random@.len() as int) == server_random@);
        }
        self.key_schedule = Some(ks);
    }
}

/// Whether a numeric cipher-suite id can be constructed by this build's
/// registry.
pub open spec fn is_registered_id(id: u16) -> bool {
    ||| id == CIPHER_SUITE_ID_ECDHE_ECDSA_AES128_GCM_SHA256
    ||| id == CIPHER_SUITE_ID_ECDHE_RSA_AES128_GCM_SHA256
    ||| id == CIPHER_SUITE_ID_ECDHE_ECDSA_AES256_CBC_SHA
    ||| id == CIPHER_SUITE_ID_ECDHE_RSA_AES256_CBC_SHA
    ||| id == CIPHER_SUITE_ID_PSK_AES128_CCM_8
    ||| id == CIPHER_SUITE_ID_PSK_AES128_GCM_SHA256
}

/// Registry lookup: constructs the uninitialized cipher-suite capability a
/// numeric id names, or fails with `UnsupportedCipherSuiteId` for an id this
/// build does not register.
pub fn cipher_suite_for_id(id: u16) -> (r: Result<CipherSuite, Error>)
    ensures
        r is Ok <==> is_registered_id(id),
        !is_registered_id(id) ==> r == Err::<CipherSuite, Error>(Error::UnsupportedCipherSuiteId),
        r is Ok ==> r.unwrap().id == id && !r.unwrap().spec_is_initialized(),
{
    if id == CIPHER_SUITE_ID_ECDHE_ECDSA_AES128_GCM_SHA256
        || id == CIPHER_SUITE_ID_ECDHE_RSA_AES128_GCM_SHA256
        || id == CIPHER_SUITE_ID_ECDHE_ECDSA_AES256_CBC_SHA
        || id == CIPHER_SUITE_ID_ECDHE_RSA_AES256_CBC_SHA
        || id == CIPHER_SUITE_ID_PSK_AES128_CCM_8
        || id == CIPHER_SUITE_ID_PSK_AES128_GCM_SHA256 {
        Ok(CipherSuite { id, key_schedule: None })
    } else {
        Err(Error::UnsupportedCipherSuiteId)
    }
}

} // verus!
