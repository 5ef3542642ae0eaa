use vstd::prelude::*;

use crate::bytes::push_bytes;
use crate::cipher_suite::{cipher_suite_for_id, is_registered_id, CipherSuite};
use crate::errors::Error;
use crate::handshake_random::HandshakeRandom;
use crate::prf::{lemma_prf_prefix, prf_bytes, prf_p_hash};
use crate::snapshot::{
    certs_view, clone_certs, decode, encode, parse, wire, SerializedState, SnapshotModel,
};
use crate::srtp::SrtpProtectionProfile;

verus! {

/// An elliptic curve negotiated for the ephemeral key exchange.
#[derive(Clone, Copy, Debug, PartialEq, Eq, Structural)]
pub enum NamedCurve {
    Unsupported,
    P256,
    P384,
    X25519,
}

/// An ephemeral keypair on a named curve. The key-exchange computation
/// itself is an external collaborator; this core only stores the keys.
#[derive(Debug)]
pub struct NamedCurveKeypair {
    pub curve: NamedCurve,
    pub public_key: Vec<u8>,
    pub private_key: Vec<u8>,
}

/// The per-connection DTLS state: handshake progress, derived secrets, the
/// negotiated cipher suite, and everything the snapshot codec persists.
///
/// The connection's single handshake driver, record-read and record-write
/// paths must serialize their access; exclusive access through `&mut` is
/// what this crate's contracts are stated against.
#[derive(Debug)]
pub struct State {
    pub local_epoch: u16,
    pub remote_epoch: u16,
    /// Sequence counter per epoch, indexed by epoch; grows on demand.
    pub local_sequence_number: Vec<u64>,
    pub local_random: HandshakeRandom,
    pub remote_random: HandshakeRandom,
    pub master_secret: Vec<u8>,
    /// The negotiated cipher suite; `None` until negotiation has chosen one.
    pub cipher_suite: Option<CipherSuite>,
    pub srtp_protection_profile: SrtpProtectionProfile,
    pub peer_certificates: Vec<Vec<u8>>,
    /// Role flag, fixed at creation; governs random ordering in derivations.
    pub is_client: bool,
    pub pre_master_secret: Vec<u8>,
    pub extended_master_secret: bool,
    pub named_curve: NamedCurve,
    pub local_keypair: Option<NamedCurveKeypair>,
    pub cookie: Vec<u8>,
    pub handshake_send_sequence: isize,
    pub handshake_recv_sequence: isize,
    pub server_name: String,
    pub remote_requested_certificate: bool,
    pub local_certificates_verify: Vec<u8>,
    pub local_verify_data: Vec<u8>,
    pub local_key_signature: Vec<u8>,
    pub peer_certificates_verified: bool,
}

/// Labels reserved for internal TLS use; exported keying material may not
/// use them.
pub open spec fn is_reserved_label(l: Seq<char>) -> bool {
    ||| l == "client finished"@
    ||| l == "server finished"@
    ||| l == "master secret"@
    ||| l == "key expansion"@
}

/// Relies on `str`'s `PartialEq`: two string slices compare equal exactly
/// when they hold the same characters.
#[verifier::external_body]
fn str_eq(a: &str, b: &str) -> (r: bool)
    ensures
        r == (a@ == b@),
{
    a == b
}

/// Returns whether a label belongs to the reserved set.
fn is_reserved_label_exec(label: &str) -> (r: bool)
    ensures
        r == is_reserved_label(label@),
{
    str_eq(label, "client finished") || str_eq(label, "server finished") || str_eq(
        label,
        "master secret",
    ) || str_eq(label, "key expansion")
}

/// `s` extended with zeroes until it covers index `e`; unchanged if it
/// already does.
pub open spec fn grow_zero(s: Seq<u64>, e: int) -> Seq<u64> {
    if s.len() >= e + 1 {
        s
    } else {
        s + Seq::new((e + 1 - s.len()) as nat, |i: int| 0u64)
    }
}

/// The fields a snapshot restore never touches are kept as they were.
pub open spec fn misc_unchanged(pre: State, post: State) -> bool {
    &&& post.pre_master_secret == pre.pre_master_secret
    &&& post.extended_master_secret == pre.extended_master_secret
    &&& post.named_curve == pre.named_curve
    &&& post.local_keypair == pre.local_keypair
    &&& post.cookie == pre.cookie
    &&& post.handshake_send_sequence == pre.handshake_send_sequence
    &&& post.handshake_recv_sequence == pre.handshake_recv_sequence
    &&& post.server_name == pre.server_name
    &&& post.remote_requested_certificate == pre.remote_requested_certificate
    &&& post.local_certificates_verify == pre.local_certificates_verify
    &&& post.local_verify_data == pre.local_verify_data
    &&& post.local_key_signature == pre.local_key_signature
    &&& post.peer_certificates_verified == pre.peer_certificates_verified
}

/// The epochs of the snapshot have been stored and the sequence-counter
/// list grown (zero-filled) to cover the restored epoch.
pub open spec fn epochs_applied(pre: State, m: SnapshotModel, post: State) -> bool {
    &&& post.local_epoch == m.local_epoch
    &&& post.remote_epoch == m.remote_epoch
    &&& post.local_sequence_number@ == grow_zero(
        pre.local_sequence_number@,
        m.local_epoch as int,
    )
}

/// Both handshake randoms have been restored from their encoded forms.
pub open spec fn randoms_applied(m: SnapshotModel, post: State) -> bool {
    &&& post.local_random.wf()
    &&& post.local_random.encoding() == m.local_random
    &&& post.remote_random.wf()
    &&& post.remote_random.encoding() == m.remote_random
}

/// Role flag and master secret have been restored.
pub open spec fn secrets_applied(m: SnapshotModel, post: State) -> bool {
    &&& post.is_client == m.is_client
    &&& post.master_secret@ == m.master_secret
}

/// The fields written after the registry lookup are still as they were.
pub open spec fn tail_unchanged(pre: State, post: State) -> bool {
    &&& post.cipher_suite == pre.cipher_suite
    &&& post.srtp_protection_profile == pre.srtp_protection_profile
    &&& post.peer_certificates == pre.peer_certificates
}

/// A completed binary restore: the snapshot applied as in `restore_ok`,
/// and the reconstructed cipher suite initialized from the just-restored
/// master secret and randoms, in (client, server) order.
pub open spec fn restored_and_initialized(pre: State, m: SnapshotModel, post: State) -> bool {
    &&& post.local_epoch == m.local_epoch
    &&& post.remote_epoch == m.remote_epoch
    &&& post.local_sequence_number@ == grow_zero(
        pre.local_sequence_number@,
        m.local_epoch as int,
    ).update(m.local_epoch as int, m.sequence_number)
    &&& randoms_applied(m, post)
    &&& secrets_applied(m, post)
    &&& post.cipher_suite is Some
    &&& post.cipher_suite.unwrap().id == m.cipher_suite_id
    &&& post.cipher_suite.unwrap().spec_is_initialized()
    &&& post.cipher_suite.unwrap().key_schedule.unwrap().master_secret@ == m.master_secret
    &&& post.cipher_suite.unwrap().key_schedule.unwrap().client_random@ == (if m.is_client {
        m.local_random
    } else {
        m.remote_random
    })
    &&& post.cipher_suite.unwrap().key_schedule.unwrap().server_random@ == (if m.is_client {
        m.remote_random
    } else {
        m.local_random
    })
    &&& post.cipher_suite.unwrap().key_schedule.unwrap().is_client == m.is_client
    &&& post.srtp_protection_profile == SrtpProtectionProfile::spec_from_id(
        m.srtp_protection_profile,
    )
    &&& certs_view(post.peer_certificates) == m.peer_certificates
    &&& misc_unchanged(pre, post)
}

/// A completed snapshot restore: every snapshot field applied, the cipher
/// suite reconstructed (uninitialized) from its id, the restored epoch's
/// sequence number set, and everything else untouched.
pub open spec fn restore_ok(pre: State, m: SnapshotModel, post: State) -> bool {
    &&& post.local_epoch == m.local_epoch
    &&& post.remote_epoch == m.remote_epoch
    &&& post.local_sequence_number@ == grow_zero(
        pre.local_sequence_number@,
        m.local_epoch as int,
    ).update(m.local_epoch as int, m.sequence_number)
    &&& randoms_applied(m, post)
    &&& secrets_applied(m, post)
    &&& post.cipher_suite is Some
    &&& post.cipher_suite.unwrap().id == m.cipher_suite_id
    &&& !post.cipher_suite.unwrap().spec_is_initialized()
    &&& post.srtp_protection_profile == SrtpProtectionProfile::spec_from_id(
        m.srtp_protection_profile,
    )
    &&& certs_view(post.peer_certificates) == m.peer_certificates
    &&& misc_unchanged(pre, post)
}

impl State {
    /// Both handshake randoms encode to exactly 32 bytes.
    pub open spec fn wf(&self) -> bool {
        &&& self.local_random.wf()
        &&& self.remote_random.wf()
    }

    /// The sequence-counter list covers the current epoch whenever a cipher
    /// suite has been negotiated; snapshotting needs this.
    pub open spec fn seq_covers_epoch(&self) -> bool {
        self.cipher_suite is Some ==> (self.local_epoch as int)
            < self.local_sequence_number@.len()
    }

    /// The encoded random of the client side, whichever side this state is.
    pub open spec fn client_random_enc(&self) -> Seq<u8> {
        if self.is_client {
            self.local_random.encoding()
        } else {
            self.remote_random.encoding()
        }
    }

    /// The encoded random of the server side, whichever side this state is.
    pub open spec fn server_random_enc(&self) -> Seq<u8> {
        if self.is_client {
            self.remote_random.encoding()
        } else {
            self.local_random.encoding()
        }
    }

    /// The snapshot this state yields: the epochs, the encoded randoms, the
    /// cipher-suite id, the master secret, the current epoch's sequence
    /// number, the SRTP profile id, the peer certificates and the role.
    pub open spec fn snapshot_model(&self) -> SnapshotModel {
        SnapshotModel {
            local_epoch: self.local_epoch,
            remote_epoch: self.remote_epoch,
            local_random: self.local_random.encoding(),
            remote_random: self.remote_random.encoding(),
            cipher_suite_id: self.cipher_suite.unwrap().id,
            master_secret: self.master_secret@,
            sequence_number: self.local_sequence_number@[self.local_epoch as int],
            srtp_protection_profile: self.srtp_protection_profile.spec_id(),
            peer_certificates: certs_view(self.peer_certificates),
            is_client: self.is_client,
        }
    }

    /// The exported keying material of this state, as a function of the
    /// master secret, the randoms in (client, server) order, and nothing
    /// else. The label is validated against the reserved set but is
    /// deliberately not mixed into the PRF seed.
    pub open spec fn export_bytes(&self, length: nat) -> Seq<u8> {
        prf_bytes(
            self.master_secret@,
            self.client_random_enc() + self.server_random_enc(),
            length,
        )
    }

    /// A fresh connection state: epoch 0, no secrets, no cipher suite, no
    /// epochs tracked, role fixed.
    pub fn new(is_client: bool) -> (r: State)
        ensures
            r.wf(),
            r.seq_covers_epoch(),
            r.local_epoch == 0,
            r.remote_epoch == 0,
            r.local_sequence_number@ == Seq::<u64>::empty(),
            r.local_random.wf(),
            r.remote_random.wf(),
            r.master_secret@ == Seq::<u8>::empty(),
            r.cipher_suite is None,
            r.srtp_protection_profile == SrtpProtectionProfile::Unsupported,
            certs_view(r.peer_certificates) == Seq::<Seq<u8>>::empty(),
            r.is_client == is_client,
            r.pre_master_secret@ == Seq::<u8>::empty(),
            !r.extended_master_secret,
            r.named_curve == NamedCurve::Unsupported,
            r.local_keypair is None,
            r.cookie@ == Seq::<u8>::empty(),
            r.handshake_send_sequence == 0,
            r.handshake_recv_sequence == 0,
            r.server_name@ == Seq::<char>::empty(),
            !r.remote_requested_certificate,
            r.local_certificates_verify@ == Seq::<u8>::empty(),
            r.local_verify_data@ == Seq::<u8>::empty(),
            r.local_key_signature@ == Seq::<u8>::empty(),
            !r.peer_certificates_verified,
    {
        let r = State {
            local_epoch: 0,
            remote_epoch: 0,
            local_sequence_number: Vec::new(),
            local_random: HandshakeRandom::new_zero(),
            remote_random: HandshakeRandom::new_zero(),
            master_secret: Vec::new(),
            cipher_suite: None,
            srtp_protection_profile: SrtpProtectionProfile::Unsupported,
            peer_certificates: Vec::new(),
            is_client,
            pre_master_secret: Vec::new(),
            extended_master_secret: false,
            named_curve: NamedCurve::Unsupported,
            local_keypair: None,
            cookie: Vec::new(),
            handshake_send_sequence: 0,
            handshake_recv_sequence: 0,
            server_name: String::new(),
            remote_requested_certificate: false,
            local_certificates_verify: Vec::new(),
            local_verify_data: Vec::new(),
            local_key_signature: Vec::new(),
            peer_certificates_verified: false,
        };
        proof {
            assert(certs_view(r.peer_certificates) =~= Seq::<Seq<u8>>::empty());
        }
        r
    }

    /// Captures this state as a snapshot. Fails with `CipherSuiteUnset` if
    /// no cipher suite has been negotiated: a state cannot be snapshotted
    /// before negotiation.
    pub fn serialize(&self) -> (r: Result<SerializedState, Error>)
        requires
            self.wf(),
            self.seq_covers_epoch(),
        ensures
            r is Ok <==> self.cipher_suite is Some,
            self.cipher_suite is None ==> r == Err::<SerializedState, Error>(
                Error::CipherSuiteUnset,
            ),
            r is Ok ==> r.unwrap().wf() && r.unwrap().model() == self.snapshot_model(),
    {
        let cipher_suite_id = match &self.cipher_suite {
            Some(cs) => cs.id(),
            None => {
                return Err(Error::CipherSuiteUnset);
            },
        };
        let epoch = self.local_epoch;
        let ss = SerializedState {
            local_epoch: epoch,
            remote_epoch: self.remote_epoch,
            local_random: self.local_random.encode(),
            remote_random: self.remote_random.encode(),
            cipher_suite_id,
            master_secret: crate::bytes::clone_bytes(&self.master_secret),
            sequence_number: self.local_sequence_number[epoch as usize],
            srtp_protection_profile: self.srtp_protection_profile.id(),
            peer_certificates: clone_certs(&self.peer_certificates),
            is_client: self.is_client,
        };
        proof {
            assert(ss.model() =~= self.snapshot_model());
        }
        Ok(ss)
    }

    /// Restores this state from a snapshot.
    ///
    /// The restore is deliberately not transactional: fields are applied
    /// in order as they are validated, so a failure leaves the earlier
    /// fields already overwritten. The contract states the partial result
    /// of each failure exactly.
    #[verifier::loop_isolation(false)]
    pub fn deserialize(&mut self, ss: &SerializedState) -> (r: Result<(), Error>)
        ensures
            r is Ok <==> (ss.local_random@.len() == 32 && ss.remote_random@.len() == 32
                && is_registered_id(ss.cipher_suite_id)),
            r is Ok ==> restore_ok(*old(self), ss.model(), *final(self)),
            ss.local_random@.len() != 32 ==> ({
                &&& r == Err::<(), Error>(Error::RandomLengthMismatch)
                &&& epochs_applied(*old(self), ss.model(), *final(self))
                &&& final(self).local_random == old(self).local_random
                &&& final(self).remote_random == old(self).remote_random
                &&& final(self).is_client == old(self).is_client
                &&& final(self).master_secret == old(self).master_secret
                &&& tail_unchanged(*old(self), *final(self))
                &&& misc_unchanged(*old(self), *final(self))
            }),
            ss.local_random@.len() == 32 && ss.remote_random@.len() != 32 ==> ({
                &&& r == Err::<(), Error>(Error::RandomLengthMismatch)
                &&& epochs_applied(*old(self), ss.model(), *final(self))
                &&& final(self).local_random.wf()
                &&& final(self).local_random.encoding() == ss.local_random@
                &&& final(self).remote_random == old(self).remote_random
                &&& final(self).is_client == old(self).is_client
                &&& final(self).master_secret == old(self).master_secret
                &&& tail_unchanged(*old(self), *final(self))
                &&& misc_unchanged(*old(self), *final(self))
            }),
            ss.local_random@.len() == 32 && ss.remote_random@.len() == 32 && !is_registered_id(
                ss.cipher_suite_id,
            ) ==> ({
                &&& r == Err::<(), Error>(Error::UnsupportedCipherSuiteId)
                &&& epochs_applied(*old(self), ss.model(), *final(self))
                &&& randoms_applied(ss.model(), *final(self))
                &&& secrets_applied(ss.model(), *final(self))
                &&& tail_unchanged(*old(self), *final(self))
                &&& misc_unchanged(*old(self), *final(self))
            }),
    {
        let ghost pre_seq = self.local_sequence_number@;
        let epoch = ss.local_epoch;
        self.local_epoch = ss.local_epoch;
        self.remote_epoch = ss.remote_epoch;
        let e_us = epoch as usize;
        while self.local_sequence_number.len() <= e_us
            invariant
                self.local_sequence_number@.len() >= pre_seq.len(),
                pre_seq.len() >= e_us + 1 ==> self.local_sequence_number@.len() == pre_seq.len(),
                pre_seq.len() < e_us + 1 ==> self.local_sequence_number@.len() <= e_us + 1,
                self.local_sequence_number@ == pre_seq + Seq::new(
                    (self.local_sequence_number@.len() - pre_seq.len()) as nat,
                    |i: int| 0u64,
                ),
                self.local_epoch == ss.local_epoch,
                self.remote_epoch == ss.remote_epoch,
                self.local_random == old(self).local_random,
                self.remote_random == old(self).remote_random,
                self.is_client == old(self).is_client,
                self.master_secret == old(self).master_secret,
                tail_unchanged(*old(self), *self),
                misc_unchanged(*old(self), *self),
            decreases e_us + 1 - self.local_sequence_number@.len(),
        {
            self.local_sequence_number.push(0);
            assert(self.local_sequence_number@ =~= pre_seq + Seq::new(
                (self.local_sequence_number@.len() - pre_seq.len()) as nat,
                |i: int| 0u64,
            ));
        }
        proof {
            assert(self.local_sequence_number@ =~= grow_zero(pre_seq, epoch as int));
        }
        let local_random = match HandshakeRandom::decode(ss.local_random.as_slice()) {
            Ok(v) => v,
            Err(e) => {
                return Err(e);
            },
        };
        self.local_random = local_random;
        let remote_random = match HandshakeRandom::decode(ss.remote_random.as_slice()) {
            Ok(v) => v,
            Err(e) => {
                return Err(e);
            },
        };
        self.remote_random = remote_random;
        self.is_client = ss.is_client;
        self.master_secret = crate::bytes::clone_bytes(&ss.master_secret);
        let cs = match cipher_suite_for_id(ss.cipher_suite_id) {
            Ok(cs) => cs,
            Err(e) => {
                return Err(e);
            },
        };
        self.cipher_suite = Some(cs);
        self.local_sequence_number[e_us] = ss.sequence_number;
        self.srtp_protection_profile = SrtpProtectionProfile::from_id(ss.srtp_protection_profile);
        self.peer_certificates = clone_certs(&ss.peer_certificates);
        Ok(())
    }

    /// Derives the cipher suite's key schedule from the master secret and
    /// the handshake randoms, presenting them in (client random, server
    /// random) order regardless of role: a client passes (local, remote), a
    /// server passes (remote, local). This ordering is the correctness-
    /// critical invariant of the whole core.
    ///
    /// Initialization is idempotent: if the suite already owns a key
    /// schedule, nothing changes. Fails with `CipherSuiteUnset` if no
    /// cipher suite has been negotiated. Callers serialize access through
    /// `&mut`.
    pub fn init_cipher_suite(&mut self) -> (r: Result<(), Error>)
        requires
            old(self).wf(),
        ensures
            r is Ok <==> old(self).cipher_suite is Some,
            old(self).cipher_suite is None ==> r == Err::<(), Error>(Error::CipherSuiteUnset)
                && *final(self) == *old(self),
            old(self).cipher_suite is Some
                && old(self).cipher_suite.unwrap().spec_is_initialized() ==> ({
                *final(self) == *old(self)
            }),
            old(self).cipher_suite is Some
                && !old(self).cipher_suite.unwrap().spec_is_initialized() ==> {
                let ks = final(self).cipher_suite.unwrap().key_schedule.unwrap();
                &&& final(self).cipher_suite is Some
                &&& final(self).cipher_suite.unwrap().spec_is_initialized()
                &&& final(self).cipher_suite.unwrap().id == old(self).cipher_suite.unwrap().id
                &&& ks.master_secret@ == old(self).master_secret@
                &&& ks.client_random@ == old(self).client_random_enc()
                &&& ks.server_random@ == old(self).server_random_enc()
                &&& ks.is_client == old(self).is_client
                &&& state_except_suite_unchanged(*old(self), *final(self))
            },
    {
        let is_client = self.is_client;
        let local_enc = self.local_random.encode();
        let remote_enc = self.remote_random.encode();
        let ms = crate::bytes::clone_bytes(&self.master_secret);
        match &mut self.cipher_suite {
            None => Err(Error::CipherSuiteUnset),
            Some(cs) => {
                if cs.is_initialized() {
                    return Ok(());
                }
                if is_client {
                    cs.init(ms.as_slice(), local_enc.as_slice(), remote_enc.as_slice(), true);
                } else {
                    cs.init(ms.as_slice(), remote_enc.as_slice(), local_enc.as_slice(), false);
                }
                Ok(())
            },
        }
    }

    /// Captures this state as a versioned binary snapshot blob.
    pub fn marshal_binary(&self) -> (r: Result<Vec<u8>, Error>)
        requires
            self.wf(),
            self.seq_covers_epoch(),
        ensures
            r is Ok <==> self.cipher_suite is Some,
            self.cipher_suite is None ==> r == Err::<Vec<u8>, Error>(Error::CipherSuiteUnset),
            r is Ok ==> r.unwrap()@ == wire(self.snapshot_model()),
    {
        match self.serialize() {
            Ok(ss) => Ok(encode(&ss)),
            Err(e) => Err(e),
        }
    }

    /// Restores this state from a binary snapshot blob, then initializes
    /// the restored cipher suite from the just-restored master secret and
    /// randoms, so the state comes back ready to process records.
    ///
    /// Fails with `DecodeError` on a malformed blob (leaving the state
    /// untouched), or with `UnsupportedCipherSuiteId` from the restore,
    /// whose partial effect is that of `deserialize`.
    pub fn unmarshal_binary(&mut self, data: &[u8]) -> (r: Result<(), Error>)
        requires
            old(self).wf(),
        ensures
            r is Ok <==> (parse(data@) is Some && is_registered_id(
                parse(data@).unwrap().cipher_suite_id,
            )),
            parse(data@) is None ==> r == Err::<(), Error>(Error::DecodeError) && *final(self)
                == *old(self),
            parse(data@) is Some && !is_registered_id(parse(data@).unwrap().cipher_suite_id)
                ==> r == Err::<(), Error>(Error::UnsupportedCipherSuiteId) && epochs_applied(
                *old(self),
                parse(data@).unwrap(),
                *final(self),
            ) && randoms_applied(parse(data@).unwrap(), *final(self)) && secrets_applied(
                parse(data@).unwrap(),
                *final(self),
            ) && tail_unchanged(*old(self), *final(self)) && misc_unchanged(
                *old(self),
                *final(self),
            ),
            r is Ok ==> restored_and_initialized(*old(self), parse(data@).unwrap(), *final(self)),
    {
        let ss = match decode(data) {
            Ok(ss) => ss,
            Err(e) => {
                return Err(e);
            },
        };
        match self.deserialize(&ss) {
            Ok(()) => {},
            Err(e) => {
                return Err(e);
            },
        }
        match self.init_cipher_suite() {
            Ok(()) => Ok(()),
            Err(e) => {
                proof {
                    assert(false);
                }
                Err(e)
            },
        }
    }

    /// Exports `length` bytes of keying material derived from the master
    /// secret and the handshake randoms, RFC-5705 style.
    ///
    /// Preconditions are checked in order: an incomplete handshake (local
    /// epoch still 0) fails with `HandshakeInProgress`; a non-empty context
    /// with `ContextUnsupported`; a reserved label with
    /// `ReservedExportLabel`; a missing cipher suite with
    /// `CipherSuiteUnset`. The PRF seed is the two randoms in
    /// (client, server) order, whichever side this state is; the label is
    /// validated but deliberately not mixed into the seed.
    pub fn export_keying_material(&self, label: &str, context: &[u8], length: usize) -> (r:
        Result<Vec<u8>, Error>)
        requires
            self.wf(),
        ensures
            self.local_epoch == 0 ==> r == Err::<Vec<u8>, Error>(Error::HandshakeInProgress),
            self.local_epoch != 0 && context@.len() != 0 ==> r == Err::<Vec<u8>, Error>(
                Error::ContextUnsupported,
            ),
            self.local_epoch != 0 && context@.len() == 0 && is_reserved_label(label@) ==> r
                == Err::<Vec<u8>, Error>(Error::ReservedExportLabel),
            self.local_epoch != 0 && context@.len() == 0 && !is_reserved_label(label@)
                && self.cipher_suite is None ==> r == Err::<Vec<u8>, Error>(
                Error::CipherSuiteUnset,
            ),
            r is Ok <==> (self.local_epoch != 0 && context@.len() == 0 && !is_reserved_label(
                label@,
            ) && self.cipher_suite is Some),
            r is Ok ==> r.unwrap()@ == self.export_bytes(length as nat) && r.unwrap()@.len()
                == length,
    {
        if self.local_epoch == 0 {
            return Err(Error::HandshakeInProgress);
        }
        if context.len() != 0 {
            return Err(Error::ContextUnsupported);
        }
        if is_reserved_label_exec(label) {
            return Err(Error::ReservedExportLabel);
        }
        let local_enc = self.local_random.encode();
        let remote_enc = self.remote_random.encode();
        let mut seed: Vec<u8> = Vec::new();
        if self.is_client {
            push_bytes(&mut seed, local_enc.as_slice());
            push_bytes(&mut seed, remote_enc.as_slice());
        } else {
            push_bytes(&mut seed, remote_enc.as_slice());
            push_bytes(&mut seed, local_enc.as_slice());
        }
        assert(seed@ =~= self.client_random_enc() + self.server_random_enc());
        match &self.cipher_suite {
            Some(cs) => {
                let h = cs.hash_func();
                Ok(prf_p_hash(self.master_secret.as_slice(), seed.as_slice(), length, h))
            },
            None => Err(Error::CipherSuiteUnset),
        }
    }

    /// Duplicates this state by reconstruction: snapshot it, then restore
    /// the snapshot into a fresh default state. The duplicate's cipher
    /// suite is reconstructed from its id and left uninitialized. Failures
    /// are propagated, never swallowed into a default-valued duplicate.
    pub fn duplicate(&self) -> (r: Result<State, Error>)
        requires
            self.wf(),
            self.seq_covers_epoch(),
        ensures
            r is Ok <==> (self.cipher_suite is Some && is_registered_id(
                self.cipher_suite.unwrap().id,
            )),
            self.cipher_suite is None ==> r == Err::<State, Error>(Error::CipherSuiteUnset),
            self.cipher_suite is Some && !is_registered_id(self.cipher_suite.unwrap().id) ==> r
                == Err::<State, Error>(Error::UnsupportedCipherSuiteId),
            r is Ok ==> ({
                let m = self.snapshot_model();
                let d = r.unwrap();
                &&& d.local_epoch == self.local_epoch
                &&& d.remote_epoch == self.remote_epoch
                &&& d.local_sequence_number@ == grow_zero(
                    Seq::<u64>::empty(),
                    self.local_epoch as int,
                ).update(self.local_epoch as int, m.sequence_number)
                &&& randoms_applied(m, d)
                &&& secrets_applied(m, d)
                &&& d.cipher_suite is Some
                &&& d.cipher_suite.unwrap().id == self.cipher_suite.unwrap().id
                &&& !d.cipher_suite.unwrap().spec_is_initialized()
                &&& d.srtp_protection_profile == self.srtp_protection_profile
                &&& certs_view(d.peer_certificates) == certs_view(self.peer_certificates)
                &&& d.is_client == self.is_client
            }),
    {
        let ss = match self.serialize() {
            Ok(ss) => ss,
            Err(e) => {
                return Err(e);
            },
        };
        let mut fresh = State::new(false);
        match fresh.deserialize(&ss) {
            Ok(()) => {
                proof {
                    self.srtp_protection_profile.lemma_id_round_trip();
                }
                Ok(fresh)
            },
            Err(e) => Err(e),
        }
    }
}

/// Export ordering invariant: a client state and the mirrored server state
/// (roles swapped, each side's local random being the other's remote)
/// derive byte-identical exported keying material for every length,
/// because both present the PRF seed as (client random, server random).
pub proof fn lemma_export_ordering(a: State, b: State, length: nat)
    requires
        a.is_client,
        !b.is_client,
        a.local_random.encoding() == b.remote_random.encoding(),
        a.remote_random.encoding() == b.local_random.encoding(),
        a.master_secret@ == b.master_secret@,
    ensures
        a.export_bytes(length) == b.export_bytes(length),
{
}

/// Export determinism: the exported bytes are a function of the master
/// secret and the randoms in (client, server) order and of nothing else,
/// so repeated exports of an unmutated state return identical output.
pub proof fn lemma_export_deterministic(a: State, b: State, length: nat)
    requires
        a.master_secret@ == b.master_secret@,
        a.client_random_enc() == b.client_random_enc(),
        a.server_random_enc() == b.server_random_enc(),
    ensures
        a.export_bytes(length) == b.export_bytes(length),
{
}

/// Prefix property: a shorter export is a byte-for-byte prefix of a longer
/// export from the same state.
pub proof fn lemma_export_prefix(s: State, n: nat, m: nat)
    requires
        n <= m,
    ensures
        s.export_bytes(n) == s.export_bytes(m).take(n as int),
{
    lemma_prf_prefix(s.master_secret@, s.client_random_enc() + s.server_random_enc(), n, m);
}

/// Snapshot round trip: restoring the snapshot a state yields, into any
/// target, reproduces the epochs, the snapshotted epoch's sequence number,
/// both randoms, the master secret, the cipher-suite id, the SRTP profile,
/// the peer certificates and the role of the snapshotted state.
pub proof fn lemma_snapshot_round_trip(s: State, t0: State, t1: State)
    requires
        s.wf(),
        s.seq_covers_epoch(),
        s.cipher_suite is Some,
        restore_ok(t0, s.snapshot_model(), t1),
    ensures
        t1.local_epoch == s.local_epoch,
        t1.remote_epoch == s.remote_epoch,
        t1.local_sequence_number@[s.local_epoch as int] == s.local_sequence_number@[s.local_epoch
            as int],
        t1.local_random.encoding() == s.local_random.encoding(),
        t1.remote_random.encoding() == s.remote_random.encoding(),
        t1.master_secret@ == s.master_secret@,
        t1.cipher_suite is Some,
        t1.cipher_suite.unwrap().id == s.cipher_suite.unwrap().id,
        t1.srtp_protection_profile == s.srtp_protection_profile,
        certs_view(t1.peer_certificates) == certs_view(s.peer_certificates),
        t1.is_client == s.is_client,
{
    let e = s.local_epoch as int;
    let g = grow_zero(t0.local_sequence_number@, e);
    assert(g.len() >= e + 1);
    s.srtp_protection_profile.lemma_id_round_trip();
}

/// Sequence growth: restoring a snapshot onto a state that tracks no
/// epochs yet yields a sequence-counter list that covers the restored
/// epoch exactly, all zero except at that epoch.
pub proof fn lemma_sequence_growth(m: SnapshotModel, pre: State, post: State)
    requires
        restore_ok(pre, m, post),
        pre.local_sequence_number@.len() == 0,
    ensures
        post.local_sequence_number@.len() == m.local_epoch + 1,
        forall|j: int|
            0 <= j < m.local_epoch ==> post.local_sequence_number@[j] == 0,
        post.local_sequence_number@[m.local_epoch as int] == m.sequence_number,
{
    let e = m.local_epoch as int;
    let g = grow_zero(pre.local_sequence_number@, e);
    assert(g.len() == e + 1);
    assert(forall|j: int| 0 <= j < e ==> #[trigger] g[j] == 0);
}

/// Binary round trip with re-initialization: a state restored from another
/// state's blob carries the original's epochs, sequence number, randoms,
/// master secret, cipher-suite id, SRTP profile, certificates and role, and
/// its re-derived key schedule was fed the original's master secret and
/// randoms in (client, server) order — so both states derive the same
/// record keys and the same exported keying material.
pub proof fn lemma_restore_rederives_keys(s: State, t0: State, t1: State)
    requires
        s.wf(),
        s.seq_covers_epoch(),
        s.cipher_suite is Some,
        restored_and_initialized(t0, s.snapshot_model(), t1),
    ensures
        t1.local_epoch == s.local_epoch,
        t1.local_sequence_number@[s.local_epoch as int] == s.local_sequence_number@[s.local_epoch
            as int],
        t1.master_secret@ == s.master_secret@,
        t1.cipher_suite.unwrap().id == s.cipher_suite.unwrap().id,
        t1.cipher_suite.unwrap().key_schedule.unwrap().master_secret@ == s.master_secret@,
        t1.cipher_suite.unwrap().key_schedule.unwrap().client_random@ == s.client_random_enc(),
        t1.cipher_suite.unwrap().key_schedule.unwrap().server_random@ == s.server_random_enc(),
        t1.is_client == s.is_client,
        forall|n: nat| t1.export_bytes(n) == s.export_bytes(n),
{
    let e = s.local_epoch as int;
    let g = grow_zero(t0.local_sequence_number@, e);
    assert(g.len() >= e + 1);
    assert(t1.client_random_enc() == s.client_random_enc());
    assert(t1.server_random_enc() == s.server_random_enc());
}

/// The snapshot of a well-formed state has a binary encoding: every length
/// fits its length field.
pub proof fn lemma_snapshot_model_wf(s: State)
    requires
        s.wf(),
    ensures
        s.snapshot_model().wf(),
{
    let m = s.snapshot_model();
    assert(m.master_secret.len() <= u64::MAX) by {
        assert(s.master_secret.len() == s.master_secret@.len());
    }
    assert(m.peer_certificates.len() <= u64::MAX) by {
        assert(s.peer_certificates.len() == s.peer_certificates@.len());
    }
    assert forall|i: int|
        0 <= i < m.peer_certificates.len() implies #[trigger] m.peer_certificates[i].len()
        <= u64::MAX by {
        let vi = s.peer_certificates@[i];
        assert(vi.len() == vi@.len());
    }
}

/// Binary round trip: the blob `marshal_binary` produces parses back to
/// exactly the snapshot it captured, so `unmarshal_binary` on it is owed
/// success whenever the captured cipher-suite id is registered.
pub proof fn lemma_marshal_round_trip(s: State, blob: Seq<u8>)
    requires
        s.wf(),
        s.cipher_suite is Some,
        blob == wire(s.snapshot_model()),
    ensures
        parse(blob) == Some(s.snapshot_model()),
{
    lemma_snapshot_model_wf(s);
    crate::snapshot::lemma_parse_wire(s.snapshot_model());
}

/// Every field except the cipher suite is unchanged.
pub open spec fn state_except_suite_unchanged(pre: State, post: State) -> bool {
    &&& post.local_epoch == pre.local_epoch
    &&& post.remote_epoch == pre.remote_epoch
    &&& post.local_sequence_number == pre.local_sequence_number
    &&& post.local_random == pre.local_random
    &&& post.remote_random == pre.remote_random
    &&& post.master_secret == pre.master_secret
    &&& post.srtp_protection_profile == pre.srtp_protection_profile
    &&& post.peer_certificates == pre.peer_certificates
    &&& post.is_client == pre.is_client
    &&& misc_unchanged(pre, post)
}

} // verus!
