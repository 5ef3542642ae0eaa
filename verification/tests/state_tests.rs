use dtls_state::cipher_suite::{
    cipher_suite_for_id, CipherSuite, HashAlgorithm, CIPHER_SUITE_ID_ECDHE_ECDSA_AES128_GCM_SHA256,
    CIPHER_SUITE_ID_PSK_AES128_GCM_SHA256,
};
use dtls_state::errors::Error;
use dtls_state::handshake_random::HandshakeRandom;
use dtls_state::prf::prf_p_hash;
use dtls_state::snapshot::{decode, encode, SerializedState};
use dtls_state::srtp::SrtpProtectionProfile;
use dtls_state::state::State;

fn random_from(time: u32, fill: u8) -> HandshakeRandom {
    HandshakeRandom {
        gmt_unix_time: time,
        random_bytes: vec![fill; 28],
    }
}

fn sample_state(is_client: bool) -> State {
    let mut s = State::new(is_client);
    s.local_epoch = 1;
    s.remote_epoch = 1;
    s.local_sequence_number = vec![0, 42];
    s.local_random = random_from(111, 0x11);
    s.remote_random = random_from(222, 0x22);
    s.master_secret = vec![7u8; 48];
    s.cipher_suite = Some(
        cipher_suite_for_id(CIPHER_SUITE_ID_ECDHE_ECDSA_AES128_GCM_SHA256).unwrap(),
    );
    s.srtp_protection_profile = SrtpProtectionProfile::AeadAes128Gcm;
    s.peer_certificates = vec![vec![0xde, 0xad], vec![0xbe, 0xef, 0x01]];
    s
}

#[test]
fn export_ordering_mirrored_states() {
    let mut client = sample_state(true);
    client.local_random = random_from(1, 0xaa); // client random
    client.remote_random = random_from(2, 0xbb); // server random

    let mut server = sample_state(false);
    server.local_random = random_from(2, 0xbb); // server random
    server.remote_random = random_from(1, 0xaa); // client random

    for n in [1usize, 16, 32, 100] {
        let a = client.export_keying_material("label", &[], n).unwrap();
        let b = server.export_keying_material("label", &[], n).unwrap();
        assert_eq!(a, b);
        assert_eq!(a.len(), n);
    }
}

#[test]
fn export_deterministic() {
    let s = sample_state(true);
    let a = s.export_keying_material("label", &[], 48).unwrap();
    let b = s.export_keying_material("label", &[], 48).unwrap();
    assert_eq!(a, b);
}

#[test]
fn export_prefix() {
    let s = sample_state(false);
    let short = s.export_keying_material("label", &[], 16).unwrap();
    let long = s.export_keying_material("label", &[], 32).unwrap();
    assert_eq!(short.as_slice(), &long[..16]);
}

#[test]
fn export_on_fresh_state_checks_epoch_first() {
    let s = State::new(true);
    // Even a reserved label and a non-empty context report the epoch first.
    let r = s.export_keying_material("master secret", &[1, 2, 3], 16);
    assert_eq!(r.unwrap_err(), Error::HandshakeInProgress);
}

#[test]
fn export_reserved_labels_rejected() {
    let s = sample_state(true);
    for label in ["master secret", "key expansion", "client finished", "server finished"] {
        let r = s.export_keying_material(label, &[], 16);
        assert_eq!(r.unwrap_err(), Error::ReservedExportLabel);
    }
}

#[test]
fn export_nonempty_context_rejected() {
    let s = sample_state(true);
    let r = s.export_keying_material("label", &[0], 16);
    assert_eq!(r.unwrap_err(), Error::ContextUnsupported);
}

#[test]
fn export_needs_cipher_suite() {
    let mut s = sample_state(true);
    s.cipher_suite = None;
    let r = s.export_keying_material("label", &[], 16);
    assert_eq!(r.unwrap_err(), Error::CipherSuiteUnset);
}

#[test]
fn snapshot_round_trip_through_bytes() {
    let s = sample_state(true);
    let blob = s.marshal_binary().unwrap();

    let mut t = State::new(false);
    t.unmarshal_binary(&blob).unwrap();

    assert_eq!(t.local_epoch, 1);
    assert_eq!(t.remote_epoch, 1);
    assert_eq!(t.local_sequence_number, vec![0, 42]);
    assert_eq!(t.local_random.encode(), s.local_random.encode());
    assert_eq!(t.remote_random.encode(), s.remote_random.encode());
    assert_eq!(t.master_secret, s.master_secret);
    assert_eq!(
        t.cipher_suite.as_ref().unwrap().id(),
        CIPHER_SUITE_ID_ECDHE_ECDSA_AES128_GCM_SHA256
    );
    // A state restored from bytes comes back with its key schedule derived.
    assert!(t.cipher_suite.as_ref().unwrap().is_initialized());
    assert_eq!(t.srtp_protection_profile, SrtpProtectionProfile::AeadAes128Gcm);
    assert_eq!(t.peer_certificates, s.peer_certificates);
    assert!(t.is_client);
}

#[test]
fn snapshot_round_trip_codec_level() {
    let s = sample_state(false);
    let ss = s.serialize().unwrap();
    let mut t = State::new(true);
    t.deserialize(&ss).unwrap();

    assert_eq!(t.local_epoch, s.local_epoch);
    assert_eq!(t.local_sequence_number[1], 42);
    assert_eq!(t.master_secret, s.master_secret);
    assert!(!t.is_client);
    // The codec alone reconstructs the suite uninitialized.
    assert!(!t.cipher_suite.as_ref().unwrap().is_initialized());
}

#[test]
fn serialize_needs_cipher_suite() {
    let mut s = sample_state(true);
    s.cipher_suite = None;
    assert_eq!(s.serialize().unwrap_err(), Error::CipherSuiteUnset);
    assert_eq!(s.marshal_binary().unwrap_err(), Error::CipherSuiteUnset);
}

fn unregistered_snapshot() -> SerializedState {
    SerializedState {
        local_epoch: 1,
        remote_epoch: 1,
        local_random: vec![0u8; 32],
        remote_random: vec![0u8; 32],
        cipher_suite_id: 0x9999,
        master_secret: vec![1, 2, 3],
        sequence_number: 5,
        srtp_protection_profile: 0,
        peer_certificates: vec![],
        is_client: false,
    }
}

#[test]
fn unknown_cipher_suite_on_restore() {
    let ss = unregistered_snapshot();
    let mut t = State::new(true);
    assert_eq!(t.deserialize(&ss).unwrap_err(), Error::UnsupportedCipherSuiteId);

    let blob = encode(&ss);
    let mut u = State::new(true);
    assert_eq!(u.unmarshal_binary(&blob).unwrap_err(), Error::UnsupportedCipherSuiteId);
    // The restore is not transactional: the fields validated before the
    // registry lookup have already been applied.
    assert_eq!(u.local_epoch, 1);
    assert_eq!(u.master_secret, vec![1, 2, 3]);
    assert_eq!(u.local_sequence_number, vec![0, 0]);
    assert!(u.cipher_suite.is_none());
    assert_eq!(u.srtp_protection_profile, SrtpProtectionProfile::Unsupported);
}

#[test]
fn idempotent_init_keeps_key_schedule() {
    let mut s = sample_state(true);
    s.init_cipher_suite().unwrap();

    let first = {
        let ks = s
            .cipher_suite
            .as_ref()
            .unwrap()
            .key_schedule
            .as_ref()
            .unwrap();
        (
            ks.master_secret.clone(),
            ks.client_random.clone(),
            ks.server_random.clone(),
            ks.is_client,
        )
    };
    // A client presents (local, remote) = (client random, server random).
    assert_eq!(first.1, s.local_random.encode());
    assert_eq!(first.2, s.remote_random.encode());
    assert!(first.3);

    s.init_cipher_suite().unwrap();
    let ks = s
        .cipher_suite
        .as_ref()
        .unwrap()
        .key_schedule
        .as_ref()
        .unwrap();
    assert_eq!(ks.master_secret, first.0);
    assert_eq!(ks.client_random, first.1);
    assert_eq!(ks.server_random, first.2);
    assert_eq!(ks.is_client, first.3);
}

#[test]
fn init_orders_randoms_for_server() {
    let mut s = sample_state(false);
    s.init_cipher_suite().unwrap();
    let ks = s
        .cipher_suite
        .as_ref()
        .unwrap()
        .key_schedule
        .as_ref()
        .unwrap();
    // A server presents (remote, local) = (client random, server random).
    assert_eq!(ks.client_random, s.remote_random.encode());
    assert_eq!(ks.server_random, s.local_random.encode());
    assert!(!ks.is_client);
}

#[test]
fn init_without_cipher_suite_fails() {
    let mut s = State::new(true);
    assert_eq!(s.init_cipher_suite().unwrap_err(), Error::CipherSuiteUnset);
}

#[test]
fn sequence_growth_on_restore() {
    let mut ss = unregistered_snapshot();
    ss.cipher_suite_id = CIPHER_SUITE_ID_PSK_AES128_GCM_SHA256;
    ss.local_epoch = 5;
    ss.sequence_number = 99;

    let mut t = State::new(true);
    t.deserialize(&ss).unwrap();
    assert_eq!(t.local_sequence_number, vec![0, 0, 0, 0, 0, 99]);
}

#[test]
fn random_length_mismatch() {
    assert_eq!(
        HandshakeRandom::decode(&[0u8; 31]).unwrap_err(),
        Error::RandomLengthMismatch
    );
    assert_eq!(
        HandshakeRandom::decode(&[0u8; 33]).unwrap_err(),
        Error::RandomLengthMismatch
    );
}

#[test]
fn handshake_random_encode_round_trip() {
    let r = random_from(0x01020304, 0x5a);
    let enc = r.encode();
    assert_eq!(enc.len(), 32);
    assert_eq!(&enc[..4], &[1, 2, 3, 4]);
    let back = HandshakeRandom::decode(&enc).unwrap();
    assert_eq!(back.gmt_unix_time, 0x01020304);
    assert_eq!(back.random_bytes, r.random_bytes);
}

#[test]
fn decode_rejects_malformed_blobs() {
    assert_eq!(decode(&[]).unwrap_err(), Error::DecodeError);
    assert_eq!(decode(&[0u8; 95]).unwrap_err(), Error::DecodeError);

    let blob = encode(&unregistered_snapshot());
    // Truncated.
    assert_eq!(decode(&blob[..blob.len() - 1]).unwrap_err(), Error::DecodeError);
    // Trailing garbage.
    let mut longer = blob.clone();
    longer.push(0);
    assert_eq!(decode(&longer).unwrap_err(), Error::DecodeError);
    // Role byte out of range.
    let mut bad_bool = blob.clone();
    let last = bad_bool.len() - 1;
    bad_bool[last] = 2;
    assert_eq!(decode(&bad_bool).unwrap_err(), Error::DecodeError);
    // Intact blob decodes.
    let ss = decode(&blob).unwrap();
    assert_eq!(ss.cipher_suite_id, 0x9999);
    assert_eq!(ss.master_secret, vec![1, 2, 3]);
    assert_eq!(ss.sequence_number, 5);
}

#[test]
fn unmarshal_rejects_malformed_blob_unchanged() {
    let mut t = State::new(true);
    assert_eq!(t.unmarshal_binary(&[1, 2, 3]).unwrap_err(), Error::DecodeError);
    assert_eq!(t.local_epoch, 0);
    assert!(t.cipher_suite.is_none());
    assert!(t.local_sequence_number.is_empty());
}

#[test]
fn prf_matches_reference_vector() {
    // TLS 1.2 PRF with SHA-256, the widely used "test label" reference
    // vector: 100 bytes from a 16-byte secret and label ++ seed.
    let secret: Vec<u8> = vec![
        0x9b, 0xbe, 0x43, 0x6b, 0xa9, 0x40, 0xf0, 0x17, 0xb1, 0x76, 0x52, 0x84, 0x9a, 0x71, 0xdb,
        0x35,
    ];
    let mut seed: Vec<u8> = b"test label".to_vec();
    seed.extend_from_slice(&[
        0xa0, 0xba, 0x9f, 0x93, 0x6c, 0xda, 0x31, 0x18, 0x27, 0xa6, 0xf7, 0x96, 0xff, 0xd5, 0x19,
        0x8c,
    ]);
    let expected: Vec<u8> = vec![
        0xe3, 0xf2, 0x29, 0xba, 0x72, 0x7b, 0xe1, 0x7b, 0x8d, 0x12, 0x26, 0x20, 0x55, 0x7c, 0xd4,
        0x53, 0xc2, 0xaa, 0xb2, 0x1d, 0x07, 0xc3, 0xd4, 0x95, 0x32, 0x9b, 0x52, 0xd4, 0xe6, 0x1e,
        0xdb, 0x5a, 0x6b, 0x30, 0x17, 0x91, 0xe9, 0x0d, 0x35, 0xc9, 0xc9, 0xa4, 0x6b, 0x4e, 0x14,
        0xba, 0xf9, 0xaf, 0x0f, 0xa0, 0x22, 0xf7, 0x07, 0x7d, 0xef, 0x17, 0xab, 0xfd, 0x37, 0x97,
        0xc0, 0x56, 0x4b, 0xab, 0x4f, 0xbc, 0x91, 0x66, 0x6e, 0x9d, 0xef, 0x9b, 0x97, 0xfc, 0xe3,
        0x4f, 0x79, 0x67, 0x89, 0xba, 0xa4, 0x80, 0x82, 0xd1, 0x22, 0xee, 0x42, 0xc5, 0xa7, 0x2e,
        0x5a, 0x51, 0x10, 0xff, 0xf7, 0x01, 0x87, 0x34, 0x7b, 0x66,
    ];
    let out = prf_p_hash(&secret, &seed, 100, HashAlgorithm::Sha256);
    assert_eq!(out, expected);
}

#[test]
fn export_length_zero_and_odd_lengths() {
    let s = sample_state(true);
    assert_eq!(s.export_keying_material("label", &[], 0).unwrap(), Vec::<u8>::new());
    assert_eq!(s.export_keying_material("label", &[], 33).unwrap().len(), 33);
}

#[test]
fn decode_rejects_oversized_length_field() {
    let blob = encode(&unregistered_snapshot());
    let mut tampered = blob.clone();
    // The master-secret length field starts at offset 70.
    for b in tampered.iter_mut().skip(70).take(8) {
        *b = 0xff;
    }
    assert_eq!(decode(&tampered).unwrap_err(), Error::DecodeError);
}

#[test]
fn srtp_profile_id_round_trip() {
    let profiles = [
        SrtpProtectionProfile::Unsupported,
        SrtpProtectionProfile::Aes128CmHmacSha1_80,
        SrtpProtectionProfile::Aes128CmHmacSha1_32,
        SrtpProtectionProfile::AeadAes128Gcm,
        SrtpProtectionProfile::AeadAes256Gcm,
    ];
    for p in profiles {
        assert_eq!(SrtpProtectionProfile::from_id(p.id()), p);
    }
    assert_eq!(SrtpProtectionProfile::from_id(0x1234), SrtpProtectionProfile::Unsupported);
    assert_eq!(SrtpProtectionProfile::default(), SrtpProtectionProfile::Unsupported);
}

#[test]
fn registry_constructs_known_suites() {
    for id in [0xc02bu16, 0xc02f, 0xc00a, 0xc014, 0xc0a8, 0x00a8] {
        let cs: CipherSuite = cipher_suite_for_id(id).unwrap();
        assert_eq!(cs.id(), id);
        assert!(!cs.is_initialized());
        assert_eq!(cs.hash_func(), HashAlgorithm::Sha256);
    }
    assert_eq!(
        cipher_suite_for_id(0x0000).unwrap_err(),
        Error::UnsupportedCipherSuiteId
    );
}

#[test]
fn duplicate_by_reconstruction() {
    let s = sample_state(true);
    let d = s.duplicate().unwrap();
    assert_eq!(d.local_epoch, s.local_epoch);
    assert_eq!(d.local_sequence_number, vec![0, 42]);
    assert_eq!(d.master_secret, s.master_secret);
    assert_eq!(d.local_random.encode(), s.local_random.encode());
    assert_eq!(d.cipher_suite.as_ref().unwrap().id(), 0xc02b);
    assert!(!d.cipher_suite.as_ref().unwrap().is_initialized());
    assert_eq!(d.peer_certificates, s.peer_certificates);
    assert!(d.is_client);
    // What the snapshot does not carry comes from the fresh target.
    assert!(d.pre_master_secret.is_empty());
    assert!(d.cookie.is_empty());
}

#[test]
fn duplicate_propagates_errors() {
    let mut s = sample_state(true);
    s.cipher_suite = None;
    assert_eq!(s.duplicate().unwrap_err(), Error::CipherSuiteUnset);

    let mut u = sample_state(true);
    u.cipher_suite = Some(CipherSuite {
        id: 0x4444,
        key_schedule: None,
    });
    assert_eq!(u.duplicate().unwrap_err(), Error::UnsupportedCipherSuiteId);
}

#[test]
fn error_messages_are_stable() {
    assert_eq!(
        Error::CipherSuiteUnset.message(),
        "cipher suite has not been negotiated"
    );
    assert_eq!(
        Error::UnsupportedCipherSuiteId.message(),
        "unsupported cipher suite id in snapshot"
    );
}
