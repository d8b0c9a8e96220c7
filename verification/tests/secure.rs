//! Secure-channel behavior: handshake convergence and key agreement,
//! protected-message round trips, and session invalidation on tampering.

use libosdp::codec::PacketHeader;
use libosdp::sc::{ScStatus, SecureChannelSession};

const KEY: [u8; 16] = [
    0x94, 0x4b, 0x8e, 0xdd, 0xcb, 0xaa, 0x2b, 0x5f, 0xe2, 0xb0, 0x14, 0x8d, 0x1b, 0x2f, 0x95,
    0xc9,
];

fn handshake() -> (SecureChannelSession, SecureChannelSession) {
    let mut cp = SecureChannelSession::new(Some(KEY));
    let mut pd = SecureChannelSession::new(Some(KEY));
    assert_eq!(cp.status, ScStatus::Inactive);
    assert_eq!(pd.status, ScStatus::Inactive);

    // CP -> PD: challenge with the CP nonce.
    let cp_nonce = cp.cp_begin([1, 2, 3, 4, 5, 6, 7, 8]);
    assert_eq!(cp.status, ScStatus::Handshaking);

    // PD -> CP: PD nonce plus proof value; PD derives keys speculatively.
    let proof_value = pd.pd_on_chlng(&cp_nonce, [9, 10, 11, 12, 13, 14, 15, 16]);
    assert_eq!(pd.status, ScStatus::Handshaking);

    // CP checks the proof, derives the same keys, confirms.
    let pd_nonce = pd.pd_nonce.clone();
    let confirmation = cp.cp_on_ccrypt(&pd_nonce, &proof_value).expect("proof value must match");

    // PD checks the confirmation and goes Active.
    assert!(pd.pd_on_scrypt(&confirmation));
    assert_eq!(pd.status, ScStatus::Active);

    // The PD's protected acknowledgement completes the CP side.
    cp.cp_complete();
    assert_eq!(cp.status, ScStatus::Active);
    (cp, pd)
}

#[test]
fn handshake_converges_and_keys_agree() {
    let (cp, pd) = handshake();
    assert_eq!(cp.s_enc, pd.s_enc, "encryption keys must agree");
    assert_eq!(cp.s_mac, pd.s_mac, "MAC keys must agree");
}

#[test]
fn handshake_fails_on_wrong_base_key() {
    let mut cp = SecureChannelSession::new(Some(KEY));
    let mut wrong = KEY;
    wrong[0] ^= 0xff;
    let mut pd = SecureChannelSession::new(Some(wrong));
    let cp_nonce = cp.cp_begin([1; 8]);
    let proof_value = pd.pd_on_chlng(&cp_nonce, [2; 8]);
    let pd_nonce = pd.pd_nonce.clone();
    assert!(cp.cp_on_ccrypt(&pd_nonce, &proof_value).is_none());
    assert_eq!(cp.status, ScStatus::Inactive, "mismatch reverts to Inactive");
}

#[test]
fn wrong_confirmation_leaves_pd_inactive() {
    let mut cp = SecureChannelSession::new(Some(KEY));
    let mut pd = SecureChannelSession::new(Some(KEY));
    let cp_nonce = cp.cp_begin([1; 8]);
    let _ = pd.pd_on_chlng(&cp_nonce, [2; 8]);
    assert!(!pd.pd_on_scrypt(&vec![0u8; 16]));
    assert_eq!(pd.status, ScStatus::Inactive);
}

fn test_header() -> PacketHeader {
    PacketHeader { address: 101, is_reply: false, seq: 3, use_crc: true, sc_active: true }
}

#[test]
fn protected_message_round_trips() {
    let (mut cp, mut pd) = handshake();
    let h = test_header();
    let msg = b"attack at dawn".to_vec();
    let env = cp.wrap_secure(&h, &msg);
    let back = pd.unwrap_secure(&h, &env).expect("one side decrypts the other's traffic");
    assert_eq!(back, msg);
    assert_eq!(pd.status, ScStatus::Active);
}

#[test]
fn tampering_any_byte_invalidates_session() {
    let h = test_header();
    let msg = b"poll".to_vec();
    // Every byte position of the envelope, including the counter, the
    // ciphertext and the MAC, must be covered.
    let (mut cp0, _) = handshake();
    let env_len = cp0.wrap_secure(&h, &msg).len();
    for i in 0..env_len {
        let (mut cp, mut pd) = handshake();
        let mut env = cp.wrap_secure(&h, &msg);
        env[i] ^= 0x01;
        assert!(pd.unwrap_secure(&h, &env).is_none(), "tampered byte {i} accepted");
        assert_eq!(pd.status, ScStatus::Inactive, "tampered byte {i} left session alive");
    }
}

#[test]
fn tampering_the_header_invalidates_session() {
    let (mut cp, mut pd) = handshake();
    let h = test_header();
    let env = cp.wrap_secure(&h, &msg_bytes());
    let mut h_bad = h;
    h_bad.seq = 4;
    assert!(pd.unwrap_secure(&h_bad, &env).is_none(), "MAC must cover the header");
    assert_eq!(pd.status, ScStatus::Inactive);
}

fn msg_bytes() -> Vec<u8> {
    vec![0x60]
}

#[test]
fn replayed_counter_is_rejected() {
    let (mut cp, mut pd) = handshake();
    let h = test_header();
    let env = cp.wrap_secure(&h, &msg_bytes());
    assert!(pd.unwrap_secure(&h, &env).is_some());
    // The very same envelope again: stale counter.
    assert!(pd.unwrap_secure(&h, &env).is_none());
    assert_eq!(pd.status, ScStatus::Inactive);
}

#[test]
fn install_mode_uses_default_key() {
    let a = SecureChannelSession::new(None);
    let b = SecureChannelSession::new(None);
    assert_eq!(a.base_key, b.base_key, "install mode shares the well-known key");
    assert_ne!(a.base_key, KEY.to_vec());
}
