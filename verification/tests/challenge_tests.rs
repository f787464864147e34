use ntlm::av_pair::Id;
use ntlm::challenge::ChallengeMessage;
use ntlm::credential::Credential;
use ntlm::flags::DEFAULT_NEGOTIATE_FLAGS;
use ntlm::negotiate::NegotiateMessage;

const NONCE: [u8; 8] = [1, 2, 3, 4, 5, 6, 7, 8];

#[test]
fn challenge_wire_layout_exact() {
    let cred = Credential::acquire_credentials("u", "a.b", "c", "pw").unwrap();
    let msg = ChallengeMessage::from_credential_with_nonce(&cred, NONCE);
    let bytes = msg.serialize();

    let mut expected: Vec<u8> = Vec::new();
    expected.extend_from_slice(b"NTLMSSP\0");
    expected.extend_from_slice(&[0x02, 0x00, 0x00, 0x00]); // MessageType = 2
    expected.extend_from_slice(&[0x03, 0x00]); // TargetNameLen ("a.b")
    expected.extend_from_slice(&[0x03, 0x00]); // TargetNameMaxLen
    expected.extend_from_slice(&[0x00, 0x00, 0x00, 0x00]); // TargetNameOffset
    expected.extend_from_slice(&[0x06, 0x00, 0x01, 0x8C]); // default flags, little-endian
    expected.extend_from_slice(&NONCE); // ServerChallenge
    expected.extend_from_slice(&[0; 8]); // Reserved
    expected.extend_from_slice(&[0x10, 0x00]); // TargetInfoLen (16)
    expected.extend_from_slice(&[0x10, 0x00]); // TargetInfoMaxLen
    expected.extend_from_slice(&[0x03, 0x00, 0x00, 0x00]); // TargetInfoOffset
    expected.extend_from_slice(&[0; 8]); // Version
    expected.extend_from_slice(b"a.b"); // TargetName payload
    // TargetInfo payload: DNS domain pair, NetBIOS computer pair, terminator.
    expected.extend_from_slice(&[0x04, 0x00, 0x03, 0x00]);
    expected.extend_from_slice(b"a.b");
    expected.extend_from_slice(&[0x01, 0x00, 0x01, 0x00]);
    expected.extend_from_slice(b"c");
    expected.extend_from_slice(&[0x00, 0x00, 0x00, 0x00]);

    assert_eq!(bytes, expected);
}

#[test]
fn challenge_round_trip() {
    let cred = Credential::acquire_credentials("user", "kitchen", "machine1", "pw").unwrap();
    let msg = ChallengeMessage::from_credential_with_nonce(&cred, NONCE);
    let bytes = msg.serialize();

    let back = ChallengeMessage::deserialize(bytes).expect("round trip failed");
    assert_eq!(back.nego_flags, DEFAULT_NEGOTIATE_FLAGS);
    assert_eq!(back.server_challenge, NONCE);
    assert_eq!(back.server_realm, "kitchen");
    assert_eq!(back.target_info.m_pairs.len(), 2);
    assert_eq!(back.target_info.m_pairs[0].id, Id::MsvAvnbDomainName);
    assert_eq!(back.target_info.m_pairs[0].data, b"kitchen".to_vec());
    assert_eq!(back.target_info.m_pairs[1].id, Id::MsvAvNbComputerName);
    assert_eq!(back.target_info.m_pairs[1].data, b"machine1".to_vec());
}

#[test]
fn challenge_classifies_dns_names() {
    let dns_cred = Credential::acquire_credentials("u", "corp.example", "host.corp", "pw").unwrap();
    let msg = ChallengeMessage::from_credential_with_nonce(&dns_cred, NONCE);
    assert_eq!(msg.target_info.m_pairs[0].id, Id::MsvAvDnsDomainName);
    assert_eq!(msg.target_info.m_pairs[1].id, Id::MsvAvDnsComputerName);

    let nb_cred = Credential::acquire_credentials("u", "CORP", "HOST", "pw").unwrap();
    let msg2 = ChallengeMessage::from_credential_with_nonce(&nb_cred, NONCE);
    assert_eq!(msg2.target_info.m_pairs[0].id, Id::MsvAvnbDomainName);
    assert_eq!(msg2.target_info.m_pairs[1].id, Id::MsvAvNbComputerName);
}

#[test]
fn challenge_fresh_nonce_message_is_valid() {
    let cred = Credential::acquire_credentials("u", "dom", "pc", "pw").unwrap();
    let msg = ChallengeMessage::from_credential(&cred);
    assert_eq!(msg.nego_flags, DEFAULT_NEGOTIATE_FLAGS);
    assert_eq!(msg.server_realm, "dom");
    let bytes = msg.serialize();
    let back = ChallengeMessage::deserialize(bytes).expect("must round-trip");
    assert_eq!(back.server_challenge, msg.server_challenge);
}

#[test]
fn process_negotiate_garbage_keeps_flags() {
    let cred = Credential::acquire_credentials("u", "dom", "pc", "pw").unwrap();
    let mut msg = ChallengeMessage::from_credential_with_nonce(&cred, NONCE);
    let flags_before = msg.nego_flags;

    let garbage: Vec<u8> = vec![0xDE, 0xAD, 0xBE, 0xEF];
    msg.process_negotiate(&garbage);
    assert_eq!(msg.nego_flags, flags_before);

    let not_ntlm: Vec<u8> = vec![0x55; 64];
    msg.process_negotiate(&not_ntlm);
    assert_eq!(msg.nego_flags, flags_before);
}

#[test]
fn process_negotiate_merges_flags() {
    let cred = Credential::acquire_credentials("u", "dom", "pc", "pw").unwrap();
    let mut msg = ChallengeMessage::from_credential_with_nonce(&cred, NONCE);

    let peer = NegotiateMessage {
        nego_flags: 0x0000_0100, // target-info request, not in the default set
        domain_name: String::new(),
        workstation: String::new(),
    };
    msg.process_negotiate(&peer.serialize());
    assert_eq!(msg.nego_flags, DEFAULT_NEGOTIATE_FLAGS | 0x0000_0100);
    assert_eq!(msg.server_challenge, NONCE); // everything else untouched
    assert_eq!(msg.server_realm, "dom");
}

#[test]
fn challenge_rejects_short_buffer() {
    for len in 0..56 {
        let buffer: Vec<u8> = vec![0u8; len];
        assert!(ChallengeMessage::deserialize(buffer).is_none());
    }
}

#[test]
fn challenge_rejects_bad_target_info() {
    // An empty TargetInfo block (4 terminator bytes alone) is below the
    // AV-pair decoder's 8-byte minimum, so the message is rejected.
    let msg = ChallengeMessage::new();
    let bytes = msg.serialize();
    assert!(ChallengeMessage::deserialize(bytes).is_none());
}
