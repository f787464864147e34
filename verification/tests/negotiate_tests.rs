use ntlm::credential::Credential;
use ntlm::flags::DEFAULT_NEGOTIATE_FLAGS;
use ntlm::negotiate::NegotiateMessage;

#[test]
fn serialize_and_deserialize() {
    let helper = |original: &NegotiateMessage| {
        let new_message = NegotiateMessage::deserialize(&original.serialize())
            .expect("serialize -> deserialize failed");

        assert_eq!(new_message.nego_flags, original.nego_flags);
        assert_eq!(new_message.domain_name, original.domain_name);
        assert_eq!(new_message.workstation, original.workstation);
    };

    let reg_cred = Credential::acquire_credentials("toast", "kitchen", "machine1", "IMakeToast1!")
        .unwrap();
    let original_message = NegotiateMessage::from(&reg_cred);
    helper(&original_message);

    let empty_cred = Credential::acquire_credentials("", "", "", "").unwrap();
    let empty_message = NegotiateMessage::from(&empty_cred);
    helper(&empty_message);
}

#[test]
fn default_flags_value() {
    // 128-bit | key-exchange | always-sign | seal | sign | unicode
    assert_eq!(DEFAULT_NEGOTIATE_FLAGS, 0x8C01_0006);
}

#[test]
fn negotiate_wire_layout_exact() {
    let msg = NegotiateMessage {
        nego_flags: 0x0102_0304,
        domain_name: String::from("ab"),
        workstation: String::from("xyz"),
    };
    let bytes = msg.serialize();

    let mut expected: Vec<u8> = Vec::new();
    expected.extend_from_slice(b"NTLMSSP\0");
    expected.extend_from_slice(&[0x01, 0x00, 0x00, 0x00]); // MessageType = 1
    expected.extend_from_slice(&[0x04, 0x03, 0x02, 0x01]); // flags, little-endian
    expected.extend_from_slice(&[0x02, 0x00]); // DomainNameLen
    expected.extend_from_slice(&[0x02, 0x00]); // DomainNameMaxLen
    expected.extend_from_slice(&[0x00, 0x00, 0x00, 0x00]); // DomainNameOffset
    expected.extend_from_slice(&[0x03, 0x00]); // WorkstationLen
    expected.extend_from_slice(&[0x03, 0x00]); // WorkstationMaxLen
    expected.extend_from_slice(&[0x02, 0x00, 0x00, 0x00]); // WorkstationOffset
    expected.extend_from_slice(&[0; 8]); // Version, all zero
    expected.extend_from_slice(b"ab");
    expected.extend_from_slice(b"xyz");

    assert_eq!(bytes, expected);
}

#[test]
fn negotiate_rejects_short_buffer() {
    for len in 0..40 {
        let buffer: Vec<u8> = vec![0u8; len];
        assert!(NegotiateMessage::deserialize(&buffer).is_none());
    }
}

#[test]
fn negotiate_rejects_bad_signature() {
    let msg = NegotiateMessage::new();
    let mut bytes = msg.serialize();
    bytes[0] = b'X';
    assert!(NegotiateMessage::deserialize(&bytes).is_none());
}

#[test]
fn negotiate_rejects_bad_message_type() {
    let msg = NegotiateMessage::new();
    let mut bytes = msg.serialize();
    bytes[8] = 2;
    assert!(NegotiateMessage::deserialize(&bytes).is_none());
}

#[test]
fn negotiate_rejects_bad_lengths() {
    // Declared domain length runs past the end of the buffer.
    let msg = NegotiateMessage::new();
    let mut bytes = msg.serialize();
    assert_eq!(bytes.len(), 40);
    bytes[16] = 0x01; // DomainNameLen = 1, but there is no payload
    assert!(NegotiateMessage::deserialize(&bytes).is_none());

    // Declared lengths sum past the end even though each field, taken from
    // its offset, would stay inside.
    let msg2 = NegotiateMessage {
        nego_flags: 0,
        domain_name: String::from("abcd"),
        workstation: String::new(),
    };
    let mut bytes2 = msg2.serialize();
    assert_eq!(bytes2.len(), 44);
    bytes2[24] = 0x04; // WorkstationLen = 4: 4 + 4 + 40 > 44
    bytes2[28] = 0x00; // WorkstationOffset = 0 (would alias the domain bytes)
    assert!(NegotiateMessage::deserialize(&bytes2).is_none());
}

#[test]
fn negotiate_rejects_invalid_text() {
    let msg = NegotiateMessage {
        nego_flags: 0,
        domain_name: String::from("ab"),
        workstation: String::new(),
    };
    let mut bytes = msg.serialize();
    bytes[40] = 0xFF; // not valid UTF-8 as a lone byte
    assert!(NegotiateMessage::deserialize(&bytes).is_none());
}

#[test]
fn empty_identities_round_trip() {
    let cred = Credential::acquire_credentials("", "", "", "").unwrap();
    assert_eq!(cred.user(), "");
    assert_eq!(cred.domain(), "");
    assert_eq!(cred.computer(), "");

    let msg = NegotiateMessage::from(&cred);
    let bytes = msg.serialize();
    let back = NegotiateMessage::deserialize(&bytes).expect("empty message must round-trip");
    assert_eq!(back.nego_flags, msg.nego_flags);
    assert_eq!(back.domain_name, "");
    assert_eq!(back.workstation, "");
}
