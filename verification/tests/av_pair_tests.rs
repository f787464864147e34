use ntlm::av_pair::{Id, Pair, PairVec};

#[test]
fn av_empty_serializes_terminator() {
    let pairs = PairVec::new();
    assert_eq!(pairs.serialize(), vec![0u8, 0, 0, 0]);
}

#[test]
fn av_wire_layout_exact() {
    let mut pairs = PairVec::new();
    pairs.add(&Pair { id: Id::MsvAvnbDomainName, data: vec![b'D', b'O', b'M'] });
    pairs.add(&Pair { id: Id::MsvAvNbComputerName, data: vec![b'P', b'C'] });
    let bytes = pairs.serialize();

    let expected: Vec<u8> = vec![
        0x02, 0x00, // id 2, little-endian
        0x03, 0x00, // length 3
        b'D', b'O', b'M', //
        0x01, 0x00, // id 1
        0x02, 0x00, // length 2
        b'P', b'C', //
        0x00, 0x00, 0x00, 0x00, // terminator
    ];
    assert_eq!(bytes, expected);
}

#[test]
fn av_round_trip() {
    let mut pairs = PairVec::new();
    pairs.add(&Pair { id: Id::MsvAvDnsDomainName, data: vec![1, 2, 3] });
    pairs.add(&Pair { id: Id::MsvAvNbComputerName, data: vec![] });
    pairs.add(&Pair { id: Id::MsvAvTimestamp, data: vec![9; 8] });
    let bytes = pairs.serialize();

    let mut back = PairVec::new();
    back.deserialize(&bytes).expect("round trip failed");
    assert_eq!(back.m_pairs.len(), 3);
    assert_eq!(back.m_pairs[0].id, Id::MsvAvDnsDomainName);
    assert_eq!(back.m_pairs[0].data, vec![1, 2, 3]);
    assert_eq!(back.m_pairs[1].id, Id::MsvAvNbComputerName);
    assert_eq!(back.m_pairs[1].data, Vec::<u8>::new());
    assert_eq!(back.m_pairs[2].id, Id::MsvAvTimestamp);
    assert_eq!(back.m_pairs[2].data, vec![9; 8]);
    // The terminator is never exposed as a stored element.
    assert!(back.m_pairs.iter().all(|p| p.id != Id::MsvAvEOL));
}

#[test]
fn av_idempotent_insert() {
    let mut pairs = PairVec::new();
    pairs.add(&Pair { id: Id::MsvAvFlags, data: vec![1] });
    pairs.add(&Pair { id: Id::MsvAvFlags, data: vec![2] });
    assert_eq!(pairs.m_pairs.len(), 1);
    assert_eq!(pairs.m_pairs[0].data, vec![1]); // only the first is retained
}

#[test]
fn av_payload_boundary() {
    let mut pairs = PairVec::new();
    pairs.add(&Pair { id: Id::MsvAvTargetName, data: vec![0u8; 65536] });
    assert!(!pairs.query(Id::MsvAvTargetName)); // rejected, not inserted
    assert_eq!(pairs.m_pairs.len(), 0);

    pairs.add(&Pair { id: Id::MsvAvTargetName, data: vec![0u8; 65535] });
    assert!(pairs.query(Id::MsvAvTargetName)); // accepted
    assert_eq!(pairs.m_pairs.len(), 1);
}

#[test]
fn av_eol_never_stored_but_reported() {
    let mut pairs = PairVec::new();
    assert!(pairs.query(Id::MsvAvEOL));
    pairs.add(&Pair { id: Id::MsvAvEOL, data: vec![] });
    assert_eq!(pairs.m_pairs.len(), 0);
    assert!(pairs.query(Id::MsvAvEOL));
}

#[test]
fn av_unknown_id_dropped() {
    // id 0x0B names no attribute kind: the record is skipped, not fatal.
    let bytes: Vec<u8> = vec![
        0x0B, 0x00, 0x01, 0x00, 0xAA, // unknown record
        0x06, 0x00, 0x01, 0x00, 0xBB, // MsvAvFlags record
        0x00, 0x00, 0x00, 0x00, // terminator
    ];
    let mut pairs = PairVec::new();
    pairs.deserialize(&bytes).expect("decode failed");
    assert_eq!(pairs.m_pairs.len(), 1);
    assert_eq!(pairs.m_pairs[0].id, Id::MsvAvFlags);
    assert_eq!(pairs.m_pairs[0].data, vec![0xBB]);
}

#[test]
fn av_decode_rejects_short() {
    let mut pairs = PairVec::new();
    for len in 0..8 {
        let bytes: Vec<u8> = vec![0u8; len];
        assert!(pairs.deserialize(&bytes).is_err());
    }
}

#[test]
fn av_decode_rejects_missing_terminator() {
    // Two well-formed records but no terminator: the buffer is exhausted.
    let bytes: Vec<u8> = vec![0x01, 0x00, 0x01, 0x00, 0xAA, 0x02, 0x00, 0x01, 0x00, 0xBB];
    let mut pairs = PairVec::new();
    assert!(pairs.deserialize(&bytes).is_err());
}

#[test]
fn av_decode_rejects_overrun_length() {
    // A record claiming 9 payload bytes when only 5 remain.
    let bytes: Vec<u8> = vec![0x01, 0x00, 0x09, 0x00, 0xAA, 0xBB, 0xCC, 0xDD, 0xEE];
    let mut pairs = PairVec::new();
    assert!(pairs.deserialize(&bytes).is_err());
}

#[test]
fn av_decode_keeps_container_on_failure() {
    let mut pairs = PairVec::new();
    pairs.add(&Pair { id: Id::MsvAvFlags, data: vec![7] });
    let garbage: Vec<u8> = vec![0x01, 0x00, 0x09, 0x00, 0xAA, 0xBB, 0xCC, 0xDD, 0xEE];
    assert!(pairs.deserialize(&garbage).is_err());
    assert_eq!(pairs.m_pairs.len(), 1);
    assert_eq!(pairs.m_pairs[0].data, vec![7]);
}

#[test]
fn av_decode_stops_at_terminator() {
    // Bytes after the terminator are not consumed.
    let bytes: Vec<u8> = vec![
        0x05, 0x00, 0x01, 0x00, 0xAA, // MsvAvDnsTreeName record
        0x00, 0x00, 0x00, 0x00, // terminator
        0xFF, 0xFF, 0xFF, 0xFF, // trailing garbage, ignored
    ];
    let mut pairs = PairVec::new();
    pairs.deserialize(&bytes).expect("decode failed");
    assert_eq!(pairs.m_pairs.len(), 1);
    assert_eq!(pairs.m_pairs[0].id, Id::MsvAvDnsTreeName);
}
