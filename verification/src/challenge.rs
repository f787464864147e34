//! The CHALLENGE message: negotiation flags, an AV-pair container (the
//! TargetInfo), an 8-byte random server challenge and a target-realm
//! string, serialized to the fixed-header, offset-addressed wire layout of
//! MS-NLMP and reconstructed from it by the inverse operation.
//!
//! Wire layout (all integers little-endian): "NTLMSSP\0"(8), MessageType=2
//! (4), TargetNameLen(2), TargetNameMaxLen(2), TargetNameOffset(4),
//! NegotiateFlags(4), ServerChallenge(8), Reserved(8, zero),
//! TargetInfoLen(2), TargetInfoMaxLen(2), TargetInfoOffset(4), Version(8,
//! zero), then the payload: target name bytes followed by the AV-pair
//! container encoding, offsets relative to the payload start.

use vstd::prelude::*;

verus! {

use crate::av_pair::{
    spec_add, spec_decode, spec_enc_pairs, spec_enc_record, spec_encode, spec_terminator, Id,
    Pair, PairVec,
};
use crate::credential::Credential;
use crate::flags::DEFAULT_NEGOTIATE_FLAGS;
use crate::negotiate::{spec_signature, NegotiateMessage};
use vstd::bytes::{
    lemma_auto_spec_u16_to_from_le_bytes, lemma_auto_spec_u32_to_from_le_bytes,
    lemma_auto_spec_u64_to_from_le_bytes, spec_u16_from_le_bytes, spec_u16_to_le_bytes,
    spec_u32_from_le_bytes, spec_u32_to_le_bytes, spec_u64_to_le_bytes,
};
use vstd::slice::{slice_subrange, slice_to_vec};
use vstd::string::{StrSliceExecFns, StringSliceAdditionalSpecFns};
use vstd::utf8::{decode_utf8, decode_utf8_encode_utf8, encode_utf8, valid_utf8};

/// Whether a name contains a "." separator, which classifies it as a
/// DNS-style rather than a NetBIOS-style identifier.
pub open spec fn spec_has_dot(s: Seq<char>) -> bool {
    exists|i: int| 0 <= i < s.len() && s[i] == '.'
}

/// The AV-pair a credential's domain name contributes to the TargetInfo.
pub open spec fn spec_domain_pair(domain: Seq<char>) -> (Id, Seq<u8>) {
    (
        if spec_has_dot(domain) {
            Id::MsvAvDnsDomainName
        } else {
            Id::MsvAvnbDomainName
        },
        encode_utf8(domain),
    )
}

/// The AV-pair a credential's computer name contributes to the TargetInfo.
pub open spec fn spec_computer_pair(computer: Seq<char>) -> (Id, Seq<u8>) {
    (
        if spec_has_dot(computer) {
            Id::MsvAvDnsComputerName
        } else {
            Id::MsvAvNbComputerName
        },
        encode_utf8(computer),
    )
}

/// The TargetInfo derived from a credential: its domain pair then its
/// computer pair.
pub open spec fn spec_target_info(domain: Seq<char>, computer: Seq<char>) -> Seq<(Id, Seq<u8>)> {
    seq![spec_domain_pair(domain), spec_computer_pair(computer)]
}

/// What decoding a byte buffer as a CHALLENGE message yields: the flags,
/// the target realm, the 8-byte server challenge and the TargetInfo pairs,
/// or nothing when the buffer is shorter than the 56-byte fixed header, the
/// signature or message type is wrong, a declared field runs past the end
/// of the buffer, the target name is not valid text, or the TargetInfo
/// block is malformed.
pub open spec fn spec_deserialize(bytes: Seq<u8>) -> Option<
    (u32, Seq<char>, Seq<u8>, Seq<(Id, Seq<u8>)>),
> {
    if bytes.len() < 56 {
        None
    } else if bytes.subrange(0, 8) != spec_signature() {
        None
    } else if spec_u32_from_le_bytes(bytes.subrange(8, 12)) != 2 {
        None
    } else {
        let tnlen = spec_u16_from_le_bytes(bytes.subrange(12, 14)) as int;
        let tnoff = spec_u32_from_le_bytes(bytes.subrange(16, 20)) as int;
        let fl = spec_u32_from_le_bytes(bytes.subrange(20, 24));
        let chal = bytes.subrange(24, 32);
        let tilen = spec_u16_from_le_bytes(bytes.subrange(40, 42)) as int;
        let tioff = spec_u32_from_le_bytes(bytes.subrange(44, 48)) as int;
        if 56 + tnoff + tnlen > bytes.len() || 56 + tioff + tilen > bytes.len() {
            None
        } else {
            let tnbytes = bytes.subrange(56 + tnoff, 56 + tnoff + tnlen);
            let tibytes = bytes.subrange(56 + tioff, 56 + tioff + tilen);
            if !valid_utf8(tnbytes) {
                None
            } else {
                match spec_decode(tibytes) {
                    None => None,
                    Some(pairs) => Some((fl, decode_utf8(tnbytes), chal, pairs)),
                }
            }
        }
    }
}

/// Flags, TargetInfo, server challenge nonce and target realm.
pub struct ChallengeMessage {
    pub nego_flags: u32,
    pub target_info: PairVec,
    pub server_challenge: [u8; 8],
    pub server_realm: String,
}

/// Relies on rand::rng and rand::Rng::random: draws a fresh 64-bit value
/// from the thread-local cryptographically secure generator, as the server
/// challenge nonce. Nothing can be promised of the value drawn.
#[verifier::external_body]
fn draw_nonce() -> (r: [u8; 8]) {
    rand::Rng::random::<u64>(&mut rand::rng()).to_le_bytes()
}

impl ChallengeMessage {
    /// The container is well-formed and both variable fields fit the 16-bit
    /// length fields of the wire format.
    pub open spec fn wf(self) -> bool {
        &&& self.target_info.wf()
        &&& encode_utf8(self.server_realm@).len() <= 0xFFFF
        &&& spec_encode(self.target_info@).len() <= 0xFFFF
    }

    /// The canonical wire bytes of the message. MaxLen fields equal the Len
    /// fields; the target name is placed at payload offset 0 and the
    /// TargetInfo encoding immediately after it.
    pub open spec fn spec_serialize(self) -> Seq<u8> {
        let realm = encode_utf8(self.server_realm@);
        let ti = spec_encode(self.target_info@);
        spec_signature() + spec_u32_to_le_bytes(2) + spec_u16_to_le_bytes(realm.len() as u16)
            + spec_u16_to_le_bytes(realm.len() as u16) + spec_u32_to_le_bytes(0)
            + spec_u32_to_le_bytes(self.nego_flags) + self.server_challenge@
            + spec_u64_to_le_bytes(0) + spec_u16_to_le_bytes(ti.len() as u16)
            + spec_u16_to_le_bytes(ti.len() as u16) + spec_u32_to_le_bytes(realm.len() as u32)
            + spec_u64_to_le_bytes(0) + realm + ti
    }

    /// An empty message: default flags, no pairs, zero nonce, empty realm.
    pub fn new() -> (r: ChallengeMessage)
        ensures
            r.nego_flags == DEFAULT_NEGOTIATE_FLAGS,
            r.target_info@ == Seq::<(Id, Seq<u8>)>::empty(),
            r.server_challenge@ == Seq::new(8, |i: int| 0u8),
            r.server_realm@ == Seq::<char>::empty(),
            r.wf(),
    {
        let r = ChallengeMessage {
            nego_flags: DEFAULT_NEGOTIATE_FLAGS,
            target_info: PairVec::new(),
            server_challenge: [0; 8],
            server_realm: String::new(),
        };
        proof {
            assert(r.server_challenge@ =~= Seq::new(8, |i: int| 0u8));
            lemma_auto_spec_u16_to_from_le_bytes();
            assert(spec_enc_pairs(r.target_info@) == Seq::<u8>::empty());
            assert(spec_terminator().len() == 4);
        }
        r
    }

    /// Builds the message from a credential with the given nonce: default
    /// flags, the credential's domain as the target realm, and a TargetInfo
    /// holding the domain and computer pairs, each classified DNS-style or
    /// NetBIOS-style by the presence of a "." in the name.
    pub fn from_credential_with_nonce(cred: &Credential, nonce: [u8; 8]) -> (r: ChallengeMessage)
        ensures
            r.nego_flags == DEFAULT_NEGOTIATE_FLAGS,
            r.server_challenge == nonce,
            r.server_realm@ == cred.spec_domain(),
            r.target_info@ == spec_add(
                spec_add(
                    Seq::empty(),
                    spec_domain_pair(cred.spec_domain()).0,
                    spec_domain_pair(cred.spec_domain()).1,
                ),
                spec_computer_pair(cred.spec_computer()).0,
                spec_computer_pair(cred.spec_computer()).1,
            ),
            cred.wf() ==> r.target_info@ == spec_target_info(
                cred.spec_domain(),
                cred.spec_computer(),
            ),
            cred.wf() ==> r.wf(),
    {
        let mut avpairs = PairVec::new();

        let domain_id = if crate::text::contains_dot(cred.domain().as_str()) {
            Id::MsvAvDnsDomainName
        } else {
            Id::MsvAvnbDomainName
        };
        avpairs.add(&Pair { id: domain_id, data: cred.domain().as_str().as_bytes_vec() });

        let computer_id = if crate::text::contains_dot(cred.computer().as_str()) {
            Id::MsvAvDnsComputerName
        } else {
            Id::MsvAvNbComputerName
        };
        avpairs.add(&Pair { id: computer_id, data: cred.computer().as_str().as_bytes_vec() });

        let r = ChallengeMessage {
            nego_flags: DEFAULT_NEGOTIATE_FLAGS,
            target_info: avpairs,
            server_challenge: nonce,
            server_realm: cred.domain().clone(),
        };
        proof {
            if cred.wf() {
                let ti = spec_target_info(cred.spec_domain(), cred.spec_computer());
                assert(r.target_info@ =~= ti);
                lemma_auto_spec_u16_to_from_le_bytes();
                let p0 = spec_domain_pair(cred.spec_domain());
                let p1 = spec_computer_pair(cred.spec_computer());
                assert(ti.drop_first() =~= seq![p1]);
                assert(seq![p1].drop_first() =~= Seq::<(Id, Seq<u8>)>::empty());
                assert(spec_enc_pairs(Seq::<(Id, Seq<u8>)>::empty()) == Seq::<u8>::empty());
                assert(spec_enc_pairs(seq![p1]) == spec_enc_record(p1.0, p1.1) + Seq::<
                    u8,
                >::empty());
                assert(spec_enc_pairs(ti) == spec_enc_record(p0.0, p0.1) + spec_enc_pairs(
                    ti.drop_first(),
                ));
                assert(spec_enc_record(p0.0, p0.1).len() == 4 + p0.1.len());
                assert(spec_enc_record(p1.0, p1.1).len() == 4 + p1.1.len());
                assert(spec_terminator().len() == 4);
                assert(spec_encode(r.target_info@).len() <= 0xFFFF);
            }
        }
        r
    }

    /// Builds the message from a credential, drawing a fresh random nonce;
    /// apart from the nonce the result is as from_credential_with_nonce.
    pub fn from_credential(cred: &Credential) -> (r: ChallengeMessage)
        ensures
            r.nego_flags == DEFAULT_NEGOTIATE_FLAGS,
            r.server_realm@ == cred.spec_domain(),
            r.target_info@ == spec_add(
                spec_add(
                    Seq::empty(),
                    spec_domain_pair(cred.spec_domain()).0,
                    spec_domain_pair(cred.spec_domain()).1,
                ),
                spec_computer_pair(cred.spec_computer()).0,
                spec_computer_pair(cred.spec_computer()).1,
            ),
            cred.wf() ==> r.target_info@ == spec_target_info(
                cred.spec_domain(),
                cred.spec_computer(),
            ),
            cred.wf() ==> r.wf(),
    {
        let nonce = draw_nonce();
        Self::from_credential_with_nonce(cred, nonce)
    }

    /// Attempts to decode a NEGOTIATE message; on success merges its flags
    /// into this message's flags by bitwise OR, on failure leaves the
    /// message bit-for-bit unchanged. Malformed input is tolerated as a
    /// no-op because flag negotiation is advisory.
    pub fn process_negotiate(&mut self, nego_msg: &Vec<u8>)
        ensures
            (match crate::negotiate::spec_deserialize(nego_msg@) {
                Some(t) => {
                    &&& final(self).nego_flags == old(self).nego_flags | t.0
                    &&& final(self).target_info == old(self).target_info
                    &&& final(self).server_challenge == old(self).server_challenge
                    &&& final(self).server_realm == old(self).server_realm
                },
                None => *final(self) == *old(self),
            }),
            old(self).wf() ==> final(self).wf(),
    {
        let nego = match NegotiateMessage::deserialize(nego_msg) {
            Some(x) => x,
            None => {
                return;
            },
        };
        self.nego_flags = self.nego_flags | nego.nego_flags;
    }

    /// Serializes the message to its canonical wire bytes; writers cannot
    /// fail.
    pub fn serialize(&self) -> (r: Vec<u8>)
        requires
            self.wf(),
        ensures
            r@ == self.spec_serialize(),
    {
        proof {
            lemma_auto_spec_u16_to_from_le_bytes();
            lemma_auto_spec_u32_to_from_le_bytes();
            lemma_auto_spec_u64_to_from_le_bytes();
        }
        let mut buffer: Vec<u8> = Vec::new();
        crate::negotiate::push_signature(&mut buffer);
        crate::wire::write_u32(&mut buffer, 2);

        let realm = self.server_realm.as_str().as_bytes();
        let rlen = realm.len();
        crate::wire::write_u16(&mut buffer, rlen as u16);
        crate::wire::write_u16(&mut buffer, rlen as u16);
        crate::wire::write_u32(&mut buffer, 0);

        crate::wire::write_u32(&mut buffer, self.nego_flags);

        buffer.push(self.server_challenge[0]);
        buffer.push(self.server_challenge[1]);
        buffer.push(self.server_challenge[2]);
        buffer.push(self.server_challenge[3]);
        buffer.push(self.server_challenge[4]);
        buffer.push(self.server_challenge[5]);
        buffer.push(self.server_challenge[6]);
        buffer.push(self.server_challenge[7]);

        crate::wire::write_u64(&mut buffer, 0);

        let serialized_avpairs = self.target_info.serialize();
        let tlen = serialized_avpairs.len();
        crate::wire::write_u16(&mut buffer, tlen as u16);
        crate::wire::write_u16(&mut buffer, tlen as u16);
        crate::wire::write_u32(&mut buffer, rlen as u32);

        crate::wire::write_u64(&mut buffer, 0);

        buffer.extend_from_slice(realm);
        buffer.extend_from_slice(serialized_avpairs.as_slice());
        proof {
            assert(buffer@ =~= self.spec_serialize());
        }
        buffer
    }

    /// Parses a CHALLENGE message from wire bytes with the same validation
    /// discipline as NEGOTIATE decoding, deferring TargetInfo payload
    /// validation to the AV-pair container's own decoder; any malformed
    /// input yields nothing.
    pub fn deserialize(buffer: Vec<u8>) -> (r: Option<ChallengeMessage>)
        ensures
            r is Some <==> spec_deserialize(buffer@) is Some,
            r matches Some(m) ==> {
                &&& spec_deserialize(buffer@) == Some(
                    (m.nego_flags, m.server_realm@, m.server_challenge@, m.target_info@),
                )
                &&& m.wf()
            },
    {
        let min_size: usize = 56;
        if buffer.len() < min_size {
            return None;
        }
        if !crate::negotiate::check_signature(&buffer) {
            return None;
        }
        let message = crate::wire::get_u32(&buffer, 8);
        if message != 2 {
            return None;
        }

        let target_name_len = crate::wire::get_u16(&buffer, 12);
        let target_name_offset = crate::wire::get_u32(&buffer, 16);
        let negotiated_flags = crate::wire::get_u32(&buffer, 20);
        let target_info_len = crate::wire::get_u16(&buffer, 40);
        let target_info_offset = crate::wire::get_u32(&buffer, 44);

        if 56u64 + (target_name_offset as u64) + (target_name_len as u64) > buffer.len() as u64 {
            return None;
        }
        if 56u64 + (target_info_offset as u64) + (target_info_len as u64) > buffer.len() as u64 {
            return None;
        }

        let chal: [u8; 8] = [
            buffer[24],
            buffer[25],
            buffer[26],
            buffer[27],
            buffer[28],
            buffer[29],
            buffer[30],
            buffer[31],
        ];
        proof {
            assert(chal@ =~= buffer@.subrange(24, 32));
        }

        let tnstart: usize = 56 + target_name_offset as usize;
        let tn_vec = slice_to_vec(
            slice_subrange(buffer.as_slice(), tnstart, tnstart + target_name_len as usize),
        );
        let ghost tnbytes = buffer@.subrange(
            tnstart as int,
            tnstart as int + target_name_len as int,
        );
        let realm_str = match crate::text::string_from_utf8(tn_vec) {
            Some(s) => s,
            None => {
                return None;
            },
        };

        let tistart: usize = 56 + target_info_offset as usize;
        let ti_vec = slice_to_vec(
            slice_subrange(buffer.as_slice(), tistart, tistart + target_info_len as usize),
        );
        let ghost tibytes = buffer@.subrange(
            tistart as int,
            tistart as int + target_info_len as int,
        );
        let mut target_info = PairVec::new();
        match target_info.deserialize(&ti_vec) {
            Ok(()) => {},
            Err(_) => {
                return None;
            },
        }

        proof {
            decode_utf8_encode_utf8(tnbytes);
            crate::av_pair::lemma_decode_encode_len(tibytes);
        }
        Some(ChallengeMessage {
            nego_flags: negotiated_flags,
            target_info,
            server_challenge: chal,
            server_realm: realm_str,
        })
    }
}

/// Round trip: decoding the canonical serialization of any valid message
/// whose TargetInfo holds at least one pair yields exactly its flags,
/// target realm, server challenge and TargetInfo pairs. (An empty container
/// serializes to the 4-byte terminator alone, which is below the AV-pair
/// decoder's 8-byte minimum, so an empty TargetInfo cannot round-trip.)
pub proof fn lemma_round_trip(m: ChallengeMessage)
    requires
        m.wf(),
        m.target_info@.len() >= 1,
    ensures
        spec_deserialize(m.spec_serialize()) == Some(
            (m.nego_flags, m.server_realm@, m.server_challenge@, m.target_info@),
        ),
{
    lemma_auto_spec_u16_to_from_le_bytes();
    lemma_auto_spec_u32_to_from_le_bytes();
    lemma_auto_spec_u64_to_from_le_bytes();
    let realm = encode_utf8(m.server_realm@);
    let ti = spec_encode(m.target_info@);
    let b = m.spec_serialize();
    assert(m.server_challenge@.len() == 8);
    assert(b.len() == 56 + realm.len() + ti.len());
    assert(b.subrange(0, 8) =~= spec_signature());
    assert(b.subrange(8, 12) =~= spec_u32_to_le_bytes(2));
    assert(b.subrange(12, 14) =~= spec_u16_to_le_bytes(realm.len() as u16));
    assert(b.subrange(16, 20) =~= spec_u32_to_le_bytes(0));
    assert(b.subrange(20, 24) =~= spec_u32_to_le_bytes(m.nego_flags));
    assert(b.subrange(24, 32) =~= m.server_challenge@);
    assert(b.subrange(40, 42) =~= spec_u16_to_le_bytes(ti.len() as u16));
    assert(b.subrange(44, 48) =~= spec_u32_to_le_bytes(realm.len() as u32));
    assert(b.subrange(56, 56 + realm.len() as int) =~= realm);
    assert(b.subrange(56 + realm.len() as int, 56 + realm.len() as int + ti.len() as int) =~= ti);
    vstd::utf8::encode_utf8_valid_utf8(m.server_realm@);
    vstd::utf8::encode_utf8_decode_utf8(m.server_realm@);
    crate::av_pair::lemma_round_trip(m.target_info);
}

impl From<&Credential> for ChallengeMessage {
    fn from(cred: &Credential) -> Self {
        ChallengeMessage::from_credential(cred)
    }
}

impl vstd::std_specs::convert::FromSpecImpl<&Credential> for ChallengeMessage {
    open spec fn obeys_from_spec() -> bool {
        false
    }

    open spec fn from_spec(cred: &Credential) -> Self {
        arbitrary()
    }
}

} // verus!
