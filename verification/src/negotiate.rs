//! The NEGOTIATE message: negotiation flags plus domain and workstation
//! name strings, serialized to the fixed-header, offset-addressed wire
//! layout of MS-NLMP and reconstructed from it by the inverse operation.
//!
//! Wire layout (all integers little-endian): "NTLMSSP\0"(8), MessageType=1
//! (4), NegotiateFlags(4), DomainNameLen(2), DomainNameMaxLen(2),
//! DomainNameOffset(4), WorkstationLen(2), WorkstationMaxLen(2),
//! WorkstationOffset(4), Version(8, zero), then the payload: domain bytes
//! followed by workstation bytes, offsets relative to the payload start.

use vstd::prelude::*;

verus! {

use crate::credential::Credential;
use crate::flags::DEFAULT_NEGOTIATE_FLAGS;
use vstd::bytes::{
    lemma_auto_spec_u16_to_from_le_bytes, lemma_auto_spec_u32_to_from_le_bytes,
    lemma_auto_spec_u64_to_from_le_bytes, spec_u16_from_le_bytes, spec_u16_to_le_bytes,
    spec_u32_from_le_bytes, spec_u32_to_le_bytes, spec_u64_to_le_bytes,
};
use vstd::slice::{slice_subrange, slice_to_vec};
use vstd::string::StringSliceAdditionalSpecFns;
use vstd::utf8::{
    decode_utf8, decode_utf8_encode_utf8, encode_utf8, encode_utf8_decode_utf8,
    encode_utf8_valid_utf8, valid_utf8,
};

/// The 8-byte ASCII signature "NTLMSSP" with a trailing zero byte.
pub open spec fn spec_signature() -> Seq<u8> {
    seq![0x4Eu8, 0x54u8, 0x4Cu8, 0x4Du8, 0x53u8, 0x53u8, 0x50u8, 0x00u8]
}

/// Appends the signature bytes to the output buffer.
pub(crate) fn push_signature(out: &mut Vec<u8>)
    ensures
        final(out)@ == old(out)@ + spec_signature(),
{
    out.push(0x4E);
    out.push(0x54);
    out.push(0x4C);
    out.push(0x4D);
    out.push(0x53);
    out.push(0x53);
    out.push(0x50);
    out.push(0x00);
    proof {
        assert(out@ =~= old(out)@ + spec_signature());
    }
}

/// Reports whether the buffer starts with the signature.
pub(crate) fn check_signature(buffer: &Vec<u8>) -> (r: bool)
    requires
        buffer@.len() >= 8,
    ensures
        r == (buffer@.subrange(0, 8) == spec_signature()),
{
    let r = buffer[0] == 0x4E && buffer[1] == 0x54 && buffer[2] == 0x4C && buffer[3] == 0x4D
        && buffer[4] == 0x53 && buffer[5] == 0x53 && buffer[6] == 0x50 && buffer[7] == 0x00;
    proof {
        if r {
            assert(buffer@.subrange(0, 8) =~= spec_signature());
        } else {
            assert(buffer@.subrange(0, 8) != spec_signature()) by {
                if buffer@.subrange(0, 8) == spec_signature() {
                    assert(forall|k: int|
                        0 <= k < 8 ==> buffer@[k] == #[trigger] spec_signature()[k]);
                }
            }
        }
    }
    r
}

/// What decoding a byte buffer as a NEGOTIATE message yields: the flags and
/// the two name strings, or nothing when the buffer is shorter than the
/// 40-byte fixed header, the signature or message type is wrong, the
/// declared name lengths run past the end of the buffer, or a name is not
/// valid text.
pub open spec fn spec_deserialize(bytes: Seq<u8>) -> Option<(u32, Seq<char>, Seq<char>)> {
    if bytes.len() < 40 {
        None
    } else if bytes.subrange(0, 8) != spec_signature() {
        None
    } else if spec_u32_from_le_bytes(bytes.subrange(8, 12)) != 1 {
        None
    } else {
        let fl = spec_u32_from_le_bytes(bytes.subrange(12, 16));
        let dlen = spec_u16_from_le_bytes(bytes.subrange(16, 18)) as int;
        let doff = spec_u32_from_le_bytes(bytes.subrange(20, 24)) as int;
        let wlen = spec_u16_from_le_bytes(bytes.subrange(24, 26)) as int;
        let woff = spec_u32_from_le_bytes(bytes.subrange(28, 32)) as int;
        if dlen + wlen + 40 > bytes.len() {
            None
        } else if 40 + doff + dlen > bytes.len() || 40 + woff + wlen > bytes.len() {
            None
        } else {
            let dbytes = bytes.subrange(40 + doff, 40 + doff + dlen);
            let wbytes = bytes.subrange(40 + woff, 40 + woff + wlen);
            if valid_utf8(dbytes) && valid_utf8(wbytes) {
                Some((fl, decode_utf8(dbytes), decode_utf8(wbytes)))
            } else {
                None
            }
        }
    }
}

/// Negotiation flags plus the domain and workstation names. The message's
/// other wire fields are fixed and need not be stored.
pub struct NegotiateMessage {
    pub nego_flags: u32,
    pub domain_name: String,
    pub workstation: String,
}

impl NegotiateMessage {
    /// Both name strings fit the 16-bit length fields of the wire format.
    pub open spec fn wf(self) -> bool {
        &&& encode_utf8(self.domain_name@).len() <= 0xFFFF
        &&& encode_utf8(self.workstation@).len() <= 0xFFFF
    }

    /// The canonical wire bytes of the message. MaxLen fields equal the Len
    /// fields; the domain is placed at payload offset 0 and the workstation
    /// immediately after it.
    pub open spec fn spec_serialize(self) -> Seq<u8> {
        let dom = encode_utf8(self.domain_name@);
        let ws = encode_utf8(self.workstation@);
        spec_signature() + spec_u32_to_le_bytes(1) + spec_u32_to_le_bytes(self.nego_flags)
            + spec_u16_to_le_bytes(dom.len() as u16) + spec_u16_to_le_bytes(dom.len() as u16)
            + spec_u32_to_le_bytes(0) + spec_u16_to_le_bytes(ws.len() as u16)
            + spec_u16_to_le_bytes(ws.len() as u16) + spec_u32_to_le_bytes(dom.len() as u32)
            + spec_u64_to_le_bytes(0) + dom + ws
    }

    /// An identity-independent message: default flags, empty names.
    pub fn new() -> (r: NegotiateMessage)
        ensures
            r.nego_flags == DEFAULT_NEGOTIATE_FLAGS,
            r.domain_name@ == Seq::<char>::empty(),
            r.workstation@ == Seq::<char>::empty(),
            r.wf(),
    {
        NegotiateMessage {
            nego_flags: DEFAULT_NEGOTIATE_FLAGS,
            domain_name: String::new(),
            workstation: String::new(),
        }
    }

    /// Builds the message from a credential with the default flags; the
    /// credential's domain realm is sent in both name fields.
    pub fn from_credential(cred: &Credential) -> (r: NegotiateMessage)
        ensures
            r.nego_flags == DEFAULT_NEGOTIATE_FLAGS,
            r.domain_name@ == cred.spec_domain(),
            r.workstation@ == cred.spec_domain(),
            cred.wf() ==> r.wf(),
    {
        NegotiateMessage {
            nego_flags: DEFAULT_NEGOTIATE_FLAGS,
            domain_name: cred.domain().clone(),
            workstation: cred.domain().clone(),
        }
    }

    /// Serializes the message to its canonical wire bytes; writers cannot
    /// fail.
    pub fn serialize(&self) -> (r: Vec<u8>)
        requires
            self.wf(),
        ensures
            r@ == self.spec_serialize(),
    {
        proof {
            lemma_auto_spec_u16_to_from_le_bytes();
            lemma_auto_spec_u32_to_from_le_bytes();
            lemma_auto_spec_u64_to_from_le_bytes();
        }
        let mut buffer: Vec<u8> = Vec::new();
        push_signature(&mut buffer);
        crate::wire::write_u32(&mut buffer, 1);
        crate::wire::write_u32(&mut buffer, self.nego_flags);

        let dom = self.domain_name.as_str().as_bytes();
        let ws = self.workstation.as_str().as_bytes();
        let dlen = dom.len();
        let wlen = ws.len();

        crate::wire::write_u16(&mut buffer, dlen as u16);
        crate::wire::write_u16(&mut buffer, dlen as u16);
        crate::wire::write_u32(&mut buffer, 0);

        crate::wire::write_u16(&mut buffer, wlen as u16);
        crate::wire::write_u16(&mut buffer, wlen as u16);
        crate::wire::write_u32(&mut buffer, dlen as u32);

        crate::wire::write_u64(&mut buffer, 0);

        buffer.extend_from_slice(dom);
        buffer.extend_from_slice(ws);
        proof {
            assert(buffer@ =~= self.spec_serialize());
        }
        buffer
    }

    /// Parses a NEGOTIATE message from wire bytes, validating the header,
    /// the declared lengths and the text encoding of the names; any
    /// malformed input yields nothing.
    pub fn deserialize(buffer: &Vec<u8>) -> (r: Option<NegotiateMessage>)
        ensures
            r is Some <==> spec_deserialize(buffer@) is Some,
            r matches Some(m) ==> {
                &&& spec_deserialize(buffer@) == Some((m.nego_flags, m.domain_name@, m.workstation@))
                &&& m.wf()
            },
    {
        let min_size: usize = 40;
        if buffer.len() < min_size {
            return None;
        }
        if !check_signature(buffer) {
            return None;
        }

        let message = crate::wire::get_u32(buffer, 8);
        if message != 1 {
            return None;
        }
        let negotiated_flags = crate::wire::get_u32(buffer, 12);

        let domain_len = crate::wire::get_u16(buffer, 16);
        let domain_offset = crate::wire::get_u32(buffer, 20);
        let workstation_len = crate::wire::get_u16(buffer, 24);
        let workstation_offset = crate::wire::get_u32(buffer, 28);

        if (domain_len as u64) + (workstation_len as u64) + 40u64 > buffer.len() as u64 {
            return None;
        }
        if 40u64 + (domain_offset as u64) + (domain_len as u64) > buffer.len() as u64 {
            return None;
        }
        if 40u64 + (workstation_offset as u64) + (workstation_len as u64) > buffer.len() as u64 {
            return None;
        }

        let dstart: usize = 40 + domain_offset as usize;
        let dom_vec = slice_to_vec(
            slice_subrange(buffer.as_slice(), dstart, dstart + domain_len as usize),
        );
        let wstart: usize = 40 + workstation_offset as usize;
        let ws_vec = slice_to_vec(
            slice_subrange(buffer.as_slice(), wstart, wstart + workstation_len as usize),
        );

        let ghost dbytes = buffer@.subrange(dstart as int, dstart as int + domain_len as int);
        let ghost wbytes = buffer@.subrange(wstart as int, wstart as int + workstation_len as int);

        let domain_str = match crate::text::string_from_utf8(dom_vec) {
            Some(s) => s,
            None => {
                return None;
            },
        };
        let workstation_str = match crate::text::string_from_utf8(ws_vec) {
            Some(s) => s,
            None => {
                return None;
            },
        };
        proof {
            decode_utf8_encode_utf8(dbytes);
            decode_utf8_encode_utf8(wbytes);
        }
        Some(NegotiateMessage {
            nego_flags: negotiated_flags,
            domain_name: domain_str,
            workstation: workstation_str,
        })
    }
}

/// Decode rejection: a buffer shorter than the 40-byte fixed header never
/// decodes.
pub proof fn lemma_decode_rejects_short(bytes: Seq<u8>)
    requires
        bytes.len() < 40,
    ensures
        spec_deserialize(bytes) is None,
{
}

/// Decode rejection: a buffer whose declared domain and workstation name
/// lengths, plus the 40-byte fixed header, exceed the buffer length never
/// decodes.
pub proof fn lemma_decode_rejects_overlong_lengths(bytes: Seq<u8>)
    requires
        bytes.len() >= 40,
        spec_u16_from_le_bytes(bytes.subrange(16, 18)) + spec_u16_from_le_bytes(
            bytes.subrange(24, 26),
        ) + 40 > bytes.len(),
    ensures
        spec_deserialize(bytes) is None,
{
}

impl From<&Credential> for NegotiateMessage {
    fn from(cred: &Credential) -> Self {
        NegotiateMessage::from_credential(cred)
    }
}

impl vstd::std_specs::convert::FromSpecImpl<&Credential> for NegotiateMessage {
    open spec fn obeys_from_spec() -> bool {
        false
    }

    open spec fn from_spec(cred: &Credential) -> Self {
        arbitrary()
    }
}

/// Round trip: decoding the canonical serialization of any valid message
/// yields exactly its flags, domain name and workstation name.
pub proof fn lemma_round_trip(m: NegotiateMessage)
    requires
        m.wf(),
    ensures
        spec_deserialize(m.spec_serialize()) == Some((m.nego_flags, m.domain_name@, m.workstation@)),
{
    lemma_auto_spec_u16_to_from_le_bytes();
    lemma_auto_spec_u32_to_from_le_bytes();
    lemma_auto_spec_u64_to_from_le_bytes();
    let dom = encode_utf8(m.domain_name@);
    let ws = encode_utf8(m.workstation@);
    let b = m.spec_serialize();
    assert(b.len() == 40 + dom.len() + ws.len());
    assert(b.subrange(0, 8) =~= spec_signature());
    assert(b.subrange(8, 12) =~= spec_u32_to_le_bytes(1));
    assert(b.subrange(12, 16) =~= spec_u32_to_le_bytes(m.nego_flags));
    assert(b.subrange(16, 18) =~= spec_u16_to_le_bytes(dom.len() as u16));
    assert(b.subrange(20, 24) =~= spec_u32_to_le_bytes(0));
    assert(b.subrange(24, 26) =~= spec_u16_to_le_bytes(ws.len() as u16));
    assert(b.subrange(28, 32) =~= spec_u32_to_le_bytes(dom.len() as u32));
    assert(b.subrange(40, 40 + dom.len() as int) =~= dom);
    assert(b.subrange(40 + dom.len() as int, 40 + dom.len() as int + ws.len() as int) =~= ws);
    encode_utf8_valid_utf8(m.domain_name@);
    encode_utf8_valid_utf8(m.workstation@);
    encode_utf8_decode_utf8(m.domain_name@);
    encode_utf8_decode_utf8(m.workstation@);
}

} // verus!
