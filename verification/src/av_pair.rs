//! The AV-pair container: an ordered, deduplicated list of attribute-value
//! pairs, serialized to and parsed from the TLV encoding carried in a
//! CHALLENGE message's TargetInfo field. Each record on the wire is a 2-byte
//! identifier, a 2-byte payload length and the payload, all little-endian;
//! the list ends with a 4-byte zero terminator. The end-of-list identifier
//! is never stored as an element but is always reported present and is
//! emitted exactly once, as the final record, during serialization.

use vstd::prelude::*;

verus! {

use vstd::bytes::{
    lemma_auto_spec_u16_to_from_le_bytes, spec_u16_from_le_bytes, spec_u16_to_le_bytes,
};
use vstd::slice::{slice_subrange, slice_to_vec};

/// The fixed enumeration of attribute kinds an AV-pair can carry.
#[derive(Debug, Copy, Clone, PartialEq, Eq, Structural)]
pub enum Id {
    MsvAvEOL,
    MsvAvNbComputerName,
    MsvAvnbDomainName,
    MsvAvDnsComputerName,
    MsvAvDnsDomainName,
    MsvAvDnsTreeName,
    MsvAvFlags,
    MsvAvTimestamp,
    MsvAvSingleHost,
    MsvAvTargetName,
    MsvAvChannelBindings,
}

/// The 16-bit wire code of an attribute kind.
pub open spec fn spec_id_code(id: Id) -> u16 {
    match id {
        Id::MsvAvEOL => 0,
        Id::MsvAvNbComputerName => 1,
        Id::MsvAvnbDomainName => 2,
        Id::MsvAvDnsComputerName => 3,
        Id::MsvAvDnsDomainName => 4,
        Id::MsvAvDnsTreeName => 5,
        Id::MsvAvFlags => 6,
        Id::MsvAvTimestamp => 7,
        Id::MsvAvSingleHost => 8,
        Id::MsvAvTargetName => 9,
        Id::MsvAvChannelBindings => 0xA,
    }
}

/// The attribute kind a 16-bit wire code names, if it names one.
pub open spec fn spec_id_from_code(code: u16) -> Option<Id> {
    if code == 0 {
        Some(Id::MsvAvEOL)
    } else if code == 1 {
        Some(Id::MsvAvNbComputerName)
    } else if code == 2 {
        Some(Id::MsvAvnbDomainName)
    } else if code == 3 {
        Some(Id::MsvAvDnsComputerName)
    } else if code == 4 {
        Some(Id::MsvAvDnsDomainName)
    } else if code == 5 {
        Some(Id::MsvAvDnsTreeName)
    } else if code == 6 {
        Some(Id::MsvAvFlags)
    } else if code == 7 {
        Some(Id::MsvAvTimestamp)
    } else if code == 8 {
        Some(Id::MsvAvSingleHost)
    } else if code == 9 {
        Some(Id::MsvAvTargetName)
    } else if code == 0xA {
        Some(Id::MsvAvChannelBindings)
    } else {
        None
    }
}

pub fn id_code(id: Id) -> (r: u16)
    ensures
        r == spec_id_code(id),
{
    match id {
        Id::MsvAvEOL => 0,
        Id::MsvAvNbComputerName => 1,
        Id::MsvAvnbDomainName => 2,
        Id::MsvAvDnsComputerName => 3,
        Id::MsvAvDnsDomainName => 4,
        Id::MsvAvDnsTreeName => 5,
        Id::MsvAvFlags => 6,
        Id::MsvAvTimestamp => 7,
        Id::MsvAvSingleHost => 8,
        Id::MsvAvTargetName => 9,
        Id::MsvAvChannelBindings => 0xA,
    }
}

pub fn id_from_code(code: u16) -> (r: Option<Id>)
    ensures
        r == spec_id_from_code(code),
{
    if code == 0 {
        Some(Id::MsvAvEOL)
    } else if code == 1 {
        Some(Id::MsvAvNbComputerName)
    } else if code == 2 {
        Some(Id::MsvAvnbDomainName)
    } else if code == 3 {
        Some(Id::MsvAvDnsComputerName)
    } else if code == 4 {
        Some(Id::MsvAvDnsDomainName)
    } else if code == 5 {
        Some(Id::MsvAvDnsTreeName)
    } else if code == 6 {
        Some(Id::MsvAvFlags)
    } else if code == 7 {
        Some(Id::MsvAvTimestamp)
    } else if code == 8 {
        Some(Id::MsvAvSingleHost)
    } else if code == 9 {
        Some(Id::MsvAvTargetName)
    } else if code == 0xA {
        Some(Id::MsvAvChannelBindings)
    } else {
        None
    }
}

pub proof fn lemma_id_code_round_trip(id: Id)
    ensures
        spec_id_from_code(spec_id_code(id)) == Some(id),
{
}

/// One attribute-value pair: an attribute kind and an opaque byte payload.
pub struct Pair {
    pub id: Id,
    pub data: Vec<u8>,
}

impl View for Pair {
    type V = (Id, Seq<u8>);

    open spec fn view(&self) -> (Id, Seq<u8>) {
        (self.id, self.data@)
    }
}

/// The container: insertion-ordered pairs with unique identifiers.
pub struct PairVec {
    pub m_pairs: Vec<Pair>,
}

impl View for PairVec {
    type V = Seq<(Id, Seq<u8>)>;

    open spec fn view(&self) -> Seq<(Id, Seq<u8>)> {
        self.m_pairs@.map_values(|p: Pair| p@)
    }
}

/// Whether the container reports the identifier present: always for the
/// end-of-list marker, otherwise exactly when a stored pair carries it.
pub open spec fn spec_contains(s: Seq<(Id, Seq<u8>)>, id: Id) -> bool {
    id == Id::MsvAvEOL || exists|i: int| 0 <= i < s.len() && s[i].0 == id
}

/// The insert policy: a pair whose identifier is already present, or whose
/// payload exceeds the 16-bit length ceiling, is silently dropped; any other
/// pair is appended.
pub open spec fn spec_add(s: Seq<(Id, Seq<u8>)>, id: Id, data: Seq<u8>) -> Seq<(Id, Seq<u8>)> {
    if spec_contains(s, id) || data.len() > 0xFFFF {
        s
    } else {
        s.push((id, data))
    }
}

/// The wire encoding of one stored pair.
pub open spec fn spec_enc_record(id: Id, data: Seq<u8>) -> Seq<u8> {
    spec_u16_to_le_bytes(spec_id_code(id)) + spec_u16_to_le_bytes(data.len() as u16) + data
}

/// The wire encoding of the stored pairs, in insertion order.
pub open spec fn spec_enc_pairs(s: Seq<(Id, Seq<u8>)>) -> Seq<u8>
    decreases s.len(),
{
    if s.len() == 0 {
        seq![]
    } else {
        spec_enc_record(s[0].0, s[0].1) + spec_enc_pairs(s.drop_first())
    }
}

/// The 4-byte zero terminator: identifier 0, length 0.
pub open spec fn spec_terminator() -> Seq<u8> {
    spec_u16_to_le_bytes(0) + spec_u16_to_le_bytes(0)
}

/// The canonical serialization: every stored pair in insertion order, then
/// the terminator.
pub open spec fn spec_encode(s: Seq<(Id, Seq<u8>)>) -> Seq<u8> {
    spec_enc_pairs(s) + spec_terminator()
}

/// Scans raw records of [2-byte id][2-byte len][payload] until the zero
/// terminator; fails when the buffer is exhausted first or a record's
/// declared length runs past the end.
pub open spec fn spec_parse_records(bytes: Seq<u8>) -> Option<Seq<(u16, Seq<u8>)>>
    decreases bytes.len(),
{
    if bytes.len() < 4 {
        None
    } else {
        let id = spec_u16_from_le_bytes(bytes.subrange(0, 2));
        let len = spec_u16_from_le_bytes(bytes.subrange(2, 4));
        if id == 0 && len == 0 {
            Some(seq![])
        } else if bytes.len() < 4 + len {
            None
        } else {
            match spec_parse_records(bytes.subrange(4 + len as int, bytes.len() as int)) {
                None => None,
                Some(rest) => Some(seq![(id, bytes.subrange(4, 4 + len as int))] + rest),
            }
        }
    }
}

/// Replays parsed raw records through the insert policy; a record whose code
/// names no known attribute kind is silently dropped.
pub open spec fn spec_absorb(s: Seq<(Id, Seq<u8>)>, recs: Seq<(u16, Seq<u8>)>) -> Seq<
    (Id, Seq<u8>),
>
    decreases recs.len(),
{
    if recs.len() == 0 {
        s
    } else {
        match spec_id_from_code(recs[0].0) {
            Some(id) => spec_absorb(spec_add(s, id, recs[0].1), recs.drop_first()),
            None => spec_absorb(s, recs.drop_first()),
        }
    }
}

/// The full decode: fails on fewer than 8 bytes (minimum plausible framing)
/// or a malformed record scan; otherwise yields the container the records
/// build under the insert policy.
pub open spec fn spec_decode(bytes: Seq<u8>) -> Option<Seq<(Id, Seq<u8>)>> {
    if bytes.len() < 8 {
        None
    } else {
        match spec_parse_records(bytes) {
            None => None,
            Some(recs) => Some(spec_absorb(seq![], recs)),
        }
    }
}

impl PairVec {
    /// Stored pairs have unique identifiers, never the end-of-list marker,
    /// and payloads within the 16-bit length ceiling.
    pub open spec fn wf(self) -> bool {
        &&& forall|i: int, j: int| 0 <= i < j < self@.len() ==> self@[i].0 != self@[j].0
        &&& forall|i: int| 0 <= i < self@.len() ==> self@[i].0 != Id::MsvAvEOL
        &&& forall|i: int| 0 <= i < self@.len() ==> self@[i].1.len() <= 0xFFFF
    }

    pub fn new() -> (r: PairVec)
        ensures
            r@ == Seq::<(Id, Seq<u8>)>::empty(),
            r.wf(),
    {
        let r = PairVec { m_pairs: Vec::new() };
        proof {
            assert(r@ =~= Seq::<(Id, Seq<u8>)>::empty());
        }
        r
    }

    /// Reports whether a pair with this identifier is present; the
    /// end-of-list marker is always reported present, since serialization
    /// always emits it.
    pub fn query(&self, id: Id) -> (r: bool)
        ensures
            r == spec_contains(self@, id),
    {
        if id == Id::MsvAvEOL {
            return true;
        }
        let mut i: usize = 0;
        while i < self.m_pairs.len()
            invariant
                i <= self@.len(),
                self@.len() == self.m_pairs@.len(),
                forall|j: int| 0 <= j < i ==> self@[j].0 != id,
            decreases self@.len() - i,
        {
            if self.m_pairs[i].id == id {
                assert(self@[i as int].0 == id);
                return true;
            }
            i = i + 1;
        }
        false
    }

    /// Inserts a copy of the pair under the dedup and size-limit policy: a
    /// duplicate identifier or an oversize payload is a silent no-op.
    pub fn add(&mut self, pair: &Pair)
        ensures
            final(self)@ == spec_add(old(self)@, pair.id, pair.data@),
            old(self).wf() ==> final(self).wf(),
    {
        if !self.query(pair.id) && pair.data.len() <= 65535 {
            let local_pair = Pair { id: pair.id, data: slice_to_vec(pair.data.as_slice()) };
            self.m_pairs.push(local_pair);
            proof {
                assert(self@ =~= old(self)@.push((pair.id, pair.data@)));
            }
        }
    }

    /// Serializes the stored pairs in insertion order: 2-byte identifier,
    /// 2-byte payload length, payload bytes for each, then the 4-byte zero
    /// terminator. If the container is empty, the output is the terminator
    /// alone.
    pub fn serialize(&self) -> (r: Vec<u8>)
        requires
            self.wf(),
        ensures
            r@ == spec_encode(self@),
    {
        let mut local_vec: Vec<u8> = Vec::new();
        let mut i: usize = 0;
        while i < self.m_pairs.len()
            invariant
                self.wf(),
                i <= self@.len(),
                self@.len() == self.m_pairs@.len(),
                local_vec@ == spec_enc_pairs(self@.take(i as int)),
            decreases self@.len() - i,
        {
            let pair = &self.m_pairs[i];
            crate::wire::write_u16(&mut local_vec, id_code(pair.id));
            crate::wire::write_u16(&mut local_vec, pair.data.len() as u16);
            let mut payload = slice_to_vec(pair.data.as_slice());
            local_vec.append(&mut payload);
            proof {
                lemma_enc_pairs_push(self@.take(i as int), self@[i as int]);
                assert(self@.take(i as int + 1) =~= self@.take(i as int).push(self@[i as int]));
                assert(local_vec@ =~= spec_enc_pairs(self@.take(i as int + 1)));
            }
            i = i + 1;
        }
        crate::wire::write_u16(&mut local_vec, 0);
        crate::wire::write_u16(&mut local_vec, 0);
        proof {
            assert(self@.take(self@.len() as int) =~= self@);
            assert(local_vec@ =~= spec_encode(self@));
        }
        local_vec
    }

    /// Parses the TLV block, replacing the container's contents on success;
    /// on a malformed block the container is left unchanged and a fault is
    /// returned.
    pub fn deserialize(&mut self, data: &Vec<u8>) -> (r: Result<(), u32>)
        ensures
            r is Ok <==> spec_decode(data@) is Some,
            r is Ok ==> Some(final(self)@) == spec_decode(data@) && final(self).wf(),
            r is Err ==> *final(self) == *old(self) && r == Err::<(), u32>(0u32),
    {
        if data.len() < 8 {
            return Err(0);
        }
        match Self::parse_records(data) {
            Some(pv) => {
                *self = pv;
                Ok(())
            },
            None => Err(0),
        }
    }

    /// Scans the raw records, building a container under the insert policy.
    fn parse_records(data: &Vec<u8>) -> (r: Option<PairVec>)
        ensures
            r is Some <==> spec_parse_records(data@) is Some,
            r matches Some(pv) ==> {
                &&& spec_parse_records(data@) matches Some(recs) && pv@ == spec_absorb(
                    Seq::empty(),
                    recs,
                )
                &&& pv.wf()
            },
    {
        let mut acc = PairVec::new();
        let mut pos: usize = 0;
        proof {
            assert(data@.subrange(0, data@.len() as int) =~= data@);
        }
        loop
            invariant
                pos <= data@.len(),
                acc.wf(),
                (match spec_parse_records(data@.subrange(pos as int, data@.len() as int)) {
                    Some(recs) => spec_parse_records(data@) matches Some(all) && spec_absorb(
                        Seq::empty(),
                        all,
                    ) == spec_absorb(acc@, recs),
                    None => spec_parse_records(data@) is None,
                }),
            decreases data@.len() - pos,
        {
            let ghost tail = data@.subrange(pos as int, data@.len() as int);
            let mut cursor = pos;
            let code = match crate::wire::read_u16(data, &mut cursor) {
                Some(v) => v,
                None => {
                    assert(tail.len() < 4);
                    return None;
                },
            };
            let len = match crate::wire::read_u16(data, &mut cursor) {
                Some(v) => v,
                None => {
                    assert(tail.len() < 4);
                    return None;
                },
            };
            proof {
                assert(tail.subrange(0, 2) =~= data@.subrange(pos as int, pos as int + 2));
                assert(tail.subrange(2, 4) =~= data@.subrange(pos as int + 2, pos as int + 4));
                assert(spec_u16_from_le_bytes(tail.subrange(0, 2)) == code);
                assert(spec_u16_from_le_bytes(tail.subrange(2, 4)) == len);
            }
            if code == 0 && len == 0 {
                proof {
                    assert(spec_parse_records(tail) == Some(Seq::<(u16, Seq<u8>)>::empty()));
                    assert(spec_absorb(acc@, Seq::<(u16, Seq<u8>)>::empty()) == acc@);
                }
                return Some(acc);
            }
            if data.len() - cursor < len as usize {
                proof {
                    assert(tail.len() < 4 + len);
                    assert(spec_parse_records(tail) is None);
                }
                return None;
            }
            let payload = slice_to_vec(slice_subrange(data.as_slice(), cursor, cursor + len as usize));
            let ghost tail2 = data@.subrange(pos as int + 4 + len as int, data@.len() as int);
            let ghost rec = (code, tail.subrange(4, 4 + len as int));
            proof {
                assert(tail.subrange(4, 4 + len as int) =~= payload@);
                assert(tail.subrange(4 + len as int, tail.len() as int) =~= tail2);
            }
            let ghost acc0 = acc@;
            match id_from_code(code) {
                Some(id) => {
                    acc.add(&Pair { id, data: payload });
                },
                None => {},
            }
            proof {
                match spec_parse_records(tail2) {
                    Some(rest) => {
                        assert(spec_parse_records(tail) == Some(seq![rec] + rest));
                        let recs = seq![rec] + rest;
                        assert(recs[0] == rec);
                        assert(recs.drop_first() =~= rest);
                        assert(spec_absorb(acc0, recs) == spec_absorb(acc@, rest));
                    },
                    None => {
                        assert(spec_parse_records(tail) is None);
                    },
                }
            }
            pos = cursor + len as usize;
        }
    }
}

/// The raw (code, payload) records that serializing the stored pairs puts
/// on the wire, in order.
pub open spec fn spec_raw_records(s: Seq<(Id, Seq<u8>)>) -> Seq<(u16, Seq<u8>)> {
    s.map_values(|p: (Id, Seq<u8>)| (spec_id_code(p.0), p.1))
}

proof fn lemma_parse_encoded(s: Seq<(Id, Seq<u8>)>)
    requires
        forall|i: int| 0 <= i < s.len() ==> s[i].0 != Id::MsvAvEOL,
        forall|i: int| 0 <= i < s.len() ==> s[i].1.len() <= 0xFFFF,
    ensures
        spec_parse_records(spec_encode(s)) == Some(spec_raw_records(s)),
    decreases s.len(),
{
    lemma_auto_spec_u16_to_from_le_bytes();
    let bytes = spec_encode(s);
    if s.len() == 0 {
        assert(bytes =~= spec_terminator());
        assert(bytes.subrange(0, 2) =~= spec_u16_to_le_bytes(0));
        assert(bytes.subrange(2, 4) =~= spec_u16_to_le_bytes(0));
        assert(spec_raw_records(s) =~= Seq::<(u16, Seq<u8>)>::empty());
    } else {
        let id = s[0].0;
        let d = s[0].1;
        let code = spec_id_code(id);
        let rest_bytes = spec_encode(s.drop_first());
        assert(bytes =~= spec_enc_record(id, d) + rest_bytes);
        assert(bytes.subrange(0, 2) =~= spec_u16_to_le_bytes(code));
        assert(bytes.subrange(2, 4) =~= spec_u16_to_le_bytes(d.len() as u16));
        assert(code != 0);
        assert(d.len() as u16 as int == d.len());
        assert(4 + d.len() <= bytes.len());
        assert(bytes.subrange(4, 4 + d.len() as int) =~= d);
        assert(bytes.subrange(4 + d.len() as int, bytes.len() as int) =~= rest_bytes);
        lemma_parse_encoded(s.drop_first());
        assert(spec_raw_records(s.drop_first()) =~= spec_raw_records(s).drop_first());
        assert(spec_raw_records(s)[0] == (code, d));
        assert(seq![(code, d)] + spec_raw_records(s).drop_first() =~= spec_raw_records(s));
    }
}

proof fn lemma_absorb_all(acc: Seq<(Id, Seq<u8>)>, s: Seq<(Id, Seq<u8>)>)
    requires
        forall|i: int, j: int| 0 <= i < j < s.len() ==> s[i].0 != s[j].0,
        forall|i: int| 0 <= i < s.len() ==> s[i].0 != Id::MsvAvEOL,
        forall|i: int| 0 <= i < s.len() ==> s[i].1.len() <= 0xFFFF,
        forall|i: int| 0 <= i < s.len() ==> !spec_contains(acc, #[trigger] s[i].0),
    ensures
        spec_absorb(acc, spec_raw_records(s)) == acc + s,
    decreases s.len(),
{
    if s.len() == 0 {
        assert(spec_raw_records(s).len() == 0);
        assert(acc + s =~= acc);
    } else {
        let p = s[0];
        lemma_id_code_round_trip(p.0);
        let raw = spec_raw_records(s);
        assert(raw[0] == (spec_id_code(p.0), p.1));
        assert(raw.drop_first() =~= spec_raw_records(s.drop_first()));
        assert(!spec_contains(acc, s[0].0));
        assert(spec_add(acc, p.0, p.1) == acc.push(p));
        assert forall|i: int|
            0 <= i < s.drop_first().len() implies !spec_contains(
            acc.push(p),
            #[trigger] s.drop_first()[i].0,
        ) by {
            let x = s.drop_first()[i].0;
            assert(s.drop_first()[i] == s[i + 1]);
            assert(s[i + 1].0 != s[0].0);
            assert(!spec_contains(acc, s[i + 1].0));
            if spec_contains(acc.push(p), x) {
                let k = choose|k: int| 0 <= k < acc.push(p).len() && acc.push(p)[k].0 == x;
                if k < acc.len() {
                    assert(acc[k].0 == x);
                    assert(spec_contains(acc, x));
                } else {
                    assert(acc.push(p)[k] == p);
                }
                assert(false);
            }
        }
        assert forall|i: int, j: int|
            0 <= i < j < s.drop_first().len() implies s.drop_first()[i].0 != s.drop_first()[j].0 by {
            assert(s.drop_first()[i] == s[i + 1]);
            assert(s.drop_first()[j] == s[j + 1]);
        }
        lemma_absorb_all(acc.push(p), s.drop_first());
        assert(acc.push(p) + s.drop_first() =~= acc + s);
    }
}

/// The wire size of a raw record list: 4 header bytes plus the payload for
/// each record.
pub open spec fn spec_recs_size(recs: Seq<(u16, Seq<u8>)>) -> int
    decreases recs.len(),
{
    if recs.len() == 0 {
        0
    } else {
        4 + recs[0].1.len() + spec_recs_size(recs.drop_first())
    }
}

proof fn lemma_parse_records_size(bytes: Seq<u8>)
    requires
        spec_parse_records(bytes) is Some,
    ensures
        spec_recs_size(spec_parse_records(bytes)->Some_0) + 4 <= bytes.len(),
    decreases bytes.len(),
{
    let id = spec_u16_from_le_bytes(bytes.subrange(0, 2));
    let len = spec_u16_from_le_bytes(bytes.subrange(2, 4));
    if id == 0 && len == 0 {
    } else {
        let tail2 = bytes.subrange(4 + len as int, bytes.len() as int);
        lemma_parse_records_size(tail2);
        let rest = spec_parse_records(tail2)->Some_0;
        let recs = spec_parse_records(bytes)->Some_0;
        assert(recs == seq![(id, bytes.subrange(4, 4 + len as int))] + rest);
        assert(recs.drop_first() =~= rest);
        assert(recs[0].1.len() == len);
    }
}

proof fn lemma_absorb_enc_len(acc: Seq<(Id, Seq<u8>)>, recs: Seq<(u16, Seq<u8>)>)
    requires
        spec_recs_size(recs) >= 0,
    ensures
        spec_enc_pairs(spec_absorb(acc, recs)).len() <= spec_enc_pairs(acc).len()
            + spec_recs_size(recs),
    decreases recs.len(),
{
    lemma_auto_spec_u16_to_from_le_bytes();
    if recs.len() == 0 {
    } else {
        let rec = recs[0];
        proof_recs_size_nonneg(recs.drop_first());
        match spec_id_from_code(rec.0) {
            Some(id) => {
                let step = spec_add(acc, id, rec.1);
                if spec_contains(acc, id) || rec.1.len() > 0xFFFF {
                    assert(step == acc);
                } else {
                    lemma_enc_pairs_push(acc, (id, rec.1));
                    assert(spec_enc_pairs(step).len() == spec_enc_pairs(acc).len() + 4
                        + rec.1.len());
                }
                lemma_absorb_enc_len(step, recs.drop_first());
            },
            None => {
                lemma_absorb_enc_len(acc, recs.drop_first());
            },
        }
    }
}

proof fn proof_recs_size_nonneg(recs: Seq<(u16, Seq<u8>)>)
    ensures
        spec_recs_size(recs) >= 0,
    decreases recs.len(),
{
    if recs.len() == 0 {
    } else {
        proof_recs_size_nonneg(recs.drop_first());
    }
}

/// A decoded container re-serializes into no more bytes than it was decoded
/// from, so a container parsed from a 16-bit-length field still fits one.
pub proof fn lemma_decode_encode_len(bytes: Seq<u8>)
    requires
        spec_decode(bytes) is Some,
    ensures
        spec_encode(spec_decode(bytes)->Some_0).len() <= bytes.len(),
{
    lemma_auto_spec_u16_to_from_le_bytes();
    let recs = spec_parse_records(bytes)->Some_0;
    lemma_parse_records_size(bytes);
    proof_recs_size_nonneg(recs);
    lemma_absorb_enc_len(Seq::empty(), recs);
    assert(spec_enc_pairs(Seq::<(Id, Seq<u8>)>::empty()).len() == 0);
    assert(spec_terminator().len() == 4);
}

/// Round trip: decoding the canonical serialization of a well-formed,
/// nonempty container yields the same (id, payload) pairs in the same
/// insertion order; the terminator is never exposed as a stored element.
pub proof fn lemma_round_trip(c: PairVec)
    requires
        c.wf(),
        c@.len() >= 1,
    ensures
        spec_decode(spec_encode(c@)) == Some(c@),
{
    lemma_auto_spec_u16_to_from_le_bytes();
    lemma_parse_encoded(c@);
    lemma_absorb_all(Seq::empty(), c@);
    assert(Seq::<(Id, Seq<u8>)>::empty() + c@ =~= c@);
    assert(spec_enc_record(c@[0].0, c@[0].1).len() >= 4);
    assert(spec_encode(c@).len() >= 8);
}

/// Idempotent insert: once a pair with an identifier has been accepted,
/// inserting another pair with the same identifier changes nothing, whatever
/// its payload; only the first is retained.
pub proof fn lemma_add_idempotent(
    s: Seq<(Id, Seq<u8>)>,
    id: Id,
    data1: Seq<u8>,
    data2: Seq<u8>,
)
    requires
        data1.len() <= 0xFFFF,
    ensures
        spec_add(spec_add(s, id, data1), id, data2) == spec_add(s, id, data1),
{
    if !spec_contains(s, id) {
        assert(spec_add(s, id, data1) == s.push((id, data1)));
        assert(s.push((id, data1))[s.len() as int].0 == id);
        assert(spec_contains(s.push((id, data1)), id));
    }
}

proof fn lemma_enc_pairs_push(s: Seq<(Id, Seq<u8>)>, p: (Id, Seq<u8>))
    ensures
        spec_enc_pairs(s.push(p)) == spec_enc_pairs(s) + spec_enc_record(p.0, p.1),
    decreases s.len(),
{
    if s.len() == 0 {
        assert(spec_enc_pairs(Seq::<(Id, Seq<u8>)>::empty()) == Seq::<u8>::empty());
        assert(s.push(p)[0] == p);
        assert(s.push(p).drop_first() =~= Seq::<(Id, Seq<u8>)>::empty());
        assert(spec_enc_pairs(s.push(p)) == spec_enc_record(p.0, p.1) + Seq::<u8>::empty());
        assert(spec_enc_pairs(s.push(p)) =~= spec_enc_pairs(s) + spec_enc_record(p.0, p.1));
    } else {
        lemma_enc_pairs_push(s.drop_first(), p);
        assert(s.push(p).drop_first() =~= s.drop_first().push(p));
        assert(spec_enc_pairs(s.push(p)) =~= spec_enc_pairs(s) + spec_enc_record(p.0, p.1));
    }
}

} // verus!
