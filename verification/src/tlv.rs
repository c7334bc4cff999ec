//! The closed set of TLV (tag-length-value) metadata records and their
//! fixed-size 8-byte codec.
//!
//! Every record encodes to exactly 8 bytes: a tag byte, a length byte
//! counting 8-byte slots (always 1 in this version of the format), and a
//! 6-byte variant-specific value.

use vstd::prelude::*;

use crate::endian::be16_bytes;
use crate::endian::be16_join;
use crate::endian::be32_bytes;
use crate::endian::be32_join;
use crate::endian::be48_bytes;
use crate::endian::be48_join;
use crate::endian::lemma_be16_round_trip;
use crate::endian::lemma_be32_round_trip;
use crate::endian::lemma_be48_round_trip;
use crate::endian::push_be16;
use crate::endian::push_be32;
use crate::endian::push_be48;
use crate::endian::read_be16;
use crate::endian::read_be32;
use crate::endian::read_be48;
use crate::error::PacketError;

verus! {

broadcast use vstd::array::group_array_axioms;

/// One metadata record. The set of variants is closed: a tag byte outside
/// this table is a decode failure, not an extension point.
#[derive(Debug, Clone, PartialEq, Eq)]
pub enum TLV {
    /// Tag 0x11: the low 48 bits of a 64-bit timestamp.
    Timestamp(u64),
    /// Tag 0x00: six zero value bytes.
    Null,
    /// Tag 0x22: three 16-bit integers describing the payload shape.
    Payloadshape([u16; 3]),
    /// Tag 0x23: two reserved zero bytes and a 32-bit channel offset.
    ChannelOffset(u32),
    /// Tag 0x29: six raw label bytes; the length byte must read 1.
    PayloadLabel6Char([u8; 6]),
}

/// The tag byte of a record.
pub open spec fn spec_tag(t: TLV) -> u8 {
    match t {
        TLV::Timestamp(_) => 0x11,
        TLV::Null => 0x00,
        TLV::Payloadshape(_) => 0x22,
        TLV::ChannelOffset(_) => 0x23,
        TLV::PayloadLabel6Char(_) => 0x29,
    }
}

/// A record is valid when every field fits the bits its encoding keeps.
/// Only the timestamp can hold more: its value must fit in 48 bits.
pub open spec fn spec_valid(t: TLV) -> bool {
    match t {
        TLV::Timestamp(x) => x < 0x1_0000_0000_0000,
        _ => true,
    }
}

/// The six value bytes of a record.
pub open spec fn spec_value_bytes(t: TLV) -> Seq<u8> {
    match t {
        TLV::Timestamp(x) => be48_bytes(x),
        TLV::Null => seq![0u8, 0u8, 0u8, 0u8, 0u8, 0u8],
        TLV::Payloadshape(s) => be16_bytes(s[0]) + be16_bytes(s[1]) + be16_bytes(s[2]),
        TLV::ChannelOffset(x) => seq![0u8, 0u8] + be32_bytes(x),
        TLV::PayloadLabel6Char(b) => b@,
    }
}

/// The full 8-byte encoding of a record: tag, length-in-slots (1), value.
pub open spec fn spec_encode(t: TLV) -> Seq<u8> {
    seq![spec_tag(t), 1u8] + spec_value_bytes(t)
}

/// What decoding an 8-byte slot yields: the record whose tag and value
/// bytes stand in the slot, or the failure the slot forces.
pub open spec fn spec_decode8(b: Seq<u8>) -> Result<TLV, PacketError>
    recommends
        b.len() == 8,
{
    if b[0] == 0x00 {
        Ok(TLV::Null)
    } else if b[0] == 0x11 {
        Ok(TLV::Timestamp(be48_join(b[2], b[3], b[4], b[5], b[6], b[7])))
    } else if b[0] == 0x22 {
        Ok(
            TLV::Payloadshape(
                [be16_join(b[2], b[3]), be16_join(b[4], b[5]), be16_join(b[6], b[7])],
            ),
        )
    } else if b[0] == 0x23 {
        Ok(TLV::ChannelOffset(be32_join(b[4], b[5], b[6], b[7])))
    } else if b[0] == 0x29 {
        if b[1] == 1 {
            Ok(TLV::PayloadLabel6Char([b[2], b[3], b[4], b[5], b[6], b[7]]))
        } else {
            Err(PacketError::UnsupportedTlvLength)
        }
    } else {
        Err(PacketError::UnknownTlvTag)
    }
}

/// What one decode step yields on a buffer: `None` when fewer than 8 bytes
/// remain (the normal end of a TLV section, not a failure), otherwise the
/// outcome of decoding the first 8-byte slot.
pub open spec fn spec_decode_step(b: Seq<u8>) -> Result<Option<TLV>, PacketError> {
    if b.len() < 8 {
        Ok(None)
    } else {
        match spec_decode8(b.take(8)) {
            Ok(t) => Ok(Some(t)),
            Err(e) => Err(e),
        }
    }
}

/// What decoding a whole TLV section yields: the records of its 8-byte
/// slots front to back, stopping at the first incomplete slot, or the
/// first failure.
pub open spec fn spec_decode_seq(b: Seq<u8>) -> Result<Seq<TLV>, PacketError>
    decreases b.len(),
{
    if b.len() < 8 {
        Ok(Seq::empty())
    } else {
        match spec_decode8(b.take(8)) {
            Ok(t) => match spec_decode_seq(b.skip(8)) {
                Ok(rest) => Ok(seq![t] + rest),
                Err(e) => Err(e),
            },
            Err(e) => Err(e),
        }
    }
}

/// The concatenated encodings of an ordered sequence of records.
pub open spec fn spec_encode_seq(ts: Seq<TLV>) -> Seq<u8>
    decreases ts.len(),
{
    if ts.len() == 0 {
        Seq::empty()
    } else {
        spec_encode(ts[0]) + spec_encode_seq(ts.skip(1))
    }
}

/// A section decode outcome with `v` already decoded in front of it.
spec fn spec_with_prefix(v: Seq<TLV>, r: Result<Seq<TLV>, PacketError>) -> Result<
    Seq<TLV>,
    PacketError,
> {
    match r {
        Ok(s) => Ok(v + s),
        Err(e) => Err(e),
    }
}

/// Every record of a sequence is valid.
pub open spec fn spec_all_valid(ts: Seq<TLV>) -> bool {
    forall|i: int| 0 <= i < ts.len() ==> spec_valid(#[trigger] ts[i])
}

/// A sequence of records encodes to 8 bytes per record.
pub proof fn lemma_encode_seq_len(ts: Seq<TLV>)
    ensures
        spec_encode_seq(ts).len() == 8 * ts.len(),
    decreases ts.len(),
{
    if ts.len() > 0 {
        lemma_encode_seq_len(ts.skip(1));
    }
}

/// Appending one record to a sequence appends its encoding.
pub proof fn lemma_encode_seq_snoc(ts: Seq<TLV>, x: TLV)
    ensures
        spec_encode_seq(ts.push(x)) == spec_encode_seq(ts) + spec_encode(x),
    decreases ts.len(),
{
    if ts.len() == 0 {
        assert(ts.push(x)[0] == x);
        assert(ts.push(x).skip(1) =~= Seq::<TLV>::empty());
        assert(spec_encode_seq(Seq::<TLV>::empty()) == Seq::<u8>::empty());
        assert(spec_encode(x) + Seq::<u8>::empty() =~= spec_encode(x));
        assert(Seq::<u8>::empty() + spec_encode(x) =~= spec_encode(x));
    } else {
        assert(ts.push(x)[0] == ts[0]);
        assert(ts.push(x).skip(1) =~= ts.skip(1).push(x));
        lemma_encode_seq_snoc(ts.skip(1), x);
        assert(spec_encode(ts[0]) + (spec_encode_seq(ts.skip(1)) + spec_encode(x)) =~= (
        spec_encode(ts[0]) + spec_encode_seq(ts.skip(1))) + spec_encode(x));
    }
}

/// Appends the encodings of all records to `buf`, in order.
pub fn write_tlvs(tlvs: &Vec<TLV>, buf: &mut Vec<u8>)
    ensures
        final(buf)@ == old(buf)@ + spec_encode_seq(tlvs@),
{
    let ghost start = buf@;
    proof {
        assert(tlvs@.take(0) =~= Seq::<TLV>::empty());
        assert(start + spec_encode_seq(tlvs@.take(0)) =~= start);
    }
    let mut i: usize = 0;
    while i < tlvs.len()
        invariant
            i <= tlvs.len(),
            buf@ == start + spec_encode_seq(tlvs@.take(i as int)),
        decreases tlvs.len() - i,
    {
        let ghost before = buf@;
        tlvs[i].write_to(buf);
        proof {
            assert(tlvs@.take(i as int).push(tlvs@[i as int]) =~= tlvs@.take(i as int + 1));
            lemma_encode_seq_snoc(tlvs@.take(i as int), tlvs@[i as int]);
            assert((start + spec_encode_seq(tlvs@.take(i as int))) + spec_encode(
                tlvs@[i as int],
            ) =~= start + spec_encode_seq(tlvs@.take(i as int + 1)));
        }
        i = i + 1;
    }
    proof {
        assert(tlvs@.take(tlvs@.len() as int) =~= tlvs@);
    }
}

/// Decoding the encoding of a sequence of valid records gives the
/// sequence back.
pub proof fn lemma_decode_seq_encode(ts: Seq<TLV>)
    requires
        spec_all_valid(ts),
    ensures
        spec_decode_seq(spec_encode_seq(ts)) == Ok::<Seq<TLV>, PacketError>(ts),
    decreases ts.len(),
{
    let b = spec_encode_seq(ts);
    lemma_encode_seq_len(ts);
    if ts.len() == 0 {
        assert(b.len() == 0);
        assert(ts =~= Seq::<TLV>::empty());
    } else {
        assert(b.take(8) =~= spec_encode(ts[0]));
        assert(b.skip(8) =~= spec_encode_seq(ts.skip(1)));
        lemma_decode8_encode(ts[0]);
        lemma_decode_seq_encode(ts.skip(1));
        assert(seq![ts[0]] + ts.skip(1) =~= ts);
    }
}

/// Every defined record encodes to exactly 8 bytes.
pub proof fn lemma_encode_len(t: TLV)
    ensures
        spec_encode(t).len() == 8,
{
}

/// Decoding the encoding of a valid record gives the record back.
pub proof fn lemma_decode8_encode(t: TLV)
    requires
        spec_valid(t),
    ensures
        spec_decode8(spec_encode(t)) == Ok::<TLV, PacketError>(t),
{
    let b = spec_encode(t);
    match t {
        TLV::Timestamp(x) => {
            lemma_be48_round_trip(x);
        },
        TLV::Null => {
        },
        TLV::Payloadshape(s) => {
            lemma_be16_round_trip(s[0]);
            lemma_be16_round_trip(s[1]);
            lemma_be16_round_trip(s[2]);
            let d = [be16_join(b[2], b[3]), be16_join(b[4], b[5]), be16_join(b[6], b[7])];
            assert(d =~= s);
        },
        TLV::ChannelOffset(x) => {
            lemma_be32_round_trip(x);
        },
        TLV::PayloadLabel6Char(l) => {
            let d = [b[2], b[3], b[4], b[5], b[6], b[7]];
            assert(d =~= l);
        },
    }
}

impl TLV {
    /// The length of the record in 8-byte slots; always 1 in this version
    /// of the format.
    pub fn len8bytes(&self) -> (n: u8)
        ensures
            n == 1,
    {
        match self {
            TLV::Timestamp(_) => 1,
            TLV::Null => 1,
            TLV::Payloadshape(_) => 1,
            TLV::ChannelOffset(_) => 1,
            TLV::PayloadLabel6Char(_) => 1,
        }
    }

    /// The encoded length of the record in bytes.
    pub fn len(&self) -> (n: usize)
        ensures
            n == spec_encode(*self).len(),
            n == 8,
    {
        (self.len8bytes() * 8) as usize
    }

    /// The tag byte of the record.
    pub fn tag(&self) -> (tag: u8)
        ensures
            tag == spec_tag(*self),
    {
        match self {
            TLV::Timestamp(_) => 0x11,
            TLV::Null => 0x00,
            TLV::Payloadshape(_) => 0x22,
            TLV::ChannelOffset(_) => 0x23,
            TLV::PayloadLabel6Char(_) => 0x29,
        }
    }

    /// Appends the 8-byte encoding of the record to `buf`.
    pub fn write_to(&self, buf: &mut Vec<u8>)
        ensures
            final(buf)@ == old(buf)@ + spec_encode(*self),
    {
        buf.push(self.tag());
        buf.push(self.len8bytes());
        match self {
            TLV::Timestamp(x) => {
                push_be48(buf, *x);
            },
            TLV::Null => {
                buf.push(0);
                buf.push(0);
                buf.push(0);
                buf.push(0);
                buf.push(0);
                buf.push(0);
            },
            TLV::Payloadshape(s) => {
                push_be16(buf, s[0]);
                push_be16(buf, s[1]);
                push_be16(buf, s[2]);
            },
            TLV::ChannelOffset(x) => {
                buf.push(0);
                buf.push(0);
                push_be32(buf, *x);
            },
            TLV::PayloadLabel6Char(l) => {
                buf.push(l[0]);
                buf.push(l[1]);
                buf.push(l[2]);
                buf.push(l[3]);
                buf.push(l[4]);
                buf.push(l[5]);
            },
        }
        proof {
            assert(buf@ =~= old(buf)@ + spec_encode(*self));
        }
    }

    /// One decode step on the front of `buf`: `Ok((None, buf))` when fewer
    /// than 8 bytes remain, otherwise the record of the first 8-byte slot
    /// and the rest of the buffer, or the failure the slot forces.
    pub fn try_from_bytes<'a>(buf: &'a [u8]) -> (r: Result<
        (Option<TLV>, &'a [u8]),
        PacketError,
    >)
        ensures
            match r {
                Ok(p) => {
                    &&& spec_decode_step(buf@) == Ok::<Option<TLV>, PacketError>(p.0)
                    &&& p.1@ == if p.0 is Some {
                        buf@.skip(8)
                    } else {
                        buf@
                    }
                },
                Err(e) => spec_decode_step(buf@) == Err::<Option<TLV>, PacketError>(e),
            },
    {
        if buf.len() < 8 {
            return Ok((None, buf));
        }
        let tag = buf[0];
        let rest = vstd::slice::slice_subrange(buf, 8, buf.len());
        let tlv: TLV = match tag {
            0x00 => TLV::Null,
            0x11 => TLV::Timestamp(read_be48(buf[2], buf[3], buf[4], buf[5], buf[6], buf[7])),
            0x22 => TLV::Payloadshape(
                [read_be16(buf[2], buf[3]), read_be16(buf[4], buf[5]), read_be16(buf[6], buf[7])],
            ),
            0x23 => TLV::ChannelOffset(read_be32(buf[4], buf[5], buf[6], buf[7])),
            0x29 => {
                if buf[1] == 1 {
                    TLV::PayloadLabel6Char([buf[2], buf[3], buf[4], buf[5], buf[6], buf[7]])
                } else {
                    return Err(PacketError::UnsupportedTlvLength);
                }
            },
            _ => {
                return Err(PacketError::UnknownTlvTag);
            },
        };
        Ok((Some(tlv), rest))
    }

    /// Decodes a whole TLV section front to back: one record per 8-byte
    /// slot, stopping at the first incomplete slot. The first failing slot
    /// aborts the whole decode.
    pub fn vec_from_bytes(buf: &[u8]) -> (r: Result<Vec<TLV>, PacketError>)
        ensures
            match r {
                Ok(v) => spec_decode_seq(buf@) == Ok::<Seq<TLV>, PacketError>(v@),
                Err(e) => spec_decode_seq(buf@) == Err::<Seq<TLV>, PacketError>(e),
            },
    {
        let mut v: Vec<TLV> = Vec::new();
        let mut rest: &[u8] = buf;
        proof {
            if let Ok(s) = spec_decode_seq(buf@) {
                assert(Seq::<TLV>::empty() + s =~= s);
            }
        }
        loop
            invariant
                spec_decode_seq(buf@) == spec_with_prefix(v@, spec_decode_seq(rest@)),
            decreases rest@.len(),
        {
            match Self::try_from_bytes(rest) {
                Err(e) => {
                    return Err(e);
                },
                Ok((opt, rest2)) => match opt {
                    None => {
                        proof {
                            assert(v@ + Seq::<TLV>::empty() =~= v@);
                        }
                        return Ok(v);
                    },
                    Some(t) => {
                        let ghost v0 = v@;
                        v.push(t);
                        proof {
                            if let Ok(s2) = spec_decode_seq(rest2@) {
                                assert(v0 + (seq![t] + s2) =~= v@ + s2);
                            }
                        }
                        rest = rest2;
                    },
                },
            }
        }
    }

    /// The 8-byte encoding of the record as a fresh buffer.
    pub fn as_bytes(&self) -> (b: Vec<u8>)
        ensures
            b@ == spec_encode(*self),
    {
        let mut buf: Vec<u8> = Vec::new();
        self.write_to(&mut buf);
        buf
    }
}

} // verus!
