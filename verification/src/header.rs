//! The 16-byte fixed packet header and the composed header: the fixed part
//! together with an ordered sequence of TLV records.
//!
//! All multi-byte fields are big-endian. The composed header recomputes its
//! `headerlength` byte from the TLV set on every encode; a stored stale
//! value is never trusted.

use vstd::prelude::*;

use crate::endian::be16_bytes;
use crate::endian::be16_join;
use crate::endian::be32_bytes;
use crate::endian::be32_join;
use crate::endian::lemma_be16_round_trip;
use crate::endian::lemma_be32_round_trip;
use crate::endian::push_be16;
use crate::endian::push_be32;
use crate::endian::read_be16;
use crate::endian::read_be32;
use crate::error::PacketError;
use crate::tlv::TLV;
use crate::tlv::lemma_decode_seq_encode;
use crate::tlv::lemma_encode_seq_len;
use crate::tlv::spec_all_valid;
use crate::tlv::spec_decode_seq;
use crate::tlv::spec_encode_seq;
use crate::tlv::write_tlvs;

verus! {

/// The sentinel value identifying the packet format.
pub const HEADER_MAGIC: u32 = 0x810b00ff;

/// The format version this codec produces.
pub const HEADER_VERSION: u8 = 1;

/// The largest TLV count whose header length still fits the one-byte
/// `headerlength` field: 16 + 8 * 29 = 248 <= 255.
pub const MAX_TLV_COUNT: usize = 29;

/// The non-extensible 16-byte part of every packet header.
#[derive(Debug, Clone, Copy, PartialEq, Eq, Structural)]
pub struct HeaderNoTLV {
    /// Format version; currently always [`HEADER_VERSION`].
    pub version: u8,
    /// Total header size in bytes, fixed part and all TLVs together.
    pub headerlength: u8,
    /// Byte length of the payload that follows the header.
    pub payloadlength: u16,
    /// The format sentinel; currently always [`HEADER_MAGIC`].
    pub magic: u32,
    /// Identifies the producing source.
    pub srcid: u32,
    /// Per-source packet counter, wrapping modulo 2^32.
    pub seqno: u32,
}

/// The 16 bytes of a fixed header, all multi-byte fields big-endian.
pub open spec fn spec_fixed_bytes(h: HeaderNoTLV) -> Seq<u8> {
    seq![h.version, h.headerlength] + be16_bytes(h.payloadlength) + be32_bytes(h.magic)
        + be32_bytes(h.srcid) + be32_bytes(h.seqno)
}

/// What decoding a fixed header yields: the fields of the first 16 bytes,
/// or `TruncatedHeader` when fewer are available. No semantic validation
/// of magic or version is performed.
pub open spec fn spec_fixed_decode(b: Seq<u8>) -> Result<HeaderNoTLV, PacketError> {
    if b.len() < 16 {
        Err(PacketError::TruncatedHeader)
    } else {
        Ok(
            HeaderNoTLV {
                version: b[0],
                headerlength: b[1],
                payloadlength: be16_join(b[2], b[3]),
                magic: be32_join(b[4], b[5], b[6], b[7]),
                srcid: be32_join(b[8], b[9], b[10], b[11]),
                seqno: be32_join(b[12], b[13], b[14], b[15]),
            },
        )
    }
}

/// Decoding the encoding of a fixed header gives the fields back.
pub proof fn lemma_fixed_decode_encode(h: HeaderNoTLV)
    ensures
        spec_fixed_decode(spec_fixed_bytes(h)) == Ok::<HeaderNoTLV, PacketError>(h),
{
    lemma_be16_round_trip(h.payloadlength);
    lemma_be32_round_trip(h.magic);
    lemma_be32_round_trip(h.srcid);
    lemma_be32_round_trip(h.seqno);
}

impl HeaderNoTLV {
    /// The encoded size of the fixed header in bytes.
    pub fn len() -> (n: usize)
        ensures
            n == 16,
    {
        16
    }

    /// Appends the 16-byte encoding of the fixed header to `buf`.
    pub fn write_to(&self, buf: &mut Vec<u8>)
        ensures
            final(buf)@ == old(buf)@ + spec_fixed_bytes(*self),
    {
        buf.push(self.version);
        buf.push(self.headerlength);
        push_be16(buf, self.payloadlength);
        push_be32(buf, self.magic);
        push_be32(buf, self.srcid);
        push_be32(buf, self.seqno);
        proof {
            assert(buf@ =~= old(buf)@ + spec_fixed_bytes(*self));
        }
    }

    /// The 16-byte encoding of the fixed header as a fresh buffer.
    pub fn as_bytes(&self) -> (b: Vec<u8>)
        ensures
            b@ == spec_fixed_bytes(*self),
    {
        let mut buf: Vec<u8> = Vec::new();
        self.write_to(&mut buf);
        buf
    }

    /// Decodes the fixed header fields from the front of `buf` and returns
    /// them with the remaining bytes, or `TruncatedHeader` when fewer than
    /// 16 bytes are available.
    pub fn from_bytes<'a>(buf: &'a [u8]) -> (r: Result<(HeaderNoTLV, &'a [u8]), PacketError>)
        ensures
            match r {
                Ok(p) => spec_fixed_decode(buf@) == Ok::<HeaderNoTLV, PacketError>(p.0) && p.1@
                    == buf@.skip(16),
                Err(e) => spec_fixed_decode(buf@) == Err::<HeaderNoTLV, PacketError>(e),
            },
    {
        if buf.len() < 16 {
            return Err(PacketError::TruncatedHeader);
        }
        let fields = HeaderNoTLV {
            version: buf[0],
            headerlength: buf[1],
            payloadlength: read_be16(buf[2], buf[3]),
            magic: read_be32(buf[4], buf[5], buf[6], buf[7]),
            srcid: read_be32(buf[8], buf[9], buf[10], buf[11]),
            seqno: read_be32(buf[12], buf[13], buf[14], buf[15]),
        };
        let rest = vstd::slice::slice_subrange(buf, 16, buf.len());
        Ok((fields, rest))
    }
}

/// A complete packet header: the fixed part and an ordered TLV sequence.
#[derive(Debug, Clone, PartialEq, Eq)]
pub struct Header {
    /// The fixed 16-byte part. Its `headerlength` field is recomputed from
    /// the TLV set on every encode and never trusted as stored.
    pub header_no_tlv: HeaderNoTLV,
    /// The ordered TLV records; order is significant and preserved.
    pub tlvs: Vec<TLV>,
}

/// The mathematical model of a [`Header`]: the fixed fields and the TLV
/// records as a sequence.
pub struct HeaderView {
    /// The fixed header fields.
    pub fixed: HeaderNoTLV,
    /// The ordered TLV records.
    pub tlvs: Seq<TLV>,
}

impl View for Header {
    type V = HeaderView;

    open spec fn view(&self) -> HeaderView {
        HeaderView { fixed: self.header_no_tlv, tlvs: self.tlvs@ }
    }
}

/// The true encoded length of a header: the fixed part plus 8 bytes per
/// TLV record.
pub open spec fn spec_header_len(h: HeaderView) -> int {
    16 + 8 * (h.tlvs.len() as int)
}

/// A header is encodable when its true length fits the one-byte
/// `headerlength` field.
pub open spec fn spec_encodable(h: HeaderView) -> bool {
    h.tlvs.len() <= MAX_TLV_COUNT
}

/// The header with its `headerlength` field corrected to the true length
/// of its current TLV set.
pub open spec fn spec_normalize(h: HeaderView) -> HeaderView {
    HeaderView {
        fixed: HeaderNoTLV { headerlength: spec_header_len(h) as u8, ..h.fixed },
        tlvs: h.tlvs,
    }
}

/// The encoding of a whole header: the fixed part with the corrected
/// `headerlength` byte, then each TLV record in order.
pub open spec fn spec_header_bytes(h: HeaderView) -> Seq<u8>
    recommends
        spec_encodable(h),
{
    spec_fixed_bytes(spec_normalize(h).fixed) + spec_encode_seq(h.tlvs)
}

/// What decoding a whole header yields: the fixed fields of the first 16
/// bytes and the records of the declared TLV section, or the failure the
/// buffer forces. Bytes beyond the declared header length belong to the
/// payload and are left alone.
pub open spec fn spec_header_decode(b: Seq<u8>) -> Result<HeaderView, PacketError> {
    match spec_fixed_decode(b) {
        Err(e) => Err(e),
        Ok(f) => if f.headerlength < 16 {
            Err(PacketError::HeaderLengthUnderflow)
        } else if b.len() < f.headerlength {
            Err(PacketError::TruncatedHeader)
        } else {
            match spec_decode_seq(b.subrange(16, f.headerlength as int)) {
                Ok(ts) => Ok(HeaderView { fixed: f, tlvs: ts }),
                Err(e) => Err(e),
            }
        },
    }
}

/// Round trip: decoding the encoding of a valid encodable header gives the
/// header back, with its `headerlength` normalized to the true length of
/// its TLV set.
pub proof fn lemma_header_round_trip(h: HeaderView)
    requires
        spec_encodable(h),
        spec_all_valid(h.tlvs),
    ensures
        spec_header_decode(spec_header_bytes(h)) == Ok::<HeaderView, PacketError>(
            spec_normalize(h),
        ),
{
    let n = spec_normalize(h);
    let b = spec_header_bytes(h);
    lemma_encode_seq_len(h.tlvs);
    lemma_fixed_decode_encode(n.fixed);
    assert(b.take(16) =~= spec_fixed_bytes(n.fixed));
    assert(spec_fixed_decode(b) == spec_fixed_decode(spec_fixed_bytes(n.fixed))) by {
        assert(forall|i: int| 0 <= i < 16 ==> b[i] == spec_fixed_bytes(n.fixed)[i]);
    }
    assert(b.subrange(16, n.fixed.headerlength as int) =~= spec_encode_seq(h.tlvs));
    lemma_decode_seq_encode(h.tlvs);
}

impl Header {
    /// The true encoded length of the header: 16 bytes of fixed part plus
    /// 8 bytes per TLV record.
    pub fn len(&self) -> (n: usize)
        requires
            spec_header_len(self@) <= usize::MAX,
        ensures
            n == spec_header_len(self@),
    {
        16 + 8 * self.tlvs.len()
    }

    /// Appends the header encoding to `buf`: the fixed part with its
    /// `headerlength` byte recomputed from the current TLV set, then each
    /// TLV record in order. Fails with `HeaderLengthOverflow`, leaving
    /// `buf` untouched, when the true length does not fit the one-byte
    /// field.
    pub fn write_to(&self, buf: &mut Vec<u8>) -> (r: Result<(), PacketError>)
        ensures
            match r {
                Ok(()) => self.tlvs@.len() <= MAX_TLV_COUNT && final(buf)@ == old(buf)@
                    + spec_header_bytes(self@),
                Err(e) => self.tlvs@.len() > MAX_TLV_COUNT && e
                    == PacketError::HeaderLengthOverflow && final(buf)@ == old(buf)@,
            },
    {
        if self.tlvs.len() > MAX_TLV_COUNT {
            return Err(PacketError::HeaderLengthOverflow);
        }
        let headerlength: u8 = (16 + 8 * self.tlvs.len()) as u8;
        let fixed = HeaderNoTLV { headerlength, ..self.header_no_tlv };
        fixed.write_to(buf);
        write_tlvs(&self.tlvs, buf);
        proof {
            assert(fixed == spec_normalize(self@).fixed);
            assert((old(buf)@ + spec_fixed_bytes(fixed)) + spec_encode_seq(self.tlvs@) =~= old(
                buf,
            )@ + spec_header_bytes(self@));
        }
        Ok(())
    }

    /// The header encoding as a fresh buffer, or `HeaderLengthOverflow`
    /// when the true length does not fit the one-byte field.
    pub fn as_bytes(&self) -> (r: Result<Vec<u8>, PacketError>)
        ensures
            match r {
                Ok(b) => self.tlvs@.len() <= MAX_TLV_COUNT && b@ == spec_header_bytes(self@),
                Err(e) => self.tlvs@.len() > MAX_TLV_COUNT && e
                    == PacketError::HeaderLengthOverflow,
            },
    {
        let mut buf: Vec<u8> = Vec::new();
        match self.write_to(&mut buf) {
            Ok(()) => Ok(buf),
            Err(e) => Err(e),
        }
    }

    /// Decodes a whole header from the front of `buf`: the fixed fields,
    /// then exactly the declared TLV section. Bytes beyond the declared
    /// header length are not read.
    pub fn from_bytes(buf: &[u8]) -> (r: Result<Header, PacketError>)
        ensures
            match r {
                Ok(h) => spec_header_decode(buf@) == Ok::<HeaderView, PacketError>(h@),
                Err(e) => spec_header_decode(buf@) == Err::<HeaderView, PacketError>(e),
            },
    {
        let (fields, _rest) = match HeaderNoTLV::from_bytes(buf) {
            Ok(p) => p,
            Err(e) => {
                return Err(e);
            },
        };
        if fields.headerlength < 16 {
            return Err(PacketError::HeaderLengthUnderflow);
        }
        let headerlength = fields.headerlength as usize;
        if buf.len() < headerlength {
            return Err(PacketError::TruncatedHeader);
        }
        let section = vstd::slice::slice_subrange(buf, 16, headerlength);
        match TLV::vec_from_bytes(section) {
            Ok(tlvs) => Ok(Header { header_no_tlv: fields, tlvs }),
            Err(e) => Err(e),
        }
    }
}

} // verus!
