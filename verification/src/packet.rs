//! The stateful packet assembler: owns a source id, a wrapping sequence
//! counter and a static TLV list, and composes whole packets.

use vstd::prelude::*;

use crate::error::PacketError;
use crate::header::HEADER_MAGIC;
use crate::header::HEADER_VERSION;
use crate::header::Header;
use crate::header::HeaderNoTLV;
use crate::header::HeaderView;
use crate::header::MAX_TLV_COUNT;
use crate::header::spec_header_bytes;
use crate::tlv::TLV;
use crate::tlv::spec_encode_seq;

verus! {

/// The bytes of one whole packet: the header (fixed part with corrected
/// `headerlength`, then the TLV records), then the raw payload.
pub open spec fn spec_packet_bytes(
    srcid: u32,
    seqno: u32,
    tlvs: Seq<TLV>,
    payload: Seq<u8>,
) -> Seq<u8>
    recommends
        tlvs.len() <= MAX_TLV_COUNT,
        payload.len() <= 0xffff,
{
    spec_header_bytes(
        HeaderView {
            fixed: HeaderNoTLV {
                version: HEADER_VERSION,
                headerlength: (16 + 8 * tlvs.len()) as u8,
                payloadlength: payload.len() as u16,
                magic: HEADER_MAGIC,
                srcid: srcid,
                seqno: seqno,
            },
            tlvs: tlvs,
        },
    ) + payload
}

/// The header length byte of a produced packet reads the true header
/// length, 16 plus 8 per TLV record, and the packet is sized to exactly
/// the header length plus the payload length, with no trailing slack.
pub proof fn lemma_packet_shape(srcid: u32, seqno: u32, tlvs: Seq<TLV>, payload: Seq<u8>)
    requires
        tlvs.len() <= MAX_TLV_COUNT,
        payload.len() <= 0xffff,
    ensures
        spec_packet_bytes(srcid, seqno, tlvs, payload)[1] == 16 + 8 * tlvs.len(),
        spec_packet_bytes(srcid, seqno, tlvs, payload).len() == 16 + 8 * tlvs.len()
            + payload.len(),
{
    crate::tlv::lemma_encode_seq_len(tlvs);
}

/// A packet producer for one source: it stamps every packet with its
/// source id and the next sequence number, and attaches the same static
/// TLV records to each.
pub struct PacketMaker {
    /// The source id stamped into every produced packet; fixed for the
    /// assembler's lifetime.
    pub srcid: u32,
    /// The sequence number of the next packet. Starts at 0 and advances by
    /// one, wrapping modulo 2^32, after each successful assembly only.
    pub seqno: u32,
    /// The static TLV records attached to every produced packet, in order;
    /// fixed at construction.
    pub tlvs: Vec<TLV>,
}

impl PacketMaker {
    /// A fresh assembler for the given source with the given static TLV
    /// records; its sequence counter starts at 0.
    pub fn new(srcid: u32, tlvs: Vec<TLV>) -> (r: PacketMaker)
        ensures
            r.srcid == srcid,
            r.seqno == 0,
            r.tlvs@ == tlvs@,
    {
        PacketMaker { srcid, seqno: 0, tlvs }
    }

    /// Composes one whole packet around `payload`: header, static TLV
    /// records, payload, in one contiguous buffer. On success the sequence
    /// counter advances by one, wrapping modulo 2^32; a failed call leaves
    /// the assembler exactly as it was. Fails with `PayloadLengthOverflow`
    /// when the payload does not fit the two-byte length field, else with
    /// `HeaderLengthOverflow` when the TLV set does not fit the one-byte
    /// header length field.
    pub fn make(&mut self, payload: Vec<u8>) -> (r: Result<Vec<u8>, PacketError>)
        ensures
            final(self).srcid == old(self).srcid,
            final(self).tlvs == old(self).tlvs,
            r is Ok <==> payload@.len() <= 0xffff && old(self).tlvs@.len() <= MAX_TLV_COUNT,
            match r {
                Ok(b) => {
                    &&& b@ == spec_packet_bytes(
                        old(self).srcid,
                        old(self).seqno,
                        old(self).tlvs@,
                        payload@,
                    )
                    &&& final(self).seqno as int == (old(self).seqno as int + 1) % 0x1_0000_0000
                },
                Err(e) => {
                    &&& final(self).seqno == old(self).seqno
                    &&& e == if payload@.len() > 0xffff {
                        PacketError::PayloadLengthOverflow
                    } else {
                        PacketError::HeaderLengthOverflow
                    }
                },
            },
    {
        if payload.len() > 0xffff {
            return Err(PacketError::PayloadLengthOverflow);
        }
        if self.tlvs.len() > MAX_TLV_COUNT {
            return Err(PacketError::HeaderLengthOverflow);
        }
        let headerlength: u8 = (16 + 8 * self.tlvs.len()) as u8;
        let fixed = HeaderNoTLV {
            version: HEADER_VERSION,
            headerlength,
            payloadlength: payload.len() as u16,
            magic: HEADER_MAGIC,
            srcid: self.srcid,
            seqno: self.seqno,
        };
        let mut buf: Vec<u8> = Vec::new();
        fixed.write_to(&mut buf);
        crate::tlv::write_tlvs(&self.tlvs, &mut buf);
        let ghost header_part = buf@;
        let mut i: usize = 0;
        proof {
            assert(header_part + payload@.take(0) =~= header_part);
        }
        while i < payload.len()
            invariant
                i <= payload.len(),
                buf@ == header_part + payload@.take(i as int),
            decreases payload.len() - i,
        {
            buf.push(payload[i]);
            proof {
                assert(header_part + payload@.take(i as int + 1) =~= (header_part
                    + payload@.take(i as int)).push(payload@[i as int]));
            }
            i = i + 1;
        }
        proof {
            assert(payload@.take(payload@.len() as int) =~= payload@);
            let hv = HeaderView {
                fixed: HeaderNoTLV {
                    version: HEADER_VERSION,
                    headerlength: (16 + 8 * self.tlvs@.len()) as u8,
                    payloadlength: payload@.len() as u16,
                    magic: HEADER_MAGIC,
                    srcid: self.srcid,
                    seqno: self.seqno,
                },
                tlvs: self.tlvs@,
            };
            assert(fixed == crate::header::spec_normalize(hv).fixed);
            assert(header_part =~= spec_header_bytes(hv));
        }
        if self.seqno == 0xffff_ffff {
            self.seqno = 0;
        } else {
            self.seqno = self.seqno + 1;
        }
        Ok(buf)
    }
}

} // verus!
