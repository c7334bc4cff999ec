use packetizer::error::PacketError;
use packetizer::header::Header;
use packetizer::header::HeaderNoTLV;
use packetizer::header::HEADER_MAGIC;
use packetizer::tlv::TLV;

#[test]
fn test_tlv_to_bytes() {
    let tlv = TLV::Timestamp(3u64);
    assert!(tlv.as_bytes() == [0x11, 1, 0, 0, 0, 0, 0, 3]);
    let tlv = TLV::Payloadshape([0u16, 8, 0]);
    assert!(tlv.as_bytes() == [0x22, 1, 0, 0, 0, 8, 0, 0]);
    let tlv = TLV::Null;
    assert!(tlv.as_bytes() == [0x0, 1, 0, 0, 0, 0, 0, 0]);
    let tlv = TLV::ChannelOffset(16);
    assert!(tlv.as_bytes() == [0x23, 1, 0, 0, 0, 0, 0, 16u8]);
}

#[test]
fn test_header_to_bytes() {
    let header_no_tlv = HeaderNoTLV {
        version: 1u8,
        headerlength: 0u8,
        payloadlength: 0u16,
        magic: HEADER_MAGIC,
        srcid: 0u32,
        seqno: 0u32,
    };
    assert!(
        header_no_tlv.as_bytes() == [0x1, 0, 0, 0, 0x81, 0x0b, 0, 0xff, 0, 0, 0, 0, 0, 0, 0, 0]
    );
    let header = Header {
        header_no_tlv,
        tlvs: vec![TLV::Timestamp(3), TLV::Null, TLV::Payloadshape([0u16, 8, 0])],
    };
    assert!(
        header.as_bytes().unwrap()
            == [
                1u8, 40, 0, 0, 129, 11, 0, 255, 0, 0, 0, 0, 0, 0, 0, 0, 17, 1, 0, 0, 0, 0, 0, 3,
                0, 1, 0, 0, 0, 0, 0, 0, 34, 1, 0, 0, 0, 8, 0, 0
            ]
    );
}

#[test]
fn tlv_payload_label_to_bytes() {
    let tlv = TLV::PayloadLabel6Char([b'a', b'b', b'c', b'd', b'e', b'f']);
    assert!(tlv.as_bytes() == [0x29, 1, b'a', b'b', b'c', b'd', b'e', b'f']);
}

#[test]
fn tlv_timestamp_keeps_low_48_bits() {
    // The two high bytes of the 64-bit value are not part of the record.
    let tlv = TLV::Timestamp(0xffff_0102_0304_0506);
    assert!(tlv.as_bytes() == [0x11, 1, 1, 2, 3, 4, 5, 6]);
}

#[test]
fn tlv_encode_is_eight_bytes() {
    let variants = vec![
        TLV::Timestamp(3),
        TLV::Null,
        TLV::Payloadshape([1, 2, 3]),
        TLV::ChannelOffset(9),
        TLV::PayloadLabel6Char([0; 6]),
    ];
    for tlv in &variants {
        assert_eq!(tlv.as_bytes().len(), 8);
        assert_eq!(tlv.len(), 8);
        assert_eq!(tlv.len8bytes(), 1);
    }
}

#[test]
fn tlv_tags() {
    assert_eq!(TLV::Timestamp(0).tag(), 0x11);
    assert_eq!(TLV::Null.tag(), 0x00);
    assert_eq!(TLV::Payloadshape([0, 0, 0]).tag(), 0x22);
    assert_eq!(TLV::ChannelOffset(0).tag(), 0x23);
    assert_eq!(TLV::PayloadLabel6Char([0; 6]).tag(), 0x29);
}

#[test]
fn tlv_decode_round_trip() {
    let tlvs = vec![
        TLV::Timestamp(0x0102_0304_0506),
        TLV::Null,
        TLV::Payloadshape([7, 8, 9]),
        TLV::ChannelOffset(0xdead_beef),
        TLV::PayloadLabel6Char([b'l', b'a', b'b', b'e', b'l', b'!']),
    ];
    let mut section: Vec<u8> = Vec::new();
    for tlv in &tlvs {
        section.extend(tlv.as_bytes());
    }
    let decoded = TLV::vec_from_bytes(&section).unwrap();
    assert_eq!(decoded, tlvs);
}

#[test]
fn tlv_try_from_bytes_short_buffer_is_not_an_error() {
    let buf = [0x11u8, 1, 0, 0, 0];
    let (tlv, rest) = TLV::try_from_bytes(&buf).unwrap();
    assert!(tlv.is_none());
    assert_eq!(rest, &buf);
}

#[test]
fn tlv_try_from_bytes_reads_one_slot() {
    let buf = [0x00u8, 1, 0, 0, 0, 0, 0, 0, 0x11, 1, 0, 0, 0, 0, 0, 3];
    let (tlv, rest) = TLV::try_from_bytes(&buf).unwrap();
    assert_eq!(tlv, Some(TLV::Null));
    assert_eq!(rest.len(), 8);
    let (tlv2, rest2) = TLV::try_from_bytes(rest).unwrap();
    assert_eq!(tlv2, Some(TLV::Timestamp(3)));
    assert_eq!(rest2.len(), 0);
}

#[test]
fn tlv_unknown_tag_is_an_error() {
    let buf = [0x55u8, 1, 0, 0, 0, 0, 0, 0];
    assert_eq!(TLV::try_from_bytes(&buf).unwrap_err(), PacketError::UnknownTlvTag);
    assert_eq!(TLV::vec_from_bytes(&buf).unwrap_err(), PacketError::UnknownTlvTag);
}

#[test]
fn tlv_label_with_bad_length_is_an_error() {
    let buf = [0x29u8, 2, 0, 0, 0, 0, 0, 0];
    assert_eq!(TLV::try_from_bytes(&buf).unwrap_err(), PacketError::UnsupportedTlvLength);
    assert_eq!(TLV::vec_from_bytes(&buf).unwrap_err(), PacketError::UnsupportedTlvLength);
}

#[test]
fn tlv_failure_aborts_the_sequence_decode() {
    // A good slot followed by an unknown tag: the whole decode fails.
    let mut section = TLV::Null.as_bytes();
    section.extend([0x77u8, 1, 0, 0, 0, 0, 0, 0]);
    assert_eq!(TLV::vec_from_bytes(&section).unwrap_err(), PacketError::UnknownTlvTag);
}
