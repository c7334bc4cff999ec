use packetizer::error::PacketError;
use packetizer::header::Header;
use packetizer::header::HeaderNoTLV;
use packetizer::header::HEADER_MAGIC;
use packetizer::header::HEADER_VERSION;
use packetizer::packet::PacketMaker;
use packetizer::tlv::TLV;

fn sample_fixed() -> HeaderNoTLV {
    HeaderNoTLV {
        version: HEADER_VERSION,
        headerlength: 0,
        payloadlength: 5,
        magic: HEADER_MAGIC,
        srcid: 42,
        seqno: 7,
    }
}

#[test]
fn header_round_trip_normalizes_header_length() {
    let header = Header {
        header_no_tlv: sample_fixed(),
        tlvs: vec![TLV::Timestamp(3), TLV::Null, TLV::Payloadshape([0, 8, 0])],
    };
    let bytes = header.as_bytes().unwrap();
    assert_eq!(bytes.len(), 40);
    let decoded = Header::from_bytes(&bytes).unwrap();
    let mut expected = header.clone();
    expected.header_no_tlv.headerlength = 40;
    assert_eq!(decoded, expected);
}

#[test]
fn header_round_trip_without_tlvs() {
    let header = Header { header_no_tlv: sample_fixed(), tlvs: vec![] };
    let bytes = header.as_bytes().unwrap();
    assert_eq!(bytes.len(), 16);
    let decoded = Header::from_bytes(&bytes).unwrap();
    let mut expected = header.clone();
    expected.header_no_tlv.headerlength = 16;
    assert_eq!(decoded, expected);
}

#[test]
fn header_decode_leaves_payload_bytes_alone() {
    let header = Header { header_no_tlv: sample_fixed(), tlvs: vec![TLV::ChannelOffset(16)] };
    let mut bytes = header.as_bytes().unwrap();
    bytes.extend([0xaau8, 0xbb, 0xcc]);
    let decoded = Header::from_bytes(&bytes).unwrap();
    assert_eq!(decoded.tlvs, vec![TLV::ChannelOffset(16)]);
    assert_eq!(decoded.header_no_tlv.headerlength, 24);
}

#[test]
fn header_with_too_many_tlvs_is_an_error() {
    let header = Header { header_no_tlv: sample_fixed(), tlvs: vec![TLV::Null; 30] };
    assert_eq!(header.as_bytes().unwrap_err(), PacketError::HeaderLengthOverflow);
    // 29 records still fit: 16 + 8 * 29 = 248 <= 255.
    let header = Header { header_no_tlv: sample_fixed(), tlvs: vec![TLV::Null; 29] };
    let bytes = header.as_bytes().unwrap();
    assert_eq!(bytes[1], 248);
}

#[test]
fn short_buffer_is_truncated_header() {
    assert_eq!(
        HeaderNoTLV::from_bytes(&[0u8; 10]).unwrap_err(),
        PacketError::TruncatedHeader
    );
    assert_eq!(Header::from_bytes(&[0u8; 15]).unwrap_err(), PacketError::TruncatedHeader);
}

#[test]
fn declared_length_below_fixed_part_is_underflow() {
    let mut fixed = sample_fixed();
    fixed.headerlength = 8;
    let bytes = fixed.as_bytes();
    assert_eq!(Header::from_bytes(&bytes).unwrap_err(), PacketError::HeaderLengthUnderflow);
}

#[test]
fn declared_length_beyond_buffer_is_truncated_header() {
    let mut fixed = sample_fixed();
    fixed.headerlength = 40;
    let bytes = fixed.as_bytes();
    assert_eq!(Header::from_bytes(&bytes).unwrap_err(), PacketError::TruncatedHeader);
}

#[test]
fn fixed_header_decode_returns_fields_and_rest() {
    let mut bytes = sample_fixed().as_bytes();
    bytes.extend([9u8, 9, 9]);
    let (fields, rest) = HeaderNoTLV::from_bytes(&bytes).unwrap();
    assert_eq!(fields, sample_fixed());
    assert_eq!(rest, &[9u8, 9, 9]);
}

#[test]
fn assembler_three_packets_differ_only_in_seqno() {
    let tlvs = vec![TLV::Timestamp(3), TLV::Null, TLV::Payloadshape([0u16, 8, 0])];
    let mut maker = PacketMaker::new(0, tlvs);
    let p0 = maker.make(vec![255u8]).unwrap();
    let p1 = maker.make(vec![255u8]).unwrap();
    let p2 = maker.make(vec![255u8]).unwrap();
    assert_eq!(p0.len(), 41);
    assert_eq!(p1.len(), 41);
    assert_eq!(p2.len(), 41);
    for i in 0..41 {
        if (12..16).contains(&i) {
            continue;
        }
        assert_eq!(p0[i], p1[i]);
        assert_eq!(p0[i], p2[i]);
    }
    assert_eq!(&p0[12..16], &[0, 0, 0, 0]);
    assert_eq!(&p1[12..16], &[0, 0, 0, 1]);
    assert_eq!(&p2[12..16], &[0, 0, 0, 2]);
}

#[test]
fn assembler_packet_layout() {
    let mut maker = PacketMaker::new(0x0102_0304, vec![TLV::ChannelOffset(16)]);
    let packet = maker.make(vec![0xeeu8, 0xff]).unwrap();
    assert_eq!(
        packet,
        vec![
            1u8, 24, 0, 2, 0x81, 0x0b, 0, 0xff, 1, 2, 3, 4, 0, 0, 0, 0, 0x23, 1, 0, 0, 0, 0, 0,
            16, 0xee, 0xff
        ]
    );
}

#[test]
fn assembler_header_length_matches_tlv_count() {
    for count in [0usize, 1, 2, 5, 29] {
        let mut maker = PacketMaker::new(1, vec![TLV::Null; count]);
        let packet = maker.make(vec![]).unwrap();
        assert_eq!(packet[1] as usize, 16 + 8 * count);
        assert_eq!(packet.len(), 16 + 8 * count);
    }
}

#[test]
fn assembler_failed_make_leaves_seqno_unchanged() {
    let mut maker = PacketMaker::new(1, vec![]);
    maker.make(vec![1, 2, 3]).unwrap();
    assert_eq!(maker.seqno, 1);
    let err = maker.make(vec![0u8; 0x1_0000]).unwrap_err();
    assert_eq!(err, PacketError::PayloadLengthOverflow);
    assert_eq!(maker.seqno, 1);
    // The two-byte field holds exactly 65535 payload bytes.
    maker.make(vec![0u8; 0xffff]).unwrap();
    assert_eq!(maker.seqno, 2);
}

#[test]
fn assembler_too_many_static_tlvs_is_an_error() {
    let mut maker = PacketMaker::new(1, vec![TLV::Null; 30]);
    let err = maker.make(vec![]).unwrap_err();
    assert_eq!(err, PacketError::HeaderLengthOverflow);
    assert_eq!(maker.seqno, 0);
}

#[test]
fn assembler_seqno_wraps_modulo_2_to_32() {
    let mut maker = PacketMaker::new(1, vec![]);
    maker.seqno = u32::MAX;
    let packet = maker.make(vec![]).unwrap();
    assert_eq!(&packet[12..16], &[0xff, 0xff, 0xff, 0xff]);
    assert_eq!(maker.seqno, 0);
}

#[test]
fn payload_length_field_counts_payload_bytes() {
    let mut maker = PacketMaker::new(9, vec![]);
    let packet = maker.make(vec![7u8; 300]).unwrap();
    // 300 = 0x012c, big-endian in bytes 2..4.
    assert_eq!(&packet[2..4], &[0x01, 0x2c]);
    assert_eq!(packet.len(), 316);
}
