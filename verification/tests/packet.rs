use isis_lsp::{parse_isis_packet, IsisError, IsisL2LinkStatePacket, IsisPacket, IsisTlv};

const ISIS_HDR: [u8; 51] = [
    0x83, 0x1b, 0x01, 0x00, 0x14, 0x01, 0x00, 0x00, 0x00, 0x33, 0xff, 0xf6, 0x12, 0x34, 0x56,
    0x78, 0x90, 0x12, 0x34, 0x00, 0x00, 0x00, 0x00, 0x0a, 0xff, 0xff, 0x03, 0x16, 0x16, 0x12,
    0x34, 0x56, 0x78, 0x90, 0x12, 0x35, 0x00, 0x00, 0x00, 0x00, 0x12, 0x34, 0x56, 0x78, 0x90,
    0x33, 0x00, 0x00, 0x00, 0x00, 0x00,
];

#[test]
fn parse_isis_hdr() {
    let isis_hdr = ISIS_HDR;
    let res = parse_isis_packet(&isis_hdr);
    match res {
        Ok((rem, _parsed)) => {
            assert!(rem.len() == 0);
        }
        _ => assert!(false),
    }
}

fn lsp_of(packet: IsisPacket) -> IsisL2LinkStatePacket {
    match packet {
        IsisPacket::LinkStateProtocolDataUnit(lsp) => lsp,
    }
}

#[test]
fn header_fields_decoded_verbatim() {
    let (rem, packet) = parse_isis_packet(&ISIS_HDR).unwrap();
    assert!(rem.is_empty());
    let lsp = lsp_of(packet);
    assert_eq!(lsp.header.irpd.0, 0x83);
    assert_eq!(lsp.header.len, 0x1b);
    assert_eq!(lsp.header.version, 0x01);
    assert_eq!(lsp.header.sysid_len, 0x00);
    assert_eq!(lsp.header.pkt_type.0, 20);
    assert_eq!(lsp.header.version2, 0x01);
    assert_eq!(lsp.header.reserved, 0x00);
    assert_eq!(lsp.header.max_area_adr, 0x00);
    assert_eq!(lsp.pdu_length, 0x0033);
    assert_eq!(lsp.remaining_life, 0xfff6);
    assert_eq!(lsp.lsp_id.system_id, [0x1234, 0x5678, 0x9012]);
    assert_eq!(lsp.lsp_id.pseudo_id, 0x34);
    assert_eq!(lsp.lsp_id.frag_id, 0x00);
    assert_eq!(lsp.seq_no.0, 0x0000000a);
    assert_eq!(lsp.checksum.0, 0xffff);
    assert_eq!(lsp.type_block, 0x03);
    let tlvs = lsp.tlvs.as_ref().unwrap();
    assert_eq!(tlvs.len(), 1);
    match &tlvs[0] {
        IsisTlv::TlvExtendedIsReachability(t) => {
            assert_eq!(t.header.tlv_type.0, 22);
            assert_eq!(t.header.len, 22);
            assert_eq!(t.neighbors.len(), 2);
            assert_eq!(t.neighbors[0].is_neighbor_id, [0x12, 0x34, 0x56, 0x78, 0x90, 0x12, 0x35]);
            assert_eq!(t.neighbors[0].metric, [0x00, 0x00, 0x00]);
            assert!(t.neighbors[0].sub_tlvs.is_none());
            assert_eq!(t.neighbors[1].is_neighbor_id, [0x12, 0x34, 0x56, 0x78, 0x90, 0x33, 0x00]);
            assert_eq!(t.neighbors[1].metric, [0x00, 0x00, 0x00]);
            assert!(t.neighbors[1].sub_tlvs.is_none());
        }
        IsisTlv::Unsupported => panic!("expected an Extended IS Reachability TLV"),
    }
}

#[test]
fn fixed_fields_reencode_to_source_bytes() {
    let (_, packet) = parse_isis_packet(&ISIS_HDR).unwrap();
    let lsp = lsp_of(packet);
    let mut out: Vec<u8> = Vec::new();
    out.push(lsp.header.irpd.0);
    out.push(lsp.header.len);
    out.push(lsp.header.version);
    out.push(lsp.header.sysid_len);
    out.push(lsp.header.pkt_type.0);
    out.push(lsp.header.version2);
    out.push(lsp.header.reserved);
    out.push(lsp.header.max_area_adr);
    out.extend_from_slice(&lsp.pdu_length.to_be_bytes());
    out.extend_from_slice(&lsp.remaining_life.to_be_bytes());
    for group in lsp.lsp_id.system_id.iter() {
        out.extend_from_slice(&group.to_be_bytes());
    }
    out.push(lsp.lsp_id.pseudo_id);
    out.push(lsp.lsp_id.frag_id);
    out.extend_from_slice(&lsp.seq_no.0.to_be_bytes());
    out.extend_from_slice(&lsp.checksum.0.to_be_bytes());
    out.push(lsp.type_block);
    assert_eq!(&out[..], &ISIS_HDR[..27]);
}

#[test]
fn truncated_packet_needs_more_bytes() {
    assert_eq!(parse_isis_packet(&[0x83]).unwrap_err(), IsisError::TruncatedInput);
    let mut short = ISIS_HDR[..26].to_vec();
    assert_eq!(parse_isis_packet(&short).unwrap_err(), IsisError::TruncatedInput);
    // Enough for the fixed prefix but short of the declared PDU length.
    short = ISIS_HDR[..40].to_vec();
    assert_eq!(parse_isis_packet(&short).unwrap_err(), IsisError::TruncatedInput);
}

#[test]
fn wrong_discriminator_rejected() {
    let mut bytes = ISIS_HDR;
    bytes[0] = 0x82;
    assert_eq!(
        parse_isis_packet(&bytes).unwrap_err(),
        IsisError::UnsupportedProtocolDiscriminator
    );
}

#[test]
fn unhandled_pdu_type_reported_distinctly() {
    let mut bytes = ISIS_HDR;
    bytes[4] = 0x11;
    assert_eq!(parse_isis_packet(&bytes).unwrap_err(), IsisError::UnsupportedPduType);
}

#[test]
fn reserved_bits_in_type_byte_fail_verification() {
    // The low five bits still select the Level-2 LSP path, but the record
    // decoder re-verifies the whole byte.
    let mut bytes = ISIS_HDR;
    bytes[4] = 0x34;
    assert_eq!(parse_isis_packet(&bytes).unwrap_err(), IsisError::VerifyFailed);
}

#[test]
fn pdu_length_under_fixed_prefix_is_malformed() {
    let mut bytes = ISIS_HDR;
    bytes[8] = 0x00;
    bytes[9] = 0x1a;
    assert_eq!(parse_isis_packet(&bytes).unwrap_err(), IsisError::MalformedLength);
}

#[test]
fn pdu_length_of_exactly_the_prefix_leaves_tlvs_absent() {
    let mut bytes = ISIS_HDR.to_vec();
    bytes[9] = 0x1b;
    let (rem, packet) = parse_isis_packet(&bytes).unwrap();
    let lsp = lsp_of(packet);
    assert!(lsp.tlvs.is_none());
    // Only the fixed prefix was consumed; the rest of the buffer remains.
    assert_eq!(rem.len(), bytes.len() - 27);
}

#[test]
fn unsupported_tlv_skipped_without_aborting_sequence() {
    // TLV region: an unrecognized tag with a non-zero length, then an
    // Extended IS Reachability TLV with one neighbor.
    let mut bytes: Vec<u8> = vec![
        0x83, 0x1b, 0x01, 0x00, 0x14, 0x01, 0x00, 0x00, 0x00, 0x00, 0xff, 0xf6, 0x12, 0x34, 0x56,
        0x78, 0x90, 0x12, 0x34, 0x00, 0x00, 0x00, 0x00, 0x0a, 0xff, 0xff, 0x03,
    ];
    let region: [u8; 18] = [
        0x63, 0x03, 0xaa, 0xbb, 0xcc, 0x16, 0x0b, 0x12, 0x34, 0x56, 0x78, 0x90, 0x12, 0x34, 0x00,
        0x00, 0x01, 0x00,
    ];
    bytes.extend_from_slice(&region);
    let pdu_length = bytes.len() as u16;
    bytes[8] = (pdu_length >> 8) as u8;
    bytes[9] = pdu_length as u8;
    let (rem, packet) = parse_isis_packet(&bytes).unwrap();
    assert!(rem.is_empty());
    let lsp = lsp_of(packet);
    let tlvs = lsp.tlvs.as_ref().unwrap();
    assert_eq!(tlvs.len(), 2);
    assert!(matches!(tlvs[0], IsisTlv::Unsupported));
    match &tlvs[1] {
        IsisTlv::TlvExtendedIsReachability(t) => {
            assert_eq!(t.neighbors.len(), 1);
            assert_eq!(t.neighbors[0].is_neighbor_id, [0x12, 0x34, 0x56, 0x78, 0x90, 0x12, 0x34]);
        }
        IsisTlv::Unsupported => panic!("expected an Extended IS Reachability TLV"),
    }
}

#[test]
fn trailing_region_remainder_dropped_not_an_error() {
    // The TLV region ends with two bytes that cannot form a complete
    // record; they are dropped and the decoded prefix is kept.
    let mut bytes: Vec<u8> = vec![
        0x83, 0x1b, 0x01, 0x00, 0x14, 0x01, 0x00, 0x00, 0x00, 0x00, 0xff, 0xf6, 0x12, 0x34, 0x56,
        0x78, 0x90, 0x12, 0x34, 0x00, 0x00, 0x00, 0x00, 0x0a, 0xff, 0xff, 0x03,
    ];
    let region: [u8; 5] = [0x63, 0x01, 0xaa, 0x63, 0x09];
    bytes.extend_from_slice(&region);
    let pdu_length = bytes.len() as u16;
    bytes[8] = (pdu_length >> 8) as u8;
    bytes[9] = pdu_length as u8;
    let (rem, packet) = parse_isis_packet(&bytes).unwrap();
    assert!(rem.is_empty());
    let lsp = lsp_of(packet);
    let tlvs = lsp.tlvs.as_ref().unwrap();
    assert_eq!(tlvs.len(), 1);
    assert!(matches!(tlvs[0], IsisTlv::Unsupported));
}

#[test]
fn back_to_back_pdus_leave_the_second_unconsumed() {
    let mut bytes = ISIS_HDR.to_vec();
    bytes.extend_from_slice(&ISIS_HDR);
    let (rem, _first) = parse_isis_packet(&bytes).unwrap();
    assert_eq!(rem.len(), ISIS_HDR.len());
    let (rem2, _second) = parse_isis_packet(rem).unwrap();
    assert!(rem2.is_empty());
}
