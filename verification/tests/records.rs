use isis_lsp::{
    parse_is_neighbors, parse_isis_subtlvs, parse_isis_tlvs, skipper, Chksm, Irpd, IsNeighbor,
    IsisError, IsisSubTlv, IsisTlv, IsisTlvExtendedIsReachability, LspId, SeqNo,
};

#[test]
fn subtlv_region_decodes_both_recognized_kinds() {
    let bytes = [
        0x06, 0x04, 0xc0, 0xa8, 0x00, 0x01, 0x08, 0x04, 0x0a, 0x00, 0x00, 0x02, 0x09, 0x02, 0xaa,
        0xbb,
    ];
    let (rest, subs) = parse_isis_subtlvs(16, &bytes).unwrap();
    assert!(rest.is_empty());
    assert_eq!(subs.len(), 3);
    match &subs[0] {
        IsisSubTlv::Ipv4InterfaceAddress(t) => {
            assert_eq!(t.header.tlv_type.0, 6);
            assert_eq!(t.header.len, 4);
            assert_eq!(t.addr, 0xc0a80001);
        }
        _ => panic!("expected an interface address"),
    }
    match &subs[1] {
        IsisSubTlv::Ipv4NeighborAddress(t) => {
            assert_eq!(t.header.tlv_type.0, 8);
            assert_eq!(t.header.len, 4);
            assert_eq!(t.addr, 0x0a000002);
        }
        _ => panic!("expected a neighbor address"),
    }
    assert!(matches!(subs[2], IsisSubTlv::Unsupported));
}

#[test]
fn subtlv_reencodes_to_source_bytes() {
    let bytes = [0x06, 0x04, 0xc0, 0xa8, 0x00, 0x01];
    let (_, subs) = parse_isis_subtlvs(6, &bytes).unwrap();
    match &subs[0] {
        IsisSubTlv::Ipv4InterfaceAddress(t) => {
            let mut out: Vec<u8> = vec![t.header.tlv_type.0, t.header.len];
            out.extend_from_slice(&t.addr.to_be_bytes());
            assert_eq!(&out[..], &bytes[..]);
        }
        _ => panic!("expected an interface address"),
    }
}

#[test]
fn subtlv_region_larger_than_input_is_truncation() {
    let bytes = [0x06, 0x04, 0xc0, 0xa8];
    assert_eq!(parse_isis_subtlvs(10, &bytes).unwrap_err(), IsisError::TruncatedInput);
}

#[test]
fn incomplete_subtlv_within_region_is_dropped() {
    // The region itself is available, but the record inside it is cut
    // short: the remainder is dropped, not an error.
    let bytes = [0x06, 0x04, 0xc0, 0xa8];
    let (rest, subs) = parse_isis_subtlvs(4, &bytes).unwrap();
    assert!(rest.is_empty());
    assert!(subs.is_empty());
}

#[test]
fn neighbor_fixed_fields_decode() {
    let raw = [0x12, 0x34, 0x56, 0x78, 0x90, 0x12, 0x34, 0x00, 0x00, 0x01, 0x00];
    let (rest, n) = IsNeighbor::parse(&raw).unwrap();
    assert!(rest.is_empty());
    assert_eq!(n.is_neighbor_id, [0x12, 0x34, 0x56, 0x78, 0x90, 0x12, 0x34]);
    assert_eq!(n.metric, [0x00, 0x00, 0x01]);
    assert_eq!(n.sub_tlvs_len, 0);
    assert!(n.sub_tlvs.is_none());
}

#[test]
fn neighbor_subtlv_region_is_bounded() {
    // The Sub-TLV length claims seven bytes; one complete record and one
    // stray byte lie inside. The stray byte is consumed with the region,
    // never read as a record, and the next neighbor follows intact.
    let raw = [
        0x12, 0x34, 0x56, 0x78, 0x90, 0x12, 0x34, 0x00, 0x00, 0x01, 0x07, 0x06, 0x04, 0xc0, 0xa8,
        0x00, 0x00, 0xee, 0x99,
    ];
    let (rest, n) = IsNeighbor::parse(&raw).unwrap();
    assert_eq!(rest, &[0x99][..]);
    let subs = n.sub_tlvs.as_ref().unwrap();
    assert_eq!(subs.len(), 1);
    assert!(matches!(subs[0], IsisSubTlv::Ipv4InterfaceAddress(_)));
}

#[test]
fn neighbor_region_decodes_records_until_exhausted() {
    let bytes = [
        0x12, 0x34, 0x56, 0x78, 0x90, 0x12, 0x34, 0x00, 0x00, 0x01, 0x00, 0x12, 0x34, 0x56, 0x78,
        0x90, 0x12, 0x35, 0x00, 0x00, 0x02, 0x00, 0xff,
    ];
    // A 23-byte region: two 11-byte neighbors and one dangling byte.
    let (rest, neighbors) = parse_is_neighbors(23, &bytes).unwrap();
    assert!(rest.is_empty());
    assert_eq!(neighbors.len(), 2);
    assert_eq!(neighbors[1].metric, [0x00, 0x00, 0x02]);
}

#[test]
fn extended_is_reachability_verifies_its_tag() {
    let bytes = [0x63, 0x00];
    assert_eq!(
        IsisTlvExtendedIsReachability::parse(&bytes).unwrap_err(),
        IsisError::VerifyFailed
    );
}

#[test]
fn extended_is_reachability_parses_standalone() {
    let bytes = [
        0x16, 0x0b, 0x12, 0x34, 0x56, 0x78, 0x90, 0x12, 0x34, 0x00, 0x00, 0x01, 0x00, 0x77,
    ];
    let (rest, t) = IsisTlvExtendedIsReachability::parse(&bytes).unwrap();
    assert_eq!(rest, &[0x77][..]);
    assert_eq!(t.header.tlv_type.0, 22);
    assert_eq!(t.header.len, 11);
    assert_eq!(t.neighbors.len(), 1);
}

#[test]
fn skipper_consumes_header_and_declared_payload() {
    let bytes = [0x63, 0x02, 0x01, 0x02, 0xaa];
    let (rest, tlv) = skipper(&bytes).unwrap();
    assert_eq!(rest, &[0xaa][..]);
    assert!(matches!(tlv, IsisTlv::Unsupported));
}

#[test]
fn skipper_reports_truncation() {
    let bytes = [0x63, 0x05, 0x01];
    assert_eq!(skipper(&bytes).unwrap_err(), IsisError::TruncatedInput);
}

#[test]
fn tlv_region_of_declared_length_only() {
    // The region is five bytes; the unrecognized TLV inside consumes three
    // and the trailing two are dropped. Bytes past the region remain.
    let bytes = [0x63, 0x01, 0xaa, 0x63, 0x09, 0x55];
    let (rest, tlvs) = parse_isis_tlvs(5, &bytes).unwrap();
    assert_eq!(rest, &[0x55][..]);
    assert_eq!(tlvs.len(), 1);
    assert!(matches!(tlvs[0], IsisTlv::Unsupported));
}

#[test]
fn lsp_id_displays_in_dotted_hex() {
    let id = LspId { system_id: [0x1234, 0x5678, 0x9012], pseudo_id: 0x00, frag_id: 0x01 };
    assert_eq!(id.display_string(), "1234.5678.9012.00-01");
}

#[test]
fn numeric_fields_display_as_hex() {
    assert_eq!(Irpd(0x83).display_string(), "0x83");
    assert_eq!(Irpd(0x05).display_string(), "0x5");
    assert_eq!(SeqNo(0x0000000a).display_string(), "0x0000000a");
    assert_eq!(Chksm(0xffff).display_string(), "0xffff");
}
