//! Netfilter-log TLV decoding: round trips, payload extraction, and the
//! malformed-header cases.

use pcap_parse::nflog::encode_nflog_header;
use pcap_parse::nflog::get_data_nflog;
use pcap_parse::nflog::parse_nflog_header;
use pcap_parse::nflog::parse_nflog_tlvs;
use pcap_parse::nflog::NflogHdr;
use pcap_parse::nflog::NflogTlv;
use pcap_parse::PipelineError;

/// One encoded TLV record: little-endian length and type, value, zero padding
/// to the next 4-byte boundary.
fn tlv_bytes(t: u16, v: &[u8]) -> Vec<u8> {
    let l = (v.len() + 4) as u16;
    let mut out = vec![(l & 0xff) as u8, (l >> 8) as u8, (t & 0xff) as u8, (t >> 8) as u8];
    out.extend_from_slice(v);
    while out.len() % 4 != 0 {
        out.push(0);
    }
    out
}

/// A whole netfilter-log header around the given records.
fn nflog_bytes(af: u8, vers: u8, res_id: u16, records: &[(u16, Vec<u8>)]) -> Vec<u8> {
    let mut out = vec![af, vers, (res_id & 0xff) as u8, (res_id >> 8) as u8];
    for (t, v) in records {
        out.extend_from_slice(&tlv_bytes(*t, v));
    }
    out
}

#[test]
fn tlv_round_trip_all_padding_cases() {
    // Record lengths 4, 5, 8 and 9: zero-value, padded, aligned, padded.
    let records = vec![
        NflogTlv { l: 4, t: 1, v: vec![] },
        NflogTlv { l: 5, t: 2, v: vec![0x11] },
        NflogTlv { l: 8, t: 3, v: vec![0x21, 0x22, 0x23, 0x24] },
        NflogTlv { l: 9, t: 4, v: vec![0x31, 0x32, 0x33, 0x34, 0x35] },
    ];
    let hdr = NflogHdr { af: 2, vers: 0, res_id: 0x1234, data: records };
    let encoded = encode_nflog_header(&hdr);
    // Each record is padded to a 4-byte boundary: 4 + 4 + 8 + 8 + 12 bytes.
    assert_eq!(encoded.len(), 36);
    let decoded = parse_nflog_header(&encoded).expect("round trip must parse");
    assert_eq!(decoded.af, 2);
    assert_eq!(decoded.vers, 0);
    assert_eq!(decoded.res_id, 0x1234);
    assert_eq!(decoded.data.len(), 4);
    let expect: Vec<(u16, u16, Vec<u8>)> = vec![
        (4, 1, vec![]),
        (5, 2, vec![0x11]),
        (8, 3, vec![0x21, 0x22, 0x23, 0x24]),
        (9, 4, vec![0x31, 0x32, 0x33, 0x34, 0x35]),
    ];
    for (rec, (l, t, v)) in decoded.data.iter().zip(expect.iter()) {
        assert_eq!(rec.l, *l);
        assert_eq!(rec.t, *t);
        assert_eq!(&rec.v, v);
    }
}

#[test]
fn payload_attribute_is_extracted_exactly() {
    // A type-9 record among others decodes to exactly its value bytes.
    let data = nflog_bytes(
        2,
        0,
        7,
        &[
            (1, vec![0x01, 0x02]),
            (9, vec![0xAA, 0xBB, 0xCC]),
            (5, vec![0xDD, 0xEE, 0xFF, 0x00]),
        ],
    );
    let payload = get_data_nflog(&data).expect("payload attribute present");
    assert_eq!(payload, vec![0xAA, 0xBB, 0xCC]);
}

#[test]
fn payload_attribute_first_match_wins() {
    let data = nflog_bytes(2, 0, 7, &[(9, vec![0x10]), (9, vec![0x20])]);
    let payload = get_data_nflog(&data).expect("payload attribute present");
    assert_eq!(payload, vec![0x10]);
}

#[test]
fn payload_attribute_position_does_not_matter() {
    let head = get_data_nflog(&nflog_bytes(2, 0, 7, &[(9, vec![0xAA, 0xBB, 0xCC]), (3, vec![1])]));
    let tail = get_data_nflog(&nflog_bytes(2, 0, 7, &[(3, vec![1]), (9, vec![0xAA, 0xBB, 0xCC])]));
    assert_eq!(head.unwrap(), vec![0xAA, 0xBB, 0xCC]);
    assert_eq!(tail.unwrap(), vec![0xAA, 0xBB, 0xCC]);
}

#[test]
fn missing_payload_attribute_is_fatal() {
    let data = nflog_bytes(2, 0, 7, &[(1, vec![0x01]), (5, vec![0x02])]);
    let r = get_data_nflog(&data);
    assert_eq!(r, Err(PipelineError::MissingPayloadAttribute));
    assert!(PipelineError::MissingPayloadAttribute.is_fatal());
}

#[test]
fn truncated_record_is_malformed() {
    // The record declares 8 bytes but only 6 are captured.
    let mut data = nflog_bytes(2, 0, 7, &[(9, vec![1, 2, 3, 4])]);
    data.truncate(data.len() - 2);
    assert_eq!(get_data_nflog(&data), Err(PipelineError::MalformedHeader));
}

#[test]
fn missing_padding_is_malformed() {
    // A 5-byte record needs 3 padding bytes; strip them.
    let mut data = nflog_bytes(2, 0, 7, &[(9, vec![0x44])]);
    data.truncate(data.len() - 3);
    assert_eq!(get_data_nflog(&data), Err(PipelineError::MalformedHeader));
}

#[test]
fn undersized_length_field_is_malformed() {
    // length = 2 cannot even cover its own prefix.
    let data = vec![2, 0, 7, 0, 2, 0, 9, 0];
    assert_eq!(get_data_nflog(&data), Err(PipelineError::MalformedHeader));
}

#[test]
fn short_fixed_prefix_is_malformed() {
    assert_eq!(get_data_nflog(&[2, 0, 7]), Err(PipelineError::MalformedHeader));
    assert!(PipelineError::MalformedHeader.is_fatal());
}

#[test]
fn empty_record_list_parses() {
    let tlvs = parse_nflog_tlvs(&[]).expect("no records is a valid stream");
    assert_eq!(tlvs.len(), 0);
    // ... but a header with no records has no payload to hand out.
    let data = nflog_bytes(2, 0, 7, &[]);
    assert_eq!(get_data_nflog(&data), Err(PipelineError::MissingPayloadAttribute));
}

#[test]
fn little_endian_fields_are_read_correctly() {
    // resource_id 0x0102 stored as 02 01; record length 5 as 05 00.
    let data = vec![10, 1, 0x02, 0x01, 5, 0, 9, 0, 0x7F, 0, 0, 0];
    let hdr = parse_nflog_header(&data).expect("well-formed");
    assert_eq!(hdr.af, 10);
    assert_eq!(hdr.vers, 1);
    assert_eq!(hdr.res_id, 0x0102);
    assert_eq!(hdr.data.len(), 1);
    assert_eq!(hdr.data[0].l, 5);
    assert_eq!(hdr.data[0].t, 9);
    assert_eq!(hdr.data[0].v, vec![0x7F]);
}
