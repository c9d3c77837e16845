//! Link-layer demultiplexing: type-code selection and header stripping.

use pcap_parse::link::get_data;
use pcap_parse::link::get_data_ethernet;
use pcap_parse::link::get_data_linux_cooked;
use pcap_parse::link::select_link_type;
use pcap_parse::link::LinkType;
use pcap_parse::PipelineError;

#[test]
fn known_link_types_are_selected() {
    assert_eq!(select_link_type(1), Ok(LinkType::Ethernet));
    assert_eq!(select_link_type(113), Ok(LinkType::LinuxCooked));
    assert_eq!(select_link_type(239), Ok(LinkType::Nflog));
}

#[test]
fn unknown_link_type_fails_at_startup() {
    // An unrecognized type code is a fatal configuration error, reported
    // before any packet is read.
    let r = select_link_type(147);
    assert_eq!(r, Err(PipelineError::UnsupportedLinkType));
    assert!(r.unwrap_err().is_fatal());
    assert_eq!(select_link_type(0), Err(PipelineError::UnsupportedLinkType));
    assert_eq!(select_link_type(-1), Err(PipelineError::UnsupportedLinkType));
}

#[test]
fn ethernet_header_is_stripped() {
    let mut frame: Vec<u8> = (0u8..20u8).collect();
    assert_eq!(get_data_ethernet(&frame).unwrap(), &frame[14..]);
    frame.truncate(13);
    assert_eq!(get_data_ethernet(&frame), Err(PipelineError::TruncatedFrame));
    assert!(!PipelineError::TruncatedFrame.is_fatal());
}

#[test]
fn linux_cooked_header_is_stripped() {
    let frame: Vec<u8> = (0u8..24u8).collect();
    assert_eq!(get_data_linux_cooked(&frame).unwrap(), &frame[16..]);
    assert_eq!(get_data_linux_cooked(&frame[..15]), Err(PipelineError::TruncatedFrame));
}

#[test]
fn demux_follows_the_selected_strategy() {
    let frame: Vec<u8> = (0u8..32u8).collect();
    assert_eq!(get_data(LinkType::Ethernet, &frame).unwrap(), frame[14..].to_vec());
    assert_eq!(get_data(LinkType::LinuxCooked, &frame).unwrap(), frame[16..].to_vec());

    // Netfilter-log: fixed prefix, then a payload attribute record.
    let nflog = vec![2, 0, 0, 0, 7, 0, 9, 0, 0x5A, 0x5B, 0x5C, 0]; // length 7, type 9
    assert_eq!(get_data(LinkType::Nflog, &nflog).unwrap(), vec![0x5A, 0x5B, 0x5C]);
}
