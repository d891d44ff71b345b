use traceroute::addr::IpAddr;
use traceroute::parser::{Icmp, Ip, Udp};

const SAMPLE_TTL: [u8; 96] = [
    69, 0, 0, 96, 166, 227, 0, 0, 250, 1, 182, 86, 68, 86, 94, 85, 192, 168, 0, 15, 11, 0, 67, 0,
    58, 92, 64, 0, 69, 32, 0, 36, 58, 92, 64, 0, 1, 17, 119, 18, 192, 168, 0, 15, 129, 97, 134,
    34, 48, 57, 48, 57, 0, 16, 199, 12, 1, 2, 3, 4, 5, 6, 7, 8, 0, 0, 0, 0, 0, 0, 0, 0, 0, 0, 0,
    0, 0, 0, 0, 0, 0, 0, 0, 0, 0, 0, 0, 0, 0, 0, 0, 0, 0, 0, 0, 0,
];

#[test]
fn ip_header_fields() {
    let ip = Ip::new(&SAMPLE_TTL);
    assert_eq!(ip.version(), 4);
    assert_eq!(ip.hdr_len(), 5);
    assert_eq!(ip.hdr_bytes(), 20);
    assert_eq!(ip.tos(), 69);
    assert_eq!(ip.total_len(), 96);
    assert_eq!(ip.frag_id(), 0xA6E3);
    assert_eq!(ip.offset(), 0);
    assert_eq!(ip.ttl(), 250);
    assert_eq!(ip.protocol(), 1);
    assert_eq!(ip.checksum(), 0xB656);
    assert_eq!(ip.source(), IpAddr::Ipv4Addr(68, 86, 94, 85));
    assert_eq!(ip.dest(), IpAddr::Ipv4Addr(192, 168, 0, 15));
}

#[test]
fn ip_offset_keeps_thirteen_bits() {
    let buf = [0x45u8, 0, 0, 20, 0, 0, 0xFF, 0x34];
    let ip = Ip::new(&buf);
    assert_eq!(ip.offset(), 0x1F34);
}

#[test]
fn ip_payload_up_to_total_length() {
    let ip = Ip::new(&SAMPLE_TTL);
    assert_eq!(ip.payload(), &SAMPLE_TTL[20..96]);
    let mut longer = SAMPLE_TTL.to_vec();
    longer.extend_from_slice(&[1, 2, 3]);
    let ip = Ip::new(&longer);
    assert_eq!(ip.payload(), &SAMPLE_TTL[20..96]);
}

#[test]
fn ip_payload_cut_at_buffer_end() {
    let short = &SAMPLE_TTL[..40];
    let ip = Ip::new(short);
    assert_eq!(ip.total_len(), 96);
    assert_eq!(ip.payload(), &SAMPLE_TTL[20..40]);
}

#[test]
fn ip_payload_empty_when_header_fills_total() {
    let buf = [0x46u8, 0, 0, 24, 0, 0, 0, 0, 1, 1, 0, 0, 1, 2, 3, 4, 5, 6, 7, 8, 0, 0, 0, 0];
    let ip = Ip::new(&buf);
    assert_eq!(ip.hdr_bytes(), 24);
    assert_eq!(ip.payload().len(), 0);
}

#[test]
fn ip_first_byte_law() {
    for b in [0u8, 0x45, 0x4F, 0x60, 0xFF] {
        let buf = [b];
        let ip = Ip::new(&buf);
        assert_eq!(ip.version() as u16 * 16 + ip.hdr_len() as u16, ip.tos() as u16);
        assert_eq!(ip.hdr_bytes(), 4 * ip.hdr_len());
    }
}

#[test]
fn ip_header_then_payload_law() {
    let ip = Ip::new(&SAMPLE_TTL);
    let mut joined = SAMPLE_TTL[..ip.hdr_bytes() as usize].to_vec();
    joined.extend_from_slice(ip.payload());
    assert_eq!(joined, SAMPLE_TTL[..96].to_vec());
}

#[test]
fn icmp_fields() {
    let ip = Ip::new(&SAMPLE_TTL);
    let icmp = Icmp::new(ip.payload());
    assert_eq!(icmp.icmp_type(), 11);
    assert_eq!(icmp.code(), 0);
    assert_eq!(icmp.checksum(), 0x4300);
    assert_eq!(icmp.data(), &[58, 92, 64, 0]);
    assert_eq!(icmp.payload(), &SAMPLE_TTL[28..96]);
}

#[test]
fn icmp_data_then_payload_law() {
    let msg = [3u8, 3, 0xC5, 0x59, 9, 8, 7, 6, 5, 4];
    let icmp = Icmp::new(&msg);
    let mut joined = icmp.data().to_vec();
    joined.extend_from_slice(icmp.payload());
    assert_eq!(joined, msg[4..].to_vec());
    let exact = [0u8; 8];
    assert_eq!(Icmp::new(&exact).payload().len(), 0);
}

#[test]
fn udp_fields() {
    let dgram = [48u8, 57, 0xC3, 0x51, 0, 12, 199, 12, 1, 2, 3, 4];
    let udp = Udp::new(&dgram);
    assert_eq!(udp.srcport(), 12345);
    assert_eq!(udp.dstport(), 50001);
    assert_eq!(udp.length(), 12);
    assert_eq!(udp.checksum(), 0xC70C);
    assert_eq!(udp.payload(), &[1, 2, 3, 4]);
}

#[test]
fn udp_payload_cut_at_length_field() {
    let dgram = [0u8, 1, 0, 2, 0, 10, 0, 0, 1, 2, 3, 4, 5];
    let udp = Udp::new(&dgram);
    assert_eq!(udp.payload(), &[1, 2]);
}

#[test]
fn udp_payload_to_buffer_end_when_length_claims_more() {
    let dgram = [0u8, 1, 0, 2, 0, 200, 0, 0, 1, 2, 3];
    let udp = Udp::new(&dgram);
    assert_eq!(udp.payload(), &[1, 2, 3]);
    let header_only = [0u8, 1, 0, 2, 0, 8, 0, 0];
    assert_eq!(Udp::new(&header_only).payload().len(), 0);
}

#[test]
fn quoted_udp_probe_in_sample() {
    let ip = Ip::new(&SAMPLE_TTL);
    let icmp = Icmp::new(ip.payload());
    let inner = Ip::new(icmp.payload());
    assert_eq!(inner.ttl(), 1);
    assert_eq!(inner.protocol(), 17);
    assert_eq!(inner.source(), IpAddr::Ipv4Addr(192, 168, 0, 15));
    assert_eq!(inner.dest(), IpAddr::Ipv4Addr(129, 97, 134, 34));
    let udp = Udp::new(inner.payload());
    assert_eq!(udp.srcport(), 12345);
    assert_eq!(udp.dstport(), 12345);
    assert_eq!(udp.length(), 16);
    assert_eq!(udp.payload(), &[1, 2, 3, 4, 5, 6, 7, 8]);
}
