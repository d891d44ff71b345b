use traceroute::addr::IpAddr;
use traceroute::parser::{Icmp, Ip, Udp};
use traceroute::report::{read_icmp_report, read_ip_summary, IcmpKind, IpSummary, ReportError};
use traceroute::traceroute::{probe_for, Hop, Step, TraceRequest, TraceResponsePkt, TraceRun};

const SAMPLE_TTL: [u8; 96] = [
    69, 0, 0, 96, 166, 227, 0, 0, 250, 1, 182, 86, 68, 86, 94, 85, 192, 168, 0, 15, 11, 0, 67, 0,
    58, 92, 64, 0, 69, 32, 0, 36, 58, 92, 64, 0, 1, 17, 119, 18, 192, 168, 0, 15, 129, 97, 134,
    34, 48, 57, 48, 57, 0, 16, 199, 12, 1, 2, 3, 4, 5, 6, 7, 8, 0, 0, 0, 0, 0, 0, 0, 0, 0, 0, 0,
    0, 0, 0, 0, 0, 0, 0, 0, 0, 0, 0, 0, 0, 0, 0, 0, 0, 0, 0, 0, 0,
];

const SAMPLE_PORT: [u8; 64] = [
    69, 32, 0, 64, 31, 195, 0, 0, 45, 1, 165, 159, 129, 97, 134, 34, 192, 168, 0, 15, 3, 3, 197,
    89, 0, 0, 0, 0, 69, 0, 0, 36, 58, 108, 64, 0, 6, 17, 114, 34, 192, 168, 0, 15, 129, 97, 134,
    34, 48, 57, 48, 57, 0, 16, 199, 12, 1, 2, 3, 4, 5, 6, 7, 8,
];

fn request(tries: usize, hop_limit: usize) -> TraceRequest {
    TraceRequest { tries, hop_limit, destination: IpAddr::Ipv4Addr(8, 8, 8, 8) }
}

#[test]
fn sample_ttl_report() {
    let outer = IpSummary {
        ttl: 250,
        protocol: 1,
        src: IpAddr::Ipv4Addr(68, 86, 94, 85),
        dst: IpAddr::Ipv4Addr(192, 168, 0, 15),
    };
    let rep = read_icmp_report(&SAMPLE_TTL).unwrap();
    assert_eq!(rep.outer, outer);
    assert_eq!(rep.icmp_type, 11);
    assert_eq!(rep.code, 0);
    assert_eq!(rep.checksum, 0x4300);
    // The quoted header is only checked for its first byte; the rest repeats the outer one.
    assert_eq!(rep.kind, IcmpKind::TtlExpired(outer));
    assert!(rep.outer.is_icmp());
}

#[test]
fn sample_port_report() {
    let rep = read_icmp_report(&SAMPLE_PORT).unwrap();
    assert_eq!(rep.outer.ttl, 45);
    assert_eq!(rep.outer.src, IpAddr::Ipv4Addr(129, 97, 134, 34));
    assert_eq!(rep.outer.dst, IpAddr::Ipv4Addr(192, 168, 0, 15));
    assert_eq!(rep.icmp_type, 3);
    assert_eq!(rep.code, 3);
    assert_eq!(rep.checksum, 0xC559);
    assert_eq!(rep.kind, IcmpKind::DestinationUnreachable);
}

#[test]
fn report_kinds_by_type() {
    let mut buf = SAMPLE_PORT.to_vec();
    buf[20] = 1;
    assert_eq!(read_icmp_report(&buf).unwrap().kind, IcmpKind::PingReply);
    buf[20] = 8;
    assert_eq!(read_icmp_report(&buf).unwrap().kind, IcmpKind::PingRequest);
    buf[20] = 42;
    assert_eq!(read_icmp_report(&buf).unwrap().kind, IcmpKind::Unhandled(42));
}

#[test]
fn report_errors() {
    assert_eq!(read_icmp_report(&[]), Err(ReportError::UnexpectedEnd));
    let mut buf = SAMPLE_PORT.to_vec();
    buf[0] = 0x46;
    assert_eq!(read_icmp_report(&buf), Err(ReportError::NotPlainIpv4(0x46)));
    assert_eq!(read_icmp_report(&SAMPLE_PORT[..23]), Err(ReportError::UnexpectedEnd));
    assert_eq!(read_icmp_report(&SAMPLE_PORT[..10]), Err(ReportError::UnexpectedEnd));
    let mut ttl = SAMPLE_TTL.to_vec();
    ttl[28] = 0x60;
    assert_eq!(read_icmp_report(&ttl), Err(ReportError::NotPlainIpv4(0x60)));
    assert_eq!(read_icmp_report(&SAMPLE_TTL[..28]), Err(ReportError::UnexpectedEnd));
    assert!(read_icmp_report(&SAMPLE_TTL[..29]).is_ok());
}

#[test]
fn ip_summary_reads_from_buffer_start() {
    let s = read_ip_summary(&SAMPLE_TTL, 28).unwrap();
    assert_eq!(s.ttl, 250);
    assert_eq!(read_ip_summary(&SAMPLE_TTL, 96), Err(ReportError::UnexpectedEnd));
    assert_eq!(read_ip_summary(&SAMPLE_TTL, 1), Err(ReportError::NotPlainIpv4(0)));
    assert!(!s.is_icmp() || s.protocol == 1);
}

#[test]
fn probe_for_ports_and_payloads() {
    let p = probe_for(1);
    assert_eq!(p.ttl, 1);
    assert_eq!(p.port, 50001);
    assert_eq!(p.payload, [1, 2, 3, 4, 5, 6, 7, 8]);
    assert_eq!(probe_for(15535).port, 65535);
    assert_eq!(probe_for(15536).port, 0);
    assert_eq!(probe_for(300).payload[0], 44);
}

#[test]
fn probe_plan_order() {
    let plan = request(2, 4).probe_plan();
    let ttls: Vec<usize> = plan.iter().map(|p| p.ttl).collect();
    assert_eq!(ttls, vec![1, 2, 3, 1, 2, 3]);
    for p in &plan {
        assert_eq!(*p, probe_for(p.ttl));
    }
}

#[test]
fn probe_plan_count_law() {
    for (tries, hop_limit) in [(3usize, 30usize), (1, 1), (0, 5), (4, 0), (2, 2)] {
        let plan = request(tries, hop_limit).probe_plan();
        let per_round = if hop_limit >= 1 { hop_limit - 1 } else { 0 };
        assert_eq!(plan.len(), tries * per_round);
        for (k, p) in plan.iter().enumerate() {
            assert_eq!(p.ttl, 1 + k % per_round);
        }
    }
}

#[test]
fn response_parse_is_never_taken() {
    assert!(TraceResponsePkt::parse_is_defined(&SAMPLE_TTL));
    assert!(TraceResponsePkt::new(&SAMPLE_TTL).is_none());
    assert!(TraceResponsePkt::new(&SAMPLE_PORT).is_none());
    let not_icmp = [0x45u8, 0, 0, 20, 0, 0, 0, 0, 64, 17];
    assert!(TraceResponsePkt::parse_is_defined(&not_icmp));
    assert!(TraceResponsePkt::new(&not_icmp).is_none());
}

#[test]
fn response_parse_defined_bounds() {
    assert!(!TraceResponsePkt::parse_is_defined(&SAMPLE_TTL[..9]));
    // An ICMP packet whose payload is empty cannot be looked at.
    let empty_payload = [0x45u8, 0, 0, 20, 0, 0, 0, 0, 64, 1, 0, 0, 1, 1, 1, 1, 2, 2, 2, 2];
    assert!(!TraceResponsePkt::parse_is_defined(&empty_payload));
    let mut bad_header = SAMPLE_TTL.to_vec();
    bad_header[0] = 0x4F;
    bad_header[3] = 40;
    assert!(!TraceResponsePkt::parse_is_defined(&bad_header));
}

#[test]
fn response_accessors() {
    let ip = Ip::new(&SAMPLE_TTL);
    let icmp = Icmp::new(ip.payload());
    let inner_ip = Ip::new(icmp.payload());
    let udp = Udp::new(inner_ip.payload());
    let resp = TraceResponsePkt { ip, icmp, inner_ip, udp };
    assert_eq!(resp.from(), IpAddr::Ipv4Addr(68, 86, 94, 85));
    assert_eq!(resp.dist(), 1);
    assert_eq!(resp.time(), 0);
}

#[test]
fn run_starts_with_one_list_per_hop() {
    let run = TraceRun::new(&request(3, 30));
    let results = run.into_results();
    assert_eq!(results.len(), 30);
    assert!(results.iter().all(|r| r.is_empty()));
}

#[test]
fn run_stops_at_sixth_timeout() {
    let mut run = TraceRun::new(&request(3, 30));
    for _ in 0..5 {
        assert_eq!(run.on_timeout(), Step::Continue);
    }
    assert_eq!(run.on_timeout(), Step::Stop);
}

#[test]
fn run_records_nothing_from_packets() {
    let mut run = TraceRun::new(&request(1, 4));
    assert_eq!(run.on_packet(&SAMPLE_TTL), (Step::Continue, None::<(usize, Hop)>));
    assert_eq!(run.on_packet(&SAMPLE_PORT), (Step::Continue, None));
    assert_eq!(run.on_timeout(), Step::Continue);
    let results = run.into_results();
    assert_eq!(results.len(), 4);
    assert!(results.iter().all(|r| r.is_empty()));
}
