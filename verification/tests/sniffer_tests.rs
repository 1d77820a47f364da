use aur_tester::domains::DomainSet;
use aur_tester::packet::{format_ipv4, ipv4_to_number, DecodedFrame, DnsAnswer, Transport};
use aur_tester::pkgbuild::default_allowed_domains;
use aur_tester::sniffer::{capture_filter, Sniffer, Verdict};
use etherparse::PacketBuilder;

const CONTAINER: [u8; 4] = [172, 17, 0, 2];
const RESOLVER: [u8; 4] = [172, 17, 0, 1];
const WIKIMEDIA: [u8; 4] = [185, 15, 59, 224];
const GITHUB: [u8; 4] = [140, 82, 121, 4];

fn encode_name(name: &str) -> Vec<u8> {
    let mut out = Vec::new();
    for label in name.split('.') {
        out.push(label.len() as u8);
        out.extend_from_slice(label.as_bytes());
    }
    out.push(0);
    out
}

/// A DNS response for `question` whose answers are `(owner, type, rdata)`.
fn dns_response(question: &str, answers: &[(&str, u16, Vec<u8>)]) -> Vec<u8> {
    let mut m = vec![0x12, 0x34, 0x81, 0x80, 0, 1, 0, answers.len() as u8, 0, 0, 0, 0];
    m.extend(encode_name(question));
    m.extend_from_slice(&[0, 1, 0, 1]);
    for (owner, typ, rdata) in answers {
        m.extend(encode_name(owner));
        m.extend_from_slice(&typ.to_be_bytes());
        m.extend_from_slice(&[0, 1, 0, 0, 0x0e, 0x10]);
        m.extend_from_slice(&(rdata.len() as u16).to_be_bytes());
        m.extend_from_slice(rdata);
    }
    m
}

fn udp_frame(src: [u8; 4], dst: [u8; 4], sport: u16, dport: u16, payload: &[u8]) -> Vec<u8> {
    let builder = PacketBuilder::ethernet2([2, 0, 0, 0, 0, 1], [2, 0, 0, 0, 0, 2])
        .ipv4(src, dst, 64)
        .udp(sport, dport);
    let mut out = Vec::new();
    builder.write(&mut out, payload).unwrap();
    out
}

fn tcp_frame(src: [u8; 4], dst: [u8; 4], sport: u16, dport: u16) -> Vec<u8> {
    let builder = PacketBuilder::ethernet2([2, 0, 0, 0, 0, 1], [2, 0, 0, 0, 0, 2])
        .ipv4(src, dst, 64)
        .tcp(sport, dport, 1, 1024);
    let mut out = Vec::new();
    builder.write(&mut out, &[]).unwrap();
    out
}

fn wikipedia_response() -> Vec<u8> {
    dns_response(
        "www.wikipedia.org",
        &[
            ("www.wikipedia.org", 5, encode_name("dyna.wikimedia.org")),
            ("dyna.wikimedia.org", 1, WIKIMEDIA.to_vec()),
        ],
    )
}

fn new_sniffer() -> Sniffer {
    Sniffer::new("172.17.0.2".to_string(), default_allowed_domains())
}

#[test]
fn sniffer_flags_connection_to_resolved_unlisted_domain() {
    let mut s = new_sniffer();
    let dns = udp_frame(RESOLVER, CONTAINER, 53, 40000, &wikipedia_response());
    match s.process_frame(&dns) {
        Verdict::Resolved { names } => assert_eq!(names, vec!["dyna.wikimedia.org".to_string()]),
        _ => panic!("a DNS response must be learnt"),
    }
    match s.process_frame(&tcp_frame(CONTAINER, WIKIMEDIA, 50000, 443)) {
        Verdict::Alert { domain, address, port } => {
            assert_eq!(domain, "dyna.wikimedia.org");
            assert_eq!(address, WIKIMEDIA);
            assert_eq!(port, 443);
        }
        _ => panic!("Sniffer doesn't detect connection to wikipedia.org!"),
    }
}

#[test]
fn sniffer_permits_connection_to_allowed_domain() {
    let mut s = new_sniffer();
    let resp = dns_response("github.com", &[("github.com", 1, GITHUB.to_vec())]);
    s.process_frame(&udp_frame(RESOLVER, CONTAINER, 53, 40000, &resp));
    match s.process_frame(&tcp_frame(CONTAINER, GITHUB, 50001, 443)) {
        Verdict::Permitted { domain, port, .. } => {
            assert_eq!(domain, "github.com");
            assert_eq!(port, 443);
        }
        _ => panic!("github.com is allowed"),
    }
}

#[test]
fn sniffer_alerts_on_direct_ip_connection() {
    let mut s = new_sniffer();
    match s.process_frame(&tcp_frame(CONTAINER, [1, 2, 3, 4], 50002, 80)) {
        Verdict::Alert { domain, address, port } => {
            assert_eq!(domain, "UNKNOWN DOMAIN");
            assert_eq!(address, [1, 2, 3, 4]);
            assert_eq!(port, 80);
        }
        _ => panic!("a connection to an unnamed address must raise an alert"),
    }
}

#[test]
fn sniffer_ignores_traffic_not_sent_by_container() {
    let mut s = new_sniffer();
    let v = s.process_frame(&tcp_frame(WIKIMEDIA, CONTAINER, 443, 50000));
    assert!(matches!(v, Verdict::Ignored));
    let v = s.process_frame(&tcp_frame([172, 17, 0, 20], [1, 2, 3, 4], 1, 2));
    assert!(matches!(v, Verdict::Ignored));
}

#[test]
fn sniffer_ignores_undecodable_and_non_dns_frames() {
    let mut s = new_sniffer();
    assert!(matches!(s.process_frame(&[1, 2, 3]), Verdict::Ignored));
    // UDP from another port is not read as DNS
    let resp = dns_response("github.com", &[("github.com", 1, GITHUB.to_vec())]);
    assert!(matches!(s.process_frame(&udp_frame(RESOLVER, CONTAINER, 5353, 40000, &resp)), Verdict::Ignored));
    // an empty DNS datagram is ignored
    assert!(matches!(s.process_frame(&udp_frame(RESOLVER, CONTAINER, 53, 40000, &[])), Verdict::Ignored));
    // a malformed DNS message is ignored
    assert!(matches!(s.process_frame(&udp_frame(RESOLVER, CONTAINER, 53, 40000, &[0xff, 0x01])), Verdict::Ignored));
    // nothing was learnt: github.com's address is still unknown
    match s.process_frame(&tcp_frame(CONTAINER, GITHUB, 50003, 443)) {
        Verdict::Alert { domain, .. } => assert_eq!(domain, "UNKNOWN DOMAIN"),
        _ => panic!("unknown address must raise an alert"),
    }
}

#[test]
fn later_dns_answer_replaces_earlier_name() {
    let mut s = new_sniffer();
    let first = dns_response("evil.example", &[("evil.example", 1, GITHUB.to_vec())]);
    s.process_frame(&udp_frame(RESOLVER, CONTAINER, 53, 40000, &first));
    let second = dns_response("github.com", &[("github.com", 1, GITHUB.to_vec())]);
    s.process_frame(&udp_frame(RESOLVER, CONTAINER, 53, 40000, &second));
    match s.process_frame(&tcp_frame(CONTAINER, GITHUB, 50004, 443)) {
        Verdict::Permitted { domain, .. } => assert_eq!(domain, "github.com"),
        _ => panic!("the later answer names the address"),
    }
}

#[test]
fn learn_answers_keeps_only_a_records() {
    let mut s = new_sniffer();
    let answers = vec![
        DnsAnswer { address: None, name: "www.wikipedia.org".to_string() },
        DnsAnswer { address: Some(WIKIMEDIA), name: "dyna.wikimedia.org".to_string() },
    ];
    match s.learn_answers(&answers) {
        Verdict::Resolved { names } => assert_eq!(names, vec!["dyna.wikimedia.org".to_string()]),
        _ => panic!("answers are learnt"),
    }
    match s.judge_connection(WIKIMEDIA, 443) {
        Verdict::Alert { domain, .. } => assert_eq!(domain, "dyna.wikimedia.org"),
        _ => panic!("wikimedia is not allowed"),
    }
}

#[test]
fn observe_decoded_frames() {
    let mut allowed = DomainSet::new();
    allowed.insert("example.org".to_string());
    let mut s = Sniffer::new("10.0.0.5".to_string(), allowed);
    let frame = DecodedFrame {
        ipv4: Some(([10, 0, 0, 5], [93, 184, 215, 14])),
        transport: Transport::Tcp { source_port: 41000, destination_port: 80 },
        payload: vec![],
    };
    match s.observe(&frame) {
        Verdict::Alert { domain, port, .. } => {
            assert_eq!(domain, "UNKNOWN DOMAIN");
            assert_eq!(port, 80);
        }
        _ => panic!("unknown address"),
    }
    let other = DecodedFrame { ipv4: None, transport: Transport::Other, payload: vec![1] };
    assert!(matches!(s.observe(&other), Verdict::Ignored));
}

#[test]
fn ipv4_text_and_number() {
    assert_eq!(format_ipv4([172, 17, 0, 2]), "172.17.0.2");
    assert_eq!(format_ipv4([0, 9, 10, 255]), "0.9.10.255");
    assert_eq!(format_ipv4([100, 99, 200, 1]), "100.99.200.1");
    assert_eq!(ipv4_to_number([1, 2, 3, 4]), 0x01020304);
    assert_eq!(ipv4_to_number([255, 255, 255, 255]), u32::MAX);
}

#[test]
fn filter_keeps_container_traffic() {
    assert_eq!(capture_filter(&"172.17.0.2".to_string()), "host 172.17.0.2");
}

#[test]
fn direct_ip_connection_alerts_even_if_label_is_allowed() {
    let mut allowed = default_allowed_domains();
    allowed.insert("UNKNOWN DOMAIN".to_string());
    let mut s = Sniffer::new("172.17.0.2".to_string(), allowed);
    match s.process_frame(&tcp_frame(CONTAINER, [8, 8, 8, 8], 50010, 443)) {
        Verdict::Alert { domain, address, port } => {
            assert_eq!(domain, "UNKNOWN DOMAIN");
            assert_eq!(address, [8, 8, 8, 8]);
            assert_eq!(port, 443);
        }
        _ => panic!("a direct IP connection must always raise an alert"),
    }
    assert!(matches!(s.judge_connection([8, 8, 8, 8], 80), Verdict::Alert { .. }));
}

#[test]
fn dns_response_sent_by_container_is_learnt() {
    let mut s = new_sniffer();
    let resp = dns_response("evil.example", &[("evil.example", 1, [9, 9, 9, 9].to_vec())]);
    match s.process_frame(&udp_frame(CONTAINER, [172, 17, 0, 9], 53, 40000, &resp)) {
        Verdict::Resolved { names } => assert_eq!(names, vec!["evil.example".to_string()]),
        _ => panic!("a DNS reply sent by the container is learnt"),
    }
    match s.process_frame(&tcp_frame(CONTAINER, [9, 9, 9, 9], 50012, 443)) {
        Verdict::Alert { domain, .. } => assert_eq!(domain, "evil.example"),
        _ => panic!("evil.example is not allowed"),
    }
}

/// A DNS reply between two other hosts never passes the capture filter;
/// should one reach the sniffer, it is not learnt.
#[test]
fn dns_response_between_other_hosts_is_ignored() {
    let mut s = new_sniffer();
    let resp = dns_response("github.com", &[("github.com", 1, GITHUB.to_vec())]);
    assert!(matches!(s.process_frame(&udp_frame(RESOLVER, [172, 17, 0, 9], 53, 40000, &resp)), Verdict::Ignored));
    match s.process_frame(&tcp_frame(CONTAINER, GITHUB, 50011, 443)) {
        Verdict::Alert { domain, .. } => assert_eq!(domain, "UNKNOWN DOMAIN"),
        _ => panic!("the other host's answer must not be learnt"),
    }
}
