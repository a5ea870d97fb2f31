use cfdns::cidr::{CidrSet, Ipv4NetVec};
use cfdns::dns::{first_a, question, QueryAction, Responder, UpstreamAction};
use cfdns::fast_ip::FastIpCell;
use cfdns::oracle::{DomainSet, MatchMode, Oracle};
use domain::base::iana::Rcode;
use domain::base::Message;
use domain::rdata::A;

fn encode_name(name: &str) -> Vec<u8> {
    let mut out = Vec::new();
    for label in name.split('.') {
        out.push(label.len() as u8);
        out.extend_from_slice(label.as_bytes());
    }
    out.push(0);
    out
}

fn query(id: u16, name: &str, qtype: u16) -> Vec<u8> {
    let mut q = vec![(id >> 8) as u8, id as u8, 0x01, 0x00, 0, 1, 0, 0, 0, 0, 0, 0];
    q.extend(encode_name(name));
    q.extend_from_slice(&[(qtype >> 8) as u8, qtype as u8, 0, 1]);
    q
}

fn upstream_answer(query: &[u8], ip: [u8; 4]) -> Vec<u8> {
    let mut r = query.to_vec();
    r[2] = 0x81;
    r[3] = 0x80;
    r[7] = 1;
    r.extend_from_slice(&[0xc0, 0x0c, 0, 1, 0, 1, 0, 0, 0x0e, 0x10, 0, 4]);
    r.extend_from_slice(&ip);
    r
}

fn cidrs(lines: &[&str]) -> CidrSet {
    Ipv4NetVec::from_lines(&lines.iter().map(|s| s.to_string()).collect())
}

fn static_responder(ttl: u32, domains: &[&str], mode: MatchMode) -> Responder {
    let entries = domains.iter().map(|d| d.as_bytes().to_vec()).collect();
    Responder {
        ttl,
        cidrs: cidrs(&[]),
        oracle: Oracle::Static { domains: DomainSet::from_lines(entries), mode },
    }
}

fn check_local_answer(answer: &[u8], query_id: u16, ttl: u32, ip: [u8; 4]) {
    let msg = Message::from_octets(answer).unwrap();
    let header = msg.header();
    assert_eq!(header.id(), query_id);
    assert!(header.qr());
    assert!(header.ra());
    assert!(header.rd());
    assert_eq!(header.rcode(), Rcode::NoError);
    assert_eq!(msg.header_counts().ancount(), 1);
    let rr = msg.answer().unwrap().limit_to::<A>().next().unwrap().unwrap();
    assert_eq!(rr.ttl().as_secs(), ttl);
    assert_eq!(rr.data().addr().octets(), ip);
}

#[test]
fn accepted_a_query_is_answered_with_fast_ip() {
    let r = static_responder(300, &["cdn.example.com"], MatchMode::ExactlyOneSubstring);
    let q = query(0x1234, "cdn.example.com", 1);
    let best = FastIpCell { ip: 0x01020304, rtt_ms: 12 };
    match r.on_query(&q, false, best) {
        QueryAction::Reply(a) => check_local_answer(&a, 0x1234, 300, [1, 2, 3, 4]),
        _ => panic!("expected a local answer"),
    }
}

#[test]
fn local_answer_is_the_same_twice() {
    let r = static_responder(300, &["cdn.example.com"], MatchMode::Suffix);
    let q = query(7, "cdn.example.com", 1);
    let best = FastIpCell { ip: 0x01020304, rtt_ms: 12 };
    let first = match r.on_query(&q, false, best) {
        QueryAction::Reply(a) => a,
        _ => panic!("expected a local answer"),
    };
    let second = match r.on_query(&q, false, best) {
        QueryAction::Reply(a) => a,
        _ => panic!("expected a local answer"),
    };
    assert_eq!(first, second);
}

#[test]
fn aaaa_query_is_forwarded_and_relayed_verbatim() {
    let r = static_responder(300, &["cdn.example.com"], MatchMode::ExactlyOneSubstring);
    let q = query(9, "cdn.example.com", 28);
    let best = FastIpCell { ip: 0x01020304, rtt_ms: 12 };
    assert!(matches!(r.on_query(&q, false, best), QueryAction::Forward));
    let mut up = q.clone();
    up[2] = 0x81;
    up[3] = 0x80;
    match r.on_upstream(&q, up.clone(), best) {
        UpstreamAction::Relay(b) => assert_eq!(b, up),
        _ => panic!("expected a relay"),
    }
}

#[test]
fn unlisted_a_query_outside_cidrs_is_relayed() {
    let r = static_responder(300, &[], MatchMode::ExactlyOneSubstring);
    let q = query(10, "example.org", 1);
    let best = FastIpCell { ip: 0x01020304, rtt_ms: 12 };
    assert!(matches!(r.on_query(&q, false, best), QueryAction::Forward));
    let up = upstream_answer(&q, [93, 184, 216, 34]);
    match r.on_upstream(&q, up.clone(), best) {
        UpstreamAction::Relay(b) => assert_eq!(b, up),
        _ => panic!("expected a relay"),
    }
    let learned = Responder { ttl: 300, cidrs: cidrs(&["104.16.0.0/12"]), oracle: Oracle::Learned };
    match learned.on_upstream(&q, up.clone(), best) {
        UpstreamAction::Relay(b) => assert_eq!(b, up),
        _ => panic!("expected a relay"),
    }
}

#[test]
fn learned_oracle_learns_name_inside_cidrs() {
    let r = Responder { ttl: 300, cidrs: cidrs(&["104.16.0.0/12"]), oracle: Oracle::Learned };
    let q = query(11, "edge.example.net", 1);
    let best = FastIpCell { ip: 0x01020304, rtt_ms: 12 };
    assert!(matches!(r.on_query(&q, false, best), QueryAction::Forward));
    let up = upstream_answer(&q, [104, 16, 0, 10]);
    match r.on_upstream(&q, up, best) {
        UpstreamAction::Learn { name, answer } => {
            assert_eq!(name, b"edge.example.net".to_vec());
            check_local_answer(&answer, 11, 300, [1, 2, 3, 4]);
        }
        _ => panic!("expected the name to be learned"),
    }
    match r.on_query(&q, true, best) {
        QueryAction::Reply(a) => check_local_answer(&a, 11, 300, [1, 2, 3, 4]),
        _ => panic!("expected a local answer once cached"),
    }
}

#[test]
fn upstream_without_a_record_is_relayed() {
    let r = Responder { ttl: 60, cidrs: cidrs(&["127.0.0.0/8"]), oracle: Oracle::Learned };
    let q = query(12, "edge.example.net", 1);
    let mut up = q.clone();
    up[2] = 0x81;
    up[3] = 0x80;
    let best = FastIpCell { ip: 0x0a000001, rtt_ms: 5 };
    match r.on_upstream(&q, up.clone(), best) {
        UpstreamAction::Relay(b) => assert_eq!(b, up),
        _ => panic!("expected a relay"),
    }
}

#[test]
fn first_a_skips_other_and_broken_records() {
    assert_eq!(first_a(&vec![]), None);
    assert_eq!(first_a(&vec![Some((5, None)), None, Some((1, None)), Some((1, Some(7))), Some((1, Some(9)))]), Some(7));
    assert_eq!(first_a(&vec![Some((28, Some(3)))]), None);
}

#[test]
fn cache_key_only_for_learned_a_queries() {
    let learned = Responder { ttl: 60, cidrs: cidrs(&[]), oracle: Oracle::Learned };
    let a = query(20, "edge.example.net", 1);
    let aaaa = query(21, "edge.example.net", 28);
    assert_eq!(learned.cache_key(&a), Some(b"edge.example.net".to_vec()));
    assert_eq!(learned.cache_key(&aaaa), None);
    assert_eq!(learned.cache_key(&vec![0, 1]), None);
    let fixed = static_responder(60, &["edge.example.net"], MatchMode::Suffix);
    assert_eq!(fixed.cache_key(&a), None);
}

#[test]
fn malformed_datagram_is_dropped() {
    let r = static_responder(300, &["cdn.example.com"], MatchMode::ExactlyOneSubstring);
    let best = FastIpCell { ip: 1, rtt_ms: 1 };
    assert!(matches!(r.on_query(&vec![1, 2, 3], false, best), QueryAction::Drop));
    let mut two = query(13, "cdn.example.com", 1);
    two[5] = 2;
    assert!(matches!(r.on_query(&two, false, best), QueryAction::Drop));
}

#[test]
fn empty_domain_set_never_overrides() {
    for mode in [MatchMode::ExactlyOneSubstring, MatchMode::Suffix] {
        let r = static_responder(300, &[], mode);
        let q = query(14, "cdn.example.com", 1);
        assert!(matches!(r.on_query(&q, true, FastIpCell { ip: 1, rtt_ms: 1 }), QueryAction::Forward));
    }
}

#[test]
fn long_name_parses_and_answers() {
    let label = "a".repeat(63);
    let name = format!("{}.{}.{}.{}", label, label, label, "b".repeat(61));
    assert_eq!(name.len(), 253);
    let q = query(15, &name, 1);
    let (t, parsed) = question(&q).unwrap();
    assert_eq!(t, 1);
    assert_eq!(parsed, name.as_bytes().to_vec());
    let r = static_responder(120, &[&name], MatchMode::Suffix);
    match r.on_query(&q, false, FastIpCell { ip: 0xc6336401, rtt_ms: 3 }) {
        QueryAction::Reply(a) => check_local_answer(&a, 15, 120, [198, 51, 100, 1]),
        _ => panic!("expected a local answer"),
    }
}

#[test]
fn substring_mode_needs_exactly_one_entry() {
    let name = b"cdn.example.com".to_vec();
    let one = DomainSet::from_lines(vec![b"example.com".to_vec()]);
    assert!(one.accepts(MatchMode::ExactlyOneSubstring, &name));
    let two = DomainSet::from_lines(vec![b"example.com".to_vec(), b"cdn".to_vec()]);
    assert!(!two.accepts(MatchMode::ExactlyOneSubstring, &name));
    assert!(two.accepts(MatchMode::Suffix, &name));
    let inner = DomainSet::from_lines(vec![b"example".to_vec()]);
    assert!(inner.accepts(MatchMode::ExactlyOneSubstring, &name));
    assert!(!inner.accepts(MatchMode::Suffix, &name));
    let partial = DomainSet::from_lines(vec![b"n.example.com".to_vec()]);
    assert!(!partial.accepts(MatchMode::Suffix, &name));
    let blank = DomainSet::from_lines(vec![Vec::new(), b"x.org".to_vec()]);
    assert_eq!(blank.entries.len(), 1);
}
