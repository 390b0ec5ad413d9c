use alphonse::flow::{flow_hash, worker_index, FlowTuple};
use alphonse::packet::layering::{LINKTYPE_ETHERNET, LINKTYPE_RAW};
use alphonse::packet::vlan::Parser;
use alphonse::packet::{ipv6, Error, Layer, Packet, Protocol, TUNNEL_MPLS, TUNNEL_PPPOE, TUNNEL_VLAN};
use alphonse::rx::{is_capture_file, CaptureAction, CaptureEvent, RxState, SendAction, SendOutcome};
use alphonse::session::Session;

const PARSER: Parser = Parser {};

#[test]
fn test_ok() {
    let buf = [0x08, 0x00, 0xc2, 0x00, 0x00, 0x00];
    assert!(matches!(PARSER.parse(&buf, 0), Ok(_)));
}

#[test]
fn test_err_unsupport_protocol() {
    let buf = [0x08, 0x01, 0xc2, 0x00, 0x00, 0x00];
    let result = PARSER.parse(&buf, 0);
    let err = result.unwrap_err();
    assert!(matches!(err, Error::UnsupportProtocol(_)));
}

#[test]
fn vlan_next_layer_offsets() {
    assert_eq!(PARSER.parse(&[0x08, 0x00], 16), Ok(Some(Layer { offset: 18, protocol: Protocol::IPV4 })));
    assert_eq!(PARSER.parse(&[0x81, 0x00, 0x00, 0x05], 16), Ok(Some(Layer { offset: 20, protocol: Protocol::VLAN })));
    assert_eq!(PARSER.parse(&[0x08], 16), Err(Error::Truncated(Protocol::VLAN)));
    assert_eq!(PARSER.parse(&[0x08, 0x00], 65534), Err(Error::Truncated(Protocol::VLAN)));
}

fn ipv4_udp(src: [u8; 4], dst: [u8; 4], sport: u16, dport: u16) -> Vec<u8> {
    let mut v = vec![0x00, 0x11, 0x22, 0x33, 0x44, 0x55, 0x66, 0x77, 0x88, 0x99, 0xaa, 0xbb, 0x08, 0x00];
    v.extend_from_slice(&[0x45, 0, 0, 32, 0, 0, 0, 0, 64, 17, 0, 0]);
    v.extend_from_slice(&src);
    v.extend_from_slice(&dst);
    v.extend_from_slice(&sport.to_be_bytes());
    v.extend_from_slice(&dport.to_be_bytes());
    v.extend_from_slice(&[0, 12, 0, 0, b'p', b'i', b'n', b'g']);
    v
}

fn layered(raw: Vec<u8>) -> Packet {
    let parser = alphonse::packet::Parser::new(LINKTYPE_ETHERNET);
    let mut pkt = Packet::new(raw);
    parser.parse_pkt(&mut pkt).unwrap();
    pkt
}

#[test]
fn unknown_ether_type_is_unsupported_and_dropped() {
    let mut raw = ipv4_udp([10, 0, 0, 1], [10, 0, 0, 2], 1000, 53);
    raw[12] = 0x08;
    raw[13] = 0x01;
    let parser = alphonse::packet::Parser::new(LINKTYPE_ETHERNET);
    let mut pkt = Packet::new(raw.clone());
    let err = parser.parse_pkt(&mut pkt).unwrap_err();
    assert!(matches!(err, Error::UnsupportProtocol(u) if u.layer == Protocol::ETHERNET && u.code == 0x0801));
    assert_eq!(pkt.layers.trans.protocol, Protocol::UNKNOWN);

    let mut state = RxState::new(0);
    let mut pkt = Packet::new(raw);
    assert_eq!(state.ingest(&parser, &mut pkt, 4), None);
    assert_eq!(state.parse_error_count, 1);
    assert_eq!(pkt.rules().len(), 0);
}

#[test]
fn vlan_tagged_frame_sets_tunnel_bit() {
    let inner = ipv4_udp([10, 0, 0, 1], [10, 0, 0, 2], 1000, 53);
    let mut raw = inner[..12].to_vec();
    raw.extend_from_slice(&[0x81, 0x00, 0x00, 0x64]);
    raw.extend_from_slice(&inner[12..]);
    let pkt = layered(raw);
    assert!(pkt.tunnel.contains(TUNNEL_VLAN));
    assert_eq!(pkt.layers.network, Layer { offset: 18, protocol: Protocol::IPV4 });
    assert_eq!(pkt.layers.trans, Layer { offset: 38, protocol: Protocol::UDP });
    assert_eq!(pkt.payload(), b"ping");
}

#[test]
fn mpls_and_pppoe_frames() {
    let inner = ipv4_udp([10, 0, 0, 1], [10, 0, 0, 2], 1000, 53);
    let mut raw = inner[..12].to_vec();
    raw.extend_from_slice(&[0x88, 0x47, 0x00, 0x01, 0x01, 0x40]);
    raw.extend_from_slice(&inner[14..]);
    let pkt = layered(raw);
    assert!(pkt.tunnel.contains(TUNNEL_MPLS));
    assert_eq!(pkt.layers.network.offset, 18);

    let mut raw = inner[..12].to_vec();
    raw.extend_from_slice(&[0x88, 0x64, 0x11, 0x00, 0x00, 0x01, 0x00, 0x1e, 0x00, 0x21]);
    raw.extend_from_slice(&inner[14..]);
    let pkt = layered(raw);
    assert!(pkt.tunnel.contains(TUNNEL_PPPOE));
    assert_eq!(pkt.layers.network.offset, 22);
    assert_eq!(pkt.layers.trans.protocol, Protocol::UDP);
}

#[test]
fn ipv6_udp_and_raw_link() {
    let mut ip6 = vec![0x60, 0, 0, 0, 0, 12, 17, 64];
    ip6.extend_from_slice(&[0u8; 15]);
    ip6.push(1);
    ip6.extend_from_slice(&[0u8; 15]);
    ip6.push(2);
    ip6.extend_from_slice(&[0x04, 0x00, 0x00, 0x35, 0, 12, 0, 0, b'p', b'o', b'n', b'g']);
    let parser = alphonse::packet::Parser::new(LINKTYPE_RAW);
    let mut pkt = Packet::new(ip6.clone());
    parser.parse_pkt(&mut pkt).unwrap();
    assert_eq!(pkt.layers.network, Layer { offset: 0, protocol: Protocol::IPV6 });
    assert_eq!(pkt.layers.trans, Layer { offset: 40, protocol: Protocol::UDP });
    assert_eq!(pkt.payload(), b"pong");
    assert!(matches!(ipv6::Parser {}.parse(&ip6[..39], 0), Err(Error::Truncated(Protocol::IPV6))));
}

#[test]
fn truncated_headers_are_errors() {
    let raw = ipv4_udp([10, 0, 0, 1], [10, 0, 0, 2], 1000, 53);
    let parser = alphonse::packet::Parser::new(LINKTYPE_ETHERNET);
    let mut pkt = Packet::new(raw[..30].to_vec());
    assert_eq!(parser.parse_pkt(&mut pkt), Err(Error::Truncated(Protocol::IPV4)));
    let mut pkt = Packet::new(raw[..38].to_vec());
    assert_eq!(parser.parse_pkt(&mut pkt), Err(Error::Truncated(Protocol::UDP)));
    let mut pkt = Packet::new(raw[..10].to_vec());
    assert_eq!(parser.parse_pkt(&mut pkt), Err(Error::Truncated(Protocol::ETHERNET)));
    let unknown = alphonse::packet::Parser::new(999);
    let mut pkt = Packet::new(raw);
    assert!(matches!(unknown.parse_pkt(&mut pkt), Err(Error::UnsupportProtocol(_))));
}

#[test]
fn flow_hash_is_direction_symmetric() {
    let a = layered(ipv4_udp([10, 0, 0, 1], [10, 0, 0, 2], 1000, 53));
    let b = layered(ipv4_udp([10, 0, 0, 2], [10, 0, 0, 1], 53, 1000));
    let c = layered(ipv4_udp([10, 0, 0, 1], [10, 0, 0, 3], 1000, 53));
    assert_eq!(flow_hash(&a), flow_hash(&b));
    assert_ne!(flow_hash(&a), flow_hash(&c));
    for n in 1..9usize {
        assert_eq!(worker_index(&a, n), worker_index(&b, n));
        assert!(worker_index(&a, n) < n);
    }
}

#[test]
fn flow_key_layout_and_hash() {
    let a = layered(ipv4_udp([10, 0, 0, 2], [10, 0, 0, 1], 1000, 53));
    let t = FlowTuple::of(&a);
    assert_eq!(t.src_addr, 0x0a000002);
    assert_eq!(t.dst_addr, 0x0a000001);
    assert_eq!(t.protocol, 17);
    let key = t.key();
    let mut want = vec![0u8; 12];
    want.extend_from_slice(&[10, 0, 0, 1]);
    want.extend_from_slice(&[0u8; 12]);
    want.extend_from_slice(&[10, 0, 0, 2]);
    want.extend_from_slice(&[17, 0, 53, 0x03, 0xe8]);
    assert_eq!(key, want);
    assert_eq!(flow_hash(&a), twox_hash::xxh3::hash64(&want));
    assert_ne!(flow_hash(&a), 0);
}

#[test]
fn capture_events() {
    let mut s = RxState::new(3);
    assert_eq!(s.on_capture(CaptureEvent::Timeout), CaptureAction::Sleep);
    assert_eq!(s.on_capture(CaptureEvent::Packet), CaptureAction::Forward);
    assert_eq!(s.on_capture(CaptureEvent::Packet), CaptureAction::Forward);
    assert_eq!(s.on_capture(CaptureEvent::Packet), CaptureAction::ForwardAndLogStats);
    assert_eq!(s.rx_count, 3);
    assert_eq!(s.on_capture(CaptureEvent::Error), CaptureAction::Fail);
    assert_eq!(s.on_capture(CaptureEvent::Closed), CaptureAction::Stop);
    assert_eq!(s.rx_count, 3);
}

#[test]
fn stalled_channel_counts_overflow() {
    let (tx, _rx) = crossbeam_channel::bounded::<u32>(2);
    let mut s = RxState::new(0);
    for i in 0..5u32 {
        let outcome = match tx.try_send(i) {
            Ok(()) => SendOutcome::Sent,
            Err(crossbeam_channel::TrySendError::Full(_)) => SendOutcome::Full,
            Err(crossbeam_channel::TrySendError::Disconnected(_)) => SendOutcome::Disconnected,
        };
        let action = s.on_send(outcome);
        if i < 2 {
            assert_eq!(action, SendAction::Continue);
        } else {
            assert_eq!(action, SendAction::Dropped);
        }
    }
    assert_eq!(s.overflow_count, 3);
}

#[test]
fn overflow_log_every_ten_thousand() {
    let mut s = RxState::new(0);
    s.overflow_count = 9999;
    assert_eq!(s.on_send(SendOutcome::Full), SendAction::DroppedAndLog);
    assert_eq!(s.on_send(SendOutcome::Disconnected), SendAction::Stop);
    s.overflow_count = u64::MAX;
    s.on_send(SendOutcome::Full);
    assert_eq!(s.overflow_count, u64::MAX);
}

#[test]
fn capture_file_names() {
    assert!(is_capture_file("a.pcap"));
    assert!(is_capture_file("trace.pcapng"));
    assert!(!is_capture_file(".pcap"));
    assert!(!is_capture_file("a.pcap.gz"));
    assert!(!is_capture_file("pcap"));
}

#[test]
fn session_labels_and_fields() {
    let mut ses = Session::new();
    ses.add_protocol("http");
    ses.add_protocol("http");
    assert_eq!(ses.protocols, vec![String::from("http")]);
    assert!(ses.has_protocol("http"));
    assert!(!ses.has_protocol("dns"));
    ses.add_field("host", String::from("a"));
    ses.add_field("host", String::from("b"));
    ses.add_field("path", String::from("/"));
    assert_eq!(ses.fields.len(), 2);
    assert_eq!(ses.field("host"), Some(&String::from("b")));
    assert_eq!(ses.field("user"), None);
}

#[test]
fn worker_of_hash_is_remainder() {
    assert_eq!(alphonse::flow::worker_of_hash(17, 5), 2);
    assert_eq!(alphonse::flow::worker_of_hash(u64::MAX, 1), 0);
    assert_eq!(alphonse::flow::worker_of_hash(u64::MAX, 10), 5);
}
