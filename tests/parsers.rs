use alphonse::classifiers::dpi::ScanMatch;
use alphonse::classifiers::ClassifierManager;
use alphonse::packet::{Packet, Protocol};
use alphonse::parsers::misc::ProtocolParser;
use alphonse::parsers::ProtocolParserTrait;
use alphonse::session::Session;

// Pattern ids, in the order the signature parser registers its rules.
const BITTORRENT_HANDSHAKE: u32 = 0;
const BITTORRENT_SYNC: u32 = 1;
const BITTORRENT_DHT: u32 = 2;
const CASSANDRA_SET: u32 = 3;
const CASSANDRA_DESC: u32 = 4;
const GH0ST_WINDOWS: u32 = 5;
const GH0ST_MAC: u32 = 6;
const MONGO: u32 = 7;
const RDP: u32 = 8;
const RMI: u32 = 9;

fn setup() -> (ClassifierManager, ProtocolParser) {
    let mut manager = ClassifierManager::new();
    let mut parser = ProtocolParser::default();
    parser.register_classify_rules(&mut manager).unwrap();
    manager.prepare();
    (manager, parser)
}

/// A packet whose payload is `raw`, classified with the engine reporting a whole-payload
/// match of pattern `id`.
fn classified(manager: &ClassifierManager, raw: &[u8], trans: Protocol, id: u32) -> Packet {
    let mut pkt = Packet::new(raw.to_vec());
    pkt.layers.trans.protocol = trans;
    manager.classify(&mut pkt, &[ScanMatch { id, from: 0, to: raw.len() as u64 }]);
    pkt
}

#[test]
fn bittorrent() {
    let (manager, mut parser) = setup();

    // rule 1
    let pkt = classified(&manager, b"\x13BitTorrent protocol", Protocol::TCP, BITTORRENT_HANDSHAKE);
    assert_eq!(pkt.rules().len(), 1);
    let mut ses = Session::new();
    parser.parse_pkt(&pkt, &pkt.rules()[0], &mut ses).unwrap();
    assert!(ses.has_protocol("bittorrent"));

    // rule 2
    let pkt = classified(&manager, b"Bsync\x00", Protocol::TCP, BITTORRENT_SYNC);
    assert_eq!(pkt.rules().len(), 1);
    let mut ses = Session::new();
    parser.parse_pkt(&pkt, &pkt.rules()[0], &mut ses).unwrap();
    assert!(ses.has_protocol("bittorrent"));

    // rule 3
    let pkt = classified(&manager, b"d1:r", Protocol::UDP, BITTORRENT_DHT);
    assert_eq!(pkt.rules().len(), 1);
    let mut ses = Session::new();
    parser.parse_pkt(&pkt, &pkt.rules()[0], &mut ses).unwrap();
    assert!(ses.has_protocol("bittorrent"));
}

#[test]
fn bittorrent_dht_rule_is_udp_only() {
    let (manager, _parser) = setup();
    let pkt = classified(&manager, b"d1:r", Protocol::TCP, BITTORRENT_DHT);
    assert_eq!(pkt.rules().len(), 0);
}

#[test]
fn cassandra_areospike() {
    let (manager, mut parser) = setup();

    // rule 1
    let pkt = classified(
        &manager,
        b"\x00\x00\x00\x25\x80\x01\x00\x01\x00\x00\x00\x0c\x73\x65\x74\x5f",
        Protocol::TCP,
        CASSANDRA_SET,
    );
    let mut ses = Session::new();
    for rule in pkt.rules().iter() {
        parser.parse_pkt(&pkt, rule, &mut ses).unwrap();
    }
    assert!(ses.has_protocol("cassandra"));

    // rule 2
    let pkt = classified(
        &manager,
        b"\x00\x00\x00\x1d\x80\x01\x00\x01\x00\x00\x00\x10\x64\x65\x73\x63",
        Protocol::TCP,
        CASSANDRA_DESC,
    );
    let mut ses = Session::new();
    for rule in pkt.rules().iter() {
        parser.parse_pkt(&pkt, rule, &mut ses).unwrap();
    }
    assert!(ses.has_protocol("cassandra"));
}

#[test]
fn gh0st() {
    let (manager, mut parser) = setup();

    // Windows branch 1
    let pkt = classified(&manager, b"Gh0st\x0f\x00\x00\x00\x09\x10\x11\x12\x78\x9c", Protocol::TCP, GH0ST_WINDOWS);
    assert_eq!(pkt.rules().len(), 1);
    let mut ses = Session::new();
    parser.parse_pkt(&pkt, &pkt.rules()[0], &mut ses).unwrap();
    assert!(ses.has_protocol("gh0st"));

    // Windows branch 2
    let pkt = classified(&manager, b"Gh0st\x05\x06\x00\x00\x09\x10\x00\x00\x78\x9c", Protocol::TCP, GH0ST_WINDOWS);
    assert_eq!(pkt.rules().len(), 1);
    let mut ses = Session::new();
    parser.parse_pkt(&pkt, &pkt.rules()[0], &mut ses).unwrap();
    assert!(ses.has_protocol("gh0st"));

    // mac
    let pkt = classified(&manager, b"Gh0st\x00\x00\x00\x0f\x09\x10\x11\x12\x78\x9c", Protocol::TCP, GH0ST_MAC);
    assert_eq!(pkt.rules().len(), 1);
    let mut ses = Session::new();
    parser.parse_pkt(&pkt, &pkt.rules()[0], &mut ses).unwrap();
    assert!(ses.has_protocol("gh0st"));
}

#[test]
fn gh0st_length_mismatch_is_not_labelled() {
    let (manager, mut parser) = setup();
    let pkt = classified(&manager, b"Gh0st\x00\x00\x00\x0e\x09\x10\x11\x12\x78\x9c", Protocol::TCP, GH0ST_MAC);
    let mut ses = Session::new();
    parser.parse_pkt(&pkt, &pkt.rules()[0], &mut ses).unwrap();
    assert!(!ses.has_protocol("gh0st"));
}

#[test]
fn mongo() {
    let (manager, mut parser) = setup();

    // \x00{4}
    let pkt = classified(&manager, b"12345678\x00\x00\x00\x00\xd4\x07\x00\x00", Protocol::TCP, MONGO);
    assert_eq!(pkt.rules().len(), 1);
    let mut ses = Session::new();
    parser.parse_pkt(&pkt, &pkt.rules()[0], &mut ses).unwrap();
    assert!(ses.has_protocol("mongo"));

    // \xff{4}
    let pkt = classified(&manager, b"12345678\xff\xff\xff\xff\xd4\x07\x00\x00", Protocol::TCP, MONGO);
    assert_eq!(pkt.rules().len(), 1);
    let mut ses = Session::new();
    parser.parse_pkt(&pkt, &pkt.rules()[0], &mut ses).unwrap();
    assert!(ses.has_protocol("mongo"));
}

#[test]
fn rdp() {
    let (manager, mut parser) = setup();
    let pkt = classified(
        &manager,
        b"\x03\x00\x00\x05\x00\xe0\x00\x00\x00\x00\x00Cookie: mstshash=user\r\n",
        Protocol::TCP,
        RDP,
    );
    assert_eq!(pkt.rules().len(), 1);

    let mut ses = Session::new();
    parser.parse_pkt(&pkt, &pkt.rules()[0], &mut ses).unwrap();
    assert!(ses.has_protocol("rdp"));
    assert_eq!(ses.field("user").unwrap(), "user");
}

#[test]
fn rdp_cookie_bytes_are_read_lossily() {
    let (manager, mut parser) = setup();
    let pkt = classified(
        &manager,
        b"\x03\x00\x00\x05\x00\xe0\x00\x00\x00\x00\x00Cookie: mstshash=us\xffer\r\n",
        Protocol::TCP,
        RDP,
    );
    let mut ses = Session::new();
    parser.parse_pkt(&pkt, &pkt.rules()[0], &mut ses).unwrap();
    assert_eq!(ses.field("user").unwrap(), "us\u{fffd}er");
}

#[test]
fn rdp_without_cookie_has_no_user() {
    let (manager, mut parser) = setup();
    let pkt = classified(&manager, b"\x03\x00\x00\x05\x00\xe0\x00\x00", Protocol::TCP, RDP);
    let mut ses = Session::new();
    parser.parse_pkt(&pkt, &pkt.rules()[0], &mut ses).unwrap();
    assert!(ses.has_protocol("rdp"));
    assert_eq!(ses.field("user"), None);
}

#[test]
fn rmi_areospike() {
    let (manager, mut parser) = setup();
    let pkt = classified(&manager, b"\x4a\x52\x4d\x49\x00\x02\x4b", Protocol::TCP, RMI);
    assert_eq!(pkt.rules().len(), 1);

    let mut ses = Session::new();
    parser.parse_pkt(&pkt, &pkt.rules()[0], &mut ses).unwrap();
    assert!(ses.has_protocol(&"rmi"));
}

#[test]
fn second_matching_packet_adds_no_label() {
    let (manager, mut parser) = setup();
    let mut ses = Session::new();
    let first = classified(&manager, b"\x13BitTorrent protocol", Protocol::TCP, BITTORRENT_HANDSHAKE);
    let second = classified(&manager, b"\x13BitTorrent protocol and more", Protocol::TCP, BITTORRENT_HANDSHAKE);
    parser.parse_pkt(&first, &first.rules()[0], &mut ses).unwrap();
    parser.parse_pkt(&second, &second.rules()[0], &mut ses).unwrap();
    assert_eq!(ses.protocols, vec![String::from("bittorrent")]);
}

#[test]
fn parser_identity_and_state() {
    let mut parser = ProtocolParser::default();
    assert_eq!(parser.id(), 0);
    parser.set_id(4);
    assert_eq!(parser.id(), 4);
    assert_eq!(parser.name(), "misc");
    assert!(!parser.is_classified());
    parser.classified_as_this_protocol().unwrap();
    assert!(parser.is_classified());
    assert!(parser.init().is_ok());
    assert!(parser.exit().is_ok());
}

#[test]
fn registering_twice_after_prepare_fails() {
    let (mut manager, mut parser) = setup();
    assert!(parser.register_classify_rules(&mut manager).is_err());
}

#[test]
fn tagging_twice_labels_once() {
    let mut parser = ProtocolParser::default();
    let mut ses = Session::new();
    alphonse::parsers::tag_session(&mut parser, &mut ses).unwrap();
    assert!(parser.is_classified());
    alphonse::parsers::tag_session(&mut parser, &mut ses).unwrap();
    assert_eq!(ses.protocols, vec![String::from("misc")]);
}
