use alphonse::classifiers::dpi::{self, Pattern, ScanMatch};
use alphonse::classifiers::matched;
use alphonse::classifiers::port;
use alphonse::classifiers::{ClassifierManager, Error, Rule, RuleType};
use alphonse::packet::{Layer, Packet, Protocol};

fn dpi_rule(expression: &str) -> dpi::Rule {
    dpi::Rule::new(Pattern::new(String::from(expression)))
}

fn port_rule(parser: u8, port: u16, protocol: Protocol) -> Rule {
    let mut rule = Rule::new(parser);
    rule.rule_type = RuleType::Port(port::Rule { port, protocol });
    rule
}

#[test]
fn add_same_dpi_rule() {
    let mut classifier = dpi::Classifier::new();
    let mut rule = Rule::new(0);
    rule.rule_type = RuleType::DPI(dpi_rule("regex"));
    assert!(matches!(classifier.add_rule(&rule), Ok(_)));

    let mut rule = Rule::new(1);
    rule.rule_type = RuleType::DPI(dpi_rule("regex"));
    assert!(matches!(classifier.add_rule(&rule), Ok(id) if id == 0));
}

#[test]
fn dpi_add_invalid_rule_type_rule() {
    let mut classifier = dpi::Classifier::new();
    let rule = Rule::new(0);
    assert!(matches!(classifier.add_rule(&rule), Err(_)));
}

#[test]
fn dpi_classify() {
    let mut classifier = dpi::Classifier::new();
    let mut rule = Rule::new(0);
    rule.id = 10;
    rule.priority = 100;
    rule.rule_type = RuleType::DPI(dpi_rule("regex"));
    assert!(matches!(classifier.add_rule(&rule), Ok(_)));
    classifier.prepare();

    // matched: the engine reports pattern 0 ending at byte 30
    let mut pkt = Packet::new(b"a sentence contains word regex".to_vec());
    classifier.classify(&mut pkt, &[ScanMatch { id: 0, from: 0, to: 30 }]);
    assert_eq!(pkt.rules().len(), 1);
    assert_eq!(pkt.rules()[0].id(), 10);
    assert_eq!(pkt.rules()[0].priority, 100);
    assert_eq!(pkt.rules()[0].parsers_count, 1);
    assert_eq!(pkt.rules()[0].parsers[0], 0);

    // unmatched: the engine reports nothing
    let mut pkt = Packet::new(b"a sentence does not contains the word".to_vec());
    classifier.classify(&mut pkt, &[]);
    assert_eq!(pkt.rules().len(), 0);
}

#[test]
fn classify_protocol_mismatch() {
    let mut classifier = dpi::Classifier::new();
    let mut d = dpi_rule("regex");
    d.protocol = dpi::Protocol::sctp();
    let mut rule = Rule::new(0);
    rule.id = 10;
    rule.priority = 100;
    rule.rule_type = RuleType::DPI(d);
    assert!(matches!(classifier.add_rule(&rule), Ok(_)));
    classifier.prepare();

    let mut pkt = Packet::new(b"a sentence contains word regex".to_vec());
    pkt.layers.trans.protocol = Protocol::TCP;
    classifier.classify(&mut pkt, &[ScanMatch { id: 0, from: 0, to: 30 }]);
    assert_eq!(pkt.rules().len(), 0);
}

#[test]
fn dpi_match_position_is_stamped() {
    let mut classifier = dpi::Classifier::new();
    let mut d = dpi_rule("regex");
    d.hs_pattern.flags = dpi::FLAG_SOM_LEFTMOST;
    d.need_matched_pos = true;
    let mut rule = Rule::new(3);
    rule.rule_type = RuleType::DPI(d);
    classifier.add_rule(&rule).unwrap();
    classifier.prepare();

    let payload = b"a sentence contains word regex";
    let mut pkt = Packet::new(payload.to_vec());
    pkt.layers.trans.protocol = Protocol::TCP;
    classifier.classify(&mut pkt, &[ScanMatch { id: 0, from: 25, to: 30 }]);
    assert_eq!(pkt.rules().len(), 1);
    let (from, to) = pkt.rules()[0].from_to.unwrap();
    assert_eq!(&payload[from as usize..to as usize], b"regex");
}

#[test]
fn dpi_without_position_keeps_none() {
    let mut classifier = dpi::Classifier::new();
    let mut rule = Rule::new(3);
    rule.rule_type = RuleType::DPI(dpi_rule("regex"));
    classifier.add_rule(&rule).unwrap();
    classifier.prepare();
    let mut pkt = Packet::new(b"regex".to_vec());
    classifier.classify(&mut pkt, &[ScanMatch { id: 0, from: 0, to: 5 }]);
    assert_eq!(pkt.rules().len(), 1);
    assert_eq!(pkt.rules()[0].from_to, None);
}

#[test]
fn dpi_reports_every_match_in_order() {
    let mut classifier = dpi::Classifier::new();
    let mut a = Rule::new(1);
    a.id = 7;
    a.rule_type = RuleType::DPI(dpi_rule("foo"));
    let mut b = Rule::new(2);
    b.id = 8;
    b.rule_type = RuleType::DPI(dpi_rule("bar"));
    classifier.add_rule(&a).unwrap();
    classifier.add_rule(&b).unwrap();
    classifier.prepare();
    let mut pkt = Packet::new(b"bar foo".to_vec());
    classifier.classify(
        &mut pkt,
        &[ScanMatch { id: 1, from: 0, to: 3 }, ScanMatch { id: 0, from: 0, to: 7 }, ScanMatch { id: 9, from: 0, to: 7 }],
    );
    assert_eq!(pkt.rules().len(), 2);
    assert_eq!(pkt.rules()[0].id, 8);
    assert_eq!(pkt.rules()[1].id, 7);
}

#[test]
fn dpi_same_parser_twice_is_kept_once() {
    let mut classifier = dpi::Classifier::new();
    let mut rule = Rule::new(4);
    rule.rule_type = RuleType::DPI(dpi_rule("regex"));
    classifier.add_rule(&rule).unwrap();
    classifier.add_rule(&rule).unwrap();
    classifier.prepare();
    let mut pkt = Packet::new(b"regex".to_vec());
    classifier.classify(&mut pkt, &[ScanMatch { id: 0, from: 0, to: 5 }]);
    assert_eq!(pkt.rules()[0].parsers_count, 1);
}

#[test]
fn dpi_rules_differing_in_transport_are_distinct() {
    let mut classifier = dpi::Classifier::new();
    let mut a = Rule::new(1);
    a.rule_type = RuleType::DPI(dpi_rule("regex"));
    let mut d = dpi_rule("regex");
    d.protocol = dpi::Protocol::udp();
    let mut b = Rule::new(2);
    b.id = 5;
    b.rule_type = RuleType::DPI(d);
    assert_eq!(classifier.add_rule(&a), Ok(0));
    assert_eq!(classifier.add_rule(&b), Ok(5));
    assert_eq!(classifier.len(), 2);
    let patterns = classifier.patterns();
    assert_eq!(patterns[0].id, Some(0));
    assert_eq!(patterns[1].id, Some(1));
    assert_eq!(patterns[1].expression, "regex");
}

#[test]
fn dpi_refuses_rules_after_prepare() {
    let mut classifier = dpi::Classifier::new();
    classifier.prepare();
    let mut rule = Rule::new(1);
    rule.rule_type = RuleType::DPI(dpi_rule("regex"));
    assert_eq!(classifier.add_rule(&rule), Err(Error::Prepared));
}

#[test]
fn dpi_without_rules_appends_nothing() {
    let mut classifier = dpi::Classifier::new();
    classifier.prepare();
    let mut pkt = Packet::new(b"anything".to_vec());
    classifier.classify(&mut pkt, &[ScanMatch { id: 0, from: 0, to: 3 }]);
    assert_eq!(pkt.rules().len(), 0);
}

#[test]
fn dpi_unprepared_appends_nothing() {
    let mut classifier = dpi::Classifier::new();
    let mut rule = Rule::new(1);
    rule.rule_type = RuleType::DPI(dpi_rule("regex"));
    classifier.add_rule(&rule).unwrap();
    let mut pkt = Packet::new(b"regex".to_vec());
    classifier.classify(&mut pkt, &[ScanMatch { id: 0, from: 0, to: 5 }]);
    assert_eq!(pkt.rules().len(), 0);
}

#[test]
fn dpi_other_transport_matches_any_rule_set() {
    assert_eq!(dpi::Protocol::of(Protocol::ICMP).bits, dpi::DPI_ALL);
    assert_eq!(dpi::Protocol::of(Protocol::UDP).bits, dpi::DPI_UDP);
    assert!(dpi::Protocol::all().contains(dpi::Protocol::sctp()));
    assert!(!dpi::Protocol::sctp().contains(dpi::Protocol::tcp()));
    assert_eq!(dpi::Protocol::tcp().union(dpi::Protocol::udp()).bits, 0b011);
}

#[test]
fn add_same_port_rule() {
    let mut classifier = port::Classifier::new();
    let rule = port_rule(1, 80, Protocol::TCP);
    assert!(matches!(classifier.add_rule(&rule), Ok(_)));

    let slot = classifier.slot(Protocol::TCP, 80).unwrap();
    assert_eq!(slot.parsers_count, 1);
    assert_eq!(slot.parsers[0], 1);

    let rule = port_rule(12, 80, Protocol::TCP);
    assert!(matches!(classifier.add_rule(&rule), Ok(id) if id == 0));

    let slot = classifier.slot(Protocol::TCP, 80).unwrap();
    assert_eq!(slot.parsers_count, 2);
    assert_eq!(slot.parsers[1], 12);
}

#[test]
fn rule_exceed_max_parser_num() {
    let mut classifier = port::Classifier::new();
    for i in 0..8u8 {
        let mut rule = port_rule(i, 80, Protocol::UDP);
        rule.id = i as u32;
        assert!(matches!(classifier.add_rule(&rule), Ok(_)));
    }

    let mut rule = port_rule(9, 80, Protocol::UDP);
    rule.id = 9;
    assert!(matches!(classifier.add_rule(&rule), Err(_)));
}

#[test]
fn port_add_invalid_rule_type_rule() {
    let mut classifier = port::Classifier::new();
    let rule = Rule::new(0);
    assert!(matches!(classifier.add_rule(&rule), Err(_)));
}

#[test]
fn add_invalid_transport_protocol_rule() {
    let mut classifier = port::Classifier::new();
    let rule = port_rule(0, 0, Protocol::ETHERNET);
    assert!(matches!(classifier.add_rule(&rule), Err(_)));
}

fn with_transport(data: Vec<u8>, protocol: Protocol) -> Packet {
    let mut pkt = Packet::new(data);
    pkt.layers.trans = Layer { offset: 34, protocol };
    pkt
}

pub fn tcp_port_80() -> Vec<u8> {
    vec![
        0x8c, 0xab, 0x8e, 0xfc, 0x30, 0xc1, 0x8c, 0x85, 0x90, 0x1b, 0x17, 0x95, 0x08, 0x00,
        0x45, 0x00, 0x01, 0x5e, 0x00, 0x00, 0x40, 0x00, 0x40, 0x06, 0x1c, 0x4e, 0xc0, 0xa8,
        0x02, 0xde, 0x11, 0xfd, 0x47, 0xc9, 0xe3, 0x0a, 0x00, 0x50, 0x73, 0xd0, 0x6a, 0x40,
        0xcd, 0xed, 0xce, 0xde, 0x80, 0x18, 0x08, 0x0a, 0x2b, 0xcd, 0x00, 0x00, 0x01, 0x01,
        0x08, 0x0a, 0x40, 0x16, 0x4f, 0xf8, 0x84, 0x8b, 0x3e, 0x21, 0x47, 0x45, 0x54, 0x20,
        0x2f, 0x6f, 0x63, 0x73, 0x70, 0x2d, 0x64, 0x65, 0x76, 0x69, 0x64, 0x30, 0x31, 0x2f,
        0x4d, 0x45, 0x34, 0x77, 0x54, 0x4b, 0x41, 0x44, 0x41, 0x67, 0x45, 0x41, 0x4d, 0x45,
        0x55, 0x77, 0x51, 0x7a, 0x42, 0x42, 0x4d, 0x41, 0x6b, 0x47, 0x42, 0x53, 0x73, 0x4f,
        0x41, 0x77, 0x49, 0x61, 0x42, 0x51, 0x41, 0x45, 0x46, 0x44, 0x4f, 0x42, 0x30, 0x65,
        0x25, 0x32, 0x46, 0x62, 0x61, 0x4c, 0x43, 0x46, 0x49, 0x55, 0x30, 0x75, 0x37, 0x36,
        0x25, 0x32, 0x42, 0x4d, 0x53, 0x6d, 0x6c, 0x6b, 0x50, 0x43, 0x70, 0x73, 0x42, 0x42,
        0x52, 0x58, 0x46, 0x25, 0x32, 0x42, 0x32, 0x69, 0x7a, 0x39, 0x78, 0x38, 0x6d, 0x4b,
        0x45, 0x51, 0x34, 0x50, 0x79, 0x25, 0x32, 0x42, 0x68, 0x79, 0x30, 0x73, 0x38, 0x75,
        0x4d, 0x58, 0x56, 0x41, 0x49, 0x49, 0x54, 0x61, 0x46, 0x74, 0x6d, 0x55, 0x59, 0x67,
        0x4c, 0x61, 0x59, 0x25, 0x33, 0x44, 0x20, 0x48, 0x54, 0x54, 0x50, 0x2f, 0x31, 0x2e,
        0x31, 0x0d, 0x0a, 0x48, 0x6f, 0x73, 0x74, 0x3a, 0x20, 0x6f, 0x63, 0x73, 0x70, 0x2e,
        0x61, 0x70, 0x70, 0x6c, 0x65, 0x2e, 0x63, 0x6f, 0x6d, 0x0d, 0x0a, 0x41, 0x63, 0x63,
        0x65, 0x70, 0x74, 0x3a, 0x20, 0x2a, 0x2f, 0x2a, 0x0d, 0x0a, 0x41, 0x63, 0x63, 0x65,
        0x70, 0x74, 0x2d, 0x4c, 0x61, 0x6e, 0x67, 0x75, 0x61, 0x67, 0x65, 0x3a, 0x20, 0x7a,
        0x68, 0x2d, 0x63, 0x6e, 0x0d, 0x0a, 0x43, 0x6f, 0x6e, 0x6e, 0x65, 0x63, 0x74, 0x69,
        0x6f, 0x6e, 0x3a, 0x20, 0x6b, 0x65, 0x65, 0x70, 0x2d, 0x61, 0x6c, 0x69, 0x76, 0x65,
        0x0d, 0x0a, 0x41, 0x63, 0x63, 0x65, 0x70, 0x74, 0x2d, 0x45, 0x6e, 0x63, 0x6f, 0x64,
        0x69, 0x6e, 0x67, 0x3a, 0x20, 0x67, 0x7a, 0x69, 0x70, 0x2c, 0x20, 0x64, 0x65, 0x66,
        0x6c, 0x61, 0x74, 0x65, 0x0d, 0x0a, 0x55, 0x73, 0x65, 0x72, 0x2d, 0x41, 0x67, 0x65,
        0x6e, 0x74, 0x3a, 0x20, 0x63, 0x6f, 0x6d, 0x2e, 0x61, 0x70, 0x70, 0x6c, 0x65, 0x2e,
        0x74, 0x72, 0x75, 0x73, 0x74, 0x64, 0x2f, 0x32, 0x2e, 0x30, 0x0d, 0x0a, 0x0d, 0x0a,
    ]
}

pub fn udp_port_53() -> Vec<u8> {
    vec![
        0x8c, 0xab, 0x8e, 0xfc, 0x30, 0xc1, 0x8c, 0x85, 0x90, 0x1b, 0x17, 0x95, 0x08, 0x00,
        0x45, 0x00, 0x00, 0x49, 0x94, 0x8f, 0x00, 0x00, 0xff, 0x11, 0xa0, 0xe4, 0xc0, 0xa8,
        0x02, 0xde, 0xc0, 0xa8, 0x02, 0x01, 0xd2, 0x28, 0x00, 0x35, 0x00, 0x35, 0xf8, 0x70,
        0x9c, 0xfc, 0x01, 0x00, 0x00, 0x01, 0x00, 0x00, 0x00, 0x00, 0x00, 0x00, 0x0c, 0x73,
        0x61, 0x66, 0x65, 0x62, 0x72, 0x6f, 0x77, 0x73, 0x69, 0x6e, 0x67, 0x0a, 0x67, 0x6f,
        0x6f, 0x67, 0x6c, 0x65, 0x61, 0x70, 0x69, 0x73, 0x03, 0x63, 0x6f, 0x6d, 0x00, 0x00,
        0x01, 0x00, 0x01,
    ]
}

pub fn sctp_port_32836() -> Vec<u8> {
    vec![
        0x00, 0x04, 0x96, 0x08, 0xe0, 0x40, 0x00, 0x0e, 0x2e, 0x24, 0x37, 0x5f, 0x08, 0x00,
        0x45, 0x02, 0x01, 0xc4, 0x00, 0x01, 0x40, 0x00, 0x40, 0x84, 0xbb, 0x6f, 0x9b, 0xe6,
        0x18, 0x9b, 0xcb, 0xff, 0xfc, 0xc2, 0x80, 0x44, 0x00, 0x50, 0xd2, 0x6a, 0xc1, 0xe5,
        0x70, 0xe5, 0x5b, 0x4c, 0x00, 0x03, 0x01, 0xa3, 0x2b, 0x2d, 0x7e, 0xb2, 0x00, 0x00,
        0x00, 0x00, 0x00, 0x00, 0x00, 0x00, 0x47, 0x45, 0x54, 0x20, 0x2f, 0x20, 0x48, 0x54,
        0x54, 0x50, 0x2f, 0x31, 0x2e, 0x31, 0x0d, 0x0a, 0x48, 0x6f, 0x73, 0x74, 0x3a, 0x20,
        0x32, 0x30, 0x33, 0x2e, 0x32, 0x35, 0x35, 0x2e, 0x32, 0x35, 0x32, 0x2e, 0x31, 0x39,
        0x34, 0x0d, 0x0a, 0x55, 0x73, 0x65, 0x72, 0x2d, 0x41, 0x67, 0x65, 0x6e, 0x74, 0x3a,
        0x20, 0x4d, 0x6f, 0x7a, 0x69, 0x6c, 0x6c, 0x61, 0x2f, 0x35, 0x2e, 0x30, 0x20, 0x28,
        0x58, 0x31, 0x31, 0x3b, 0x20, 0x55, 0x3b, 0x20, 0x4c, 0x69, 0x6e, 0x75, 0x78, 0x20,
        0x69, 0x36, 0x38, 0x36, 0x3b, 0x20, 0x6b, 0x6f, 0x2d, 0x4b, 0x52, 0x3b, 0x20, 0x72,
        0x76, 0x3a, 0x31, 0x2e, 0x37, 0x2e, 0x31, 0x32, 0x29, 0x20, 0x47, 0x65, 0x63, 0x6b,
        0x6f, 0x2f, 0x32, 0x30, 0x30, 0x35, 0x31, 0x30, 0x30, 0x37, 0x20, 0x44, 0x65, 0x62,
        0x69, 0x61, 0x6e, 0x2f, 0x31, 0x2e, 0x37, 0x2e, 0x31, 0x32, 0x2d, 0x31, 0x0d, 0x0a,
        0x41, 0x63, 0x63, 0x65, 0x70, 0x74, 0x3a, 0x20, 0x74, 0x65, 0x78, 0x74, 0x2f, 0x78,
        0x6d, 0x6c, 0x2c, 0x61, 0x70, 0x70, 0x6c, 0x69, 0x63, 0x61, 0x74, 0x69, 0x6f, 0x6e,
        0x2f, 0x78, 0x6d, 0x6c, 0x2c, 0x61, 0x70, 0x70, 0x6c, 0x69, 0x63, 0x61, 0x74, 0x69,
        0x6f, 0x6e, 0x2f, 0x78, 0x68, 0x74, 0x6d, 0x6c, 0x2b, 0x78, 0x6d, 0x6c, 0x2c, 0x74,
        0x65, 0x78, 0x74, 0x2f, 0x68, 0x74, 0x6d, 0x6c, 0x3b, 0x71, 0x3d, 0x30, 0x2e, 0x39,
        0x2c, 0x74, 0x65, 0x78, 0x74, 0x2f, 0x70, 0x6c, 0x61, 0x69, 0x6e, 0x3b, 0x71, 0x3d,
        0x30, 0x2e, 0x38, 0x2c, 0x69, 0x6d, 0x61, 0x67, 0x65, 0x2f, 0x70, 0x6e, 0x67, 0x2c,
        0x2a, 0x2f, 0x2a, 0x3b, 0x71, 0x3d, 0x30, 0x2e, 0x35, 0x0d, 0x0a, 0x41, 0x63, 0x63,
        0x65, 0x70, 0x74, 0x2d, 0x4c, 0x61, 0x6e, 0x67, 0x75, 0x61, 0x67, 0x65, 0x3a, 0x20,
        0x6b, 0x6f, 0x2c, 0x65, 0x6e, 0x2d, 0x75, 0x73, 0x3b, 0x71, 0x3d, 0x30, 0x2e, 0x37,
        0x2c, 0x65, 0x6e, 0x3b, 0x71, 0x3d, 0x30, 0x2e, 0x33, 0x0d, 0x0a, 0x41, 0x63, 0x63,
        0x65, 0x70, 0x74, 0x2d, 0x45, 0x6e, 0x63, 0x6f, 0x64, 0x69, 0x6e, 0x67, 0x3a, 0x20,
        0x67, 0x7a, 0x69, 0x70, 0x2c, 0x64, 0x65, 0x66, 0x6c, 0x61, 0x74, 0x65, 0x0d, 0x0a,
        0x41, 0x63, 0x63, 0x65, 0x70, 0x74, 0x2d, 0x43, 0x68, 0x61, 0x72, 0x73, 0x65, 0x74,
        0x3a, 0x20, 0x45, 0x55, 0x43, 0x2d, 0x4b, 0x52, 0x2c, 0x75, 0x74, 0x66, 0x2d, 0x38,
        0x3b, 0x71, 0x3d, 0x30, 0x2e, 0x37, 0x2c, 0x2a, 0x3b, 0x71, 0x3d, 0x30, 0x2e, 0x37,
        0x0d, 0x0a, 0x4b, 0x65, 0x65, 0x70, 0x2d, 0x41, 0x6c, 0x69, 0x76, 0x65, 0x3a, 0x20,
        0x33, 0x30, 0x30, 0x0d, 0x0a, 0x43, 0x6f, 0x6e, 0x6e, 0x65, 0x63, 0x74, 0x69, 0x6f,
        0x6e, 0x3a, 0x20, 0x6b, 0x65, 0x65, 0x70, 0x2d, 0x61, 0x6c, 0x69, 0x76, 0x65, 0x0d,
        0x0a, 0x0d, 0x0a, 0x00,
    ]
}

#[test]
fn port_classify() {
    let mut classifier = port::Classifier::new();
    classifier.add_rule(&port_rule(1, 80, Protocol::TCP)).unwrap();

    let mut pkt = with_transport(tcp_port_80(), Protocol::TCP);
    classifier.classify(&mut pkt);
    assert_eq!(pkt.rules().len(), 1);
    assert_eq!(pkt.rules()[0].rule_type, matched::RuleType::Port);
    assert_eq!(pkt.rules()[0].parsers[0], 1);
    assert_eq!(pkt.rules()[0].parsers_count, 1);

    classifier.add_rule(&port_rule(2, 53, Protocol::UDP)).unwrap();
    let mut pkt = with_transport(udp_port_53(), Protocol::UDP);
    classifier.classify(&mut pkt);
    assert_eq!(pkt.rules().len(), 1);
    assert_eq!(pkt.rules()[0].rule_type, matched::RuleType::Port);
    assert_eq!(pkt.rules()[0].parsers[0], 2);
    assert_eq!(pkt.rules()[0].parsers_count, 1);

    classifier.add_rule(&port_rule(3, 32836, Protocol::SCTP)).unwrap();
    let mut pkt = with_transport(sctp_port_32836(), Protocol::SCTP);
    classifier.classify(&mut pkt);
    assert_eq!(pkt.rules().len(), 1);
    assert_eq!(pkt.rules()[0].rule_type, matched::RuleType::Port);
    assert_eq!(pkt.rules()[0].parsers[0], 3);
    assert_eq!(pkt.rules()[0].parsers_count, 1);
}

#[test]
fn port_tables_are_independent() {
    let mut classifier = port::Classifier::new();
    classifier.add_rule(&port_rule(1, 80, Protocol::TCP)).unwrap();
    let mut pkt = Packet::new(vec![0x12, 0x34, 0x00, 0x50, 0, 0, 0, 0]);
    pkt.layers.trans = Layer { offset: 0, protocol: Protocol::UDP };
    classifier.classify(&mut pkt);
    assert_eq!(pkt.rules().len(), 0);
    assert!(classifier.slot(Protocol::UDP, 80).unwrap().parsers_count == 0);
    assert!(classifier.slot(Protocol::ICMP, 80).is_none());
}

#[test]
fn port_65535_is_reachable() {
    let mut classifier = port::Classifier::new();
    classifier.add_rule(&port_rule(6, 65535, Protocol::SCTP)).unwrap();
    let mut pkt = Packet::new(vec![0x00, 0x01, 0xff, 0xff]);
    pkt.layers.trans = Layer { offset: 0, protocol: Protocol::SCTP };
    classifier.classify(&mut pkt);
    assert_eq!(pkt.rules().len(), 1);
    assert_eq!(pkt.rules()[0].parsers[0], 6);
}

#[test]
fn port_both_ends_match_separately() {
    let mut classifier = port::Classifier::new();
    classifier.add_rule(&port_rule(1, 80, Protocol::TCP)).unwrap();
    classifier.add_rule(&port_rule(2, 8080, Protocol::TCP)).unwrap();
    let mut pkt = Packet::new(vec![0x1f, 0x90, 0x00, 0x50]);
    pkt.layers.trans = Layer { offset: 0, protocol: Protocol::TCP };
    classifier.classify(&mut pkt);
    assert_eq!(pkt.rules().len(), 2);
    assert_eq!(pkt.rules()[0].parsers[0], 2);
    assert_eq!(pkt.rules()[1].parsers[0], 1);
}

#[test]
fn port_short_transport_header_matches_nothing() {
    let mut classifier = port::Classifier::new();
    classifier.add_rule(&port_rule(1, 80, Protocol::TCP)).unwrap();
    let mut pkt = Packet::new(vec![0x00, 0x50, 0x00]);
    pkt.layers.trans = Layer { offset: 0, protocol: Protocol::TCP };
    classifier.classify(&mut pkt);
    assert_eq!(pkt.rules().len(), 1);
    assert_eq!(pkt.src_port(), Some(80));
    assert_eq!(pkt.dst_port(), None);
}

#[test]
fn registry_dedups_equal_rules() {
    let mut manager = ClassifierManager::new();
    let mut a = port_rule(1, 80, Protocol::TCP);
    let mut b = port_rule(2, 80, Protocol::TCP);
    let ida = manager.add_rule(&mut a).unwrap();
    let idb = manager.add_rule(&mut b).unwrap();
    assert_eq!(ida, idb);
    let slot = manager.port().slot(Protocol::TCP, 80).unwrap();
    assert_eq!(slot.parsers_count, 2);
    assert_eq!(slot.id, ida);

    let mut c = Rule::new(3);
    c.rule_type = RuleType::DPI(dpi_rule("x"));
    let mut d = Rule::new(4);
    d.rule_type = RuleType::DPI(dpi_rule("x"));
    let idc = manager.add_rule(&mut c).unwrap();
    let idd = manager.add_rule(&mut d).unwrap();
    assert_eq!(idc, idd);
    assert_ne!(idc, ida);
    assert_eq!(manager.dpi().len(), 1);
}

#[test]
fn registry_refuses_ninth_parser_and_keeps_state() {
    let mut manager = ClassifierManager::new();
    for p in 0..8u8 {
        let mut r = port_rule(p, 443, Protocol::TCP);
        manager.add_rule(&mut r).unwrap();
    }
    let mut r = port_rule(8, 443, Protocol::TCP);
    assert_eq!(manager.add_rule(&mut r), Err(Error::TooManyParsers));
    let slot = manager.port().slot(Protocol::TCP, 443).unwrap();
    assert_eq!(slot.parsers_count, 8);
    assert_eq!(slot.parsers, [0, 1, 2, 3, 4, 5, 6, 7]);

    let mut manager = ClassifierManager::new();
    for p in 0..8u8 {
        let mut r = Rule::new(p);
        r.rule_type = RuleType::DPI(dpi_rule("y"));
        manager.add_rule(&mut r).unwrap();
    }
    let mut r = Rule::new(8);
    r.rule_type = RuleType::DPI(dpi_rule("y"));
    assert_eq!(manager.add_rule(&mut r), Err(Error::TooManyParsers));
}

#[test]
fn registry_has_no_classifier_for_all_or_protocol() {
    let mut manager = ClassifierManager::new();
    let mut r = Rule::new(1);
    assert_eq!(manager.add_rule(&mut r), Err(Error::NoClassifier));
    let mut r = Rule::new(1);
    r.rule_type = RuleType::Protocol(Protocol::TCP);
    assert_eq!(manager.add_rule(&mut r), Err(Error::NoClassifier));
    let mut r = port_rule(1, 1, Protocol::IPV4);
    assert_eq!(manager.add_rule(&mut r), Err(Error::InvalidTransport));
}

#[test]
fn registry_classifies_port_then_dpi() {
    let mut manager = ClassifierManager::new();
    let mut a = port_rule(1, 80, Protocol::TCP);
    manager.add_rule(&mut a).unwrap();
    let mut b = Rule::new(2);
    b.rule_type = RuleType::DPI(dpi_rule("GET"));
    manager.add_rule(&mut b).unwrap();
    manager.prepare();
    let mut pkt = with_transport(tcp_port_80(), Protocol::TCP);
    manager.classify(&mut pkt, &[ScanMatch { id: 0, from: 0, to: 3 }]);
    assert_eq!(pkt.rules().len(), 2);
    assert_eq!(pkt.rules()[0].rule_type, matched::RuleType::Port);
    assert_eq!(pkt.rules()[1].rule_type, matched::RuleType::DPI);
    assert_eq!(pkt.rules()[1].parsers[0], 2);
}

#[test]
fn rule_parser_list() {
    let mut r = Rule::new(5);
    assert_eq!(r.parser_list(), vec![5]);
    assert_eq!(r.first_parser(), Some(5));
    r.add_parser(9);
    assert_eq!(r.parser_list(), vec![5, 9]);
    assert_eq!(r.first_parser(), Some(5));
}

#[test]
fn layered_tcp_port_80_gets_one_port_rule() {
    let mut manager = ClassifierManager::new();
    let mut rule = port_rule(7, 80, Protocol::TCP);
    manager.add_rule(&mut rule).unwrap();
    manager.prepare();

    let parser = alphonse::packet::Parser::new(alphonse::packet::layering::LINKTYPE_ETHERNET);
    let mut pkt = Packet::new(tcp_port_80());
    parser.parse_pkt(&mut pkt).unwrap();
    assert_eq!(pkt.layers.data_link, Layer { offset: 0, protocol: Protocol::ETHERNET });
    assert_eq!(pkt.layers.network, Layer { offset: 14, protocol: Protocol::IPV4 });
    assert_eq!(pkt.layers.trans, Layer { offset: 34, protocol: Protocol::TCP });
    assert_eq!(pkt.layers.app.offset, 66);
    assert_eq!(pkt.dst_port(), Some(80));
    manager.classify(&mut pkt, &[]);
    assert_eq!(pkt.rules().len(), 1);
    assert_eq!(pkt.rules()[0].rule_type, matched::RuleType::Port);
    assert_eq!(pkt.rules()[0].parsers[0], 7);
    assert_eq!(pkt.payload(), &tcp_port_80()[66..]);
}

#[test]
fn layered_sctp_port_32836_gets_one_port_rule() {
    let mut manager = ClassifierManager::new();
    let mut rule = port_rule(3, 32836, Protocol::SCTP);
    manager.add_rule(&mut rule).unwrap();
    manager.prepare();

    let parser = alphonse::packet::Parser::new(alphonse::packet::layering::LINKTYPE_ETHERNET);
    let mut pkt = Packet::new(sctp_port_32836());
    parser.parse_pkt(&mut pkt).unwrap();
    assert_eq!(pkt.layers.trans, Layer { offset: 34, protocol: Protocol::SCTP });
    assert_eq!(pkt.layers.app.offset, 46);
    assert_eq!(pkt.src_port(), Some(32836));
    manager.classify(&mut pkt, &[]);
    assert_eq!(pkt.rules().len(), 1);
    assert_eq!(pkt.rules()[0].parsers[0], 3);
}

#[test]
fn layered_udp_port_53() {
    let parser = alphonse::packet::Parser::new(alphonse::packet::layering::LINKTYPE_ETHERNET);
    let mut pkt = Packet::new(udp_port_53());
    parser.parse_pkt(&mut pkt).unwrap();
    assert_eq!(pkt.layers.trans, Layer { offset: 34, protocol: Protocol::UDP });
    assert_eq!(pkt.layers.app.offset, 42);
    assert_eq!(pkt.payload()[0], 0x9c);
}

#[test]
fn registry_without_rules_appends_nothing() {
    let mut manager = ClassifierManager::new();
    manager.prepare();
    let mut pkt = with_transport(tcp_port_80(), Protocol::TCP);
    manager.classify(&mut pkt, &[ScanMatch { id: 0, from: 0, to: 4 }]);
    assert_eq!(pkt.rules().len(), 0);
    assert!(manager.get_rule(0).is_none());
}

#[test]
fn registry_get_rule_and_pattern_id() {
    let mut manager = ClassifierManager::new();
    let mut a = port_rule(1, 22, Protocol::TCP);
    let ida = manager.add_rule(&mut a).unwrap();
    let mut b = Rule::new(2);
    b.rule_type = RuleType::DPI(dpi_rule("^SSH-"));
    let idb = manager.add_rule(&mut b).unwrap();
    assert_eq!(manager.get_rule(ida).unwrap().rule_type, matched::RuleType::Port);
    assert_eq!(manager.get_rule(idb).unwrap().rule_type, matched::RuleType::DPI);
    assert_eq!(manager.dpi_pattern_id(idb), Some(0));
    assert_eq!(manager.dpi_pattern_id(ida), None);
    assert!(manager.get_rule(99).is_none());
}

#[test]
fn matched_rules_spill_past_eight() {
    let mut classifier = dpi::Classifier::new();
    let mut rule = Rule::new(1);
    rule.rule_type = RuleType::DPI(dpi_rule("a"));
    classifier.add_rule(&rule).unwrap();
    classifier.prepare();
    let mut pkt = Packet::new(b"aaaaaaaaaa".to_vec());
    let matches: Vec<ScanMatch> = (1..=10u64).map(|to| ScanMatch { id: 0, from: 0, to }).collect();
    classifier.classify(&mut pkt, &matches);
    assert_eq!(pkt.rules().len(), 10);
    assert!(pkt.rules().iter().all(|r| r.parsers[0] == 1));
}
