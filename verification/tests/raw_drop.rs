use iris_flow::flow_drop::raw_drop::{
    bytes_to_hex, create_raw_drop, install_quic_short_drop, install_quic_short_drop_variant,
    install_tls_appdata_drop, install_tls_appdata_drop_variant, DriverError, RawDropError,
    RawEvent, RawPhase, RawRule, MAX_TEMPLATE_HEX,
};
use iris_flow::flow_drop::{FlowAttr, RuleAction};
use iris_flow::port::PortId;

fn hex(s: &str) -> Vec<u8> {
    let mut out = s.as_bytes().to_vec();
    out.resize(MAX_TEMPLATE_HEX, 0);
    out
}

/// The bytes of a template, given its hex buffer and the number of digits in it.
fn bytes(buffer: &[u8], digits: u16) -> Vec<u8> {
    buffer[..digits as usize]
        .chunks(2)
        .map(|c| u8::from_str_radix(&String::from_utf8(c.to_vec()).expect("text"), 16).expect("hex"))
        .collect()
}

fn matches_rule(rule: &RawRule, packet: &[u8]) -> bool {
    let spec = bytes(&rule.spec_hex, rule.length);
    let mask = bytes(&rule.mask_hex, rule.length);
    packet.len() >= spec.len()
        && (0..spec.len()).all(|i| packet[i] & mask[i] == spec[i] & mask[i])
}

#[test]
fn bytes_become_small_hex_digits() {
    assert_eq!(bytes_to_hex(&[]), hex(""));
    assert_eq!(bytes_to_hex(&[0x00, 0x9a, 0xff]), hex("009aff"));
    assert_eq!(bytes_to_hex(&[0x12; 136]).len(), MAX_TEMPLATE_HEX);
}

#[test]
fn rules_drop_on_group_zero() {
    let d = create_raw_drop(PortId(3), &vec![0xab, 0x01], &vec![0xff, 0x0f], 7, "x".to_string());
    assert_eq!(
        d.rule,
        RawRule {
            port: PortId(3),
            spec_hex: hex("ab01"),
            mask_hex: hex("ff0f"),
            length: 4,
            attr: FlowAttr { ingress: true, group: 0, priority: 7 },
            actions: vec![RuleAction::Drop, RuleAction::End],
            label: "x".to_string(),
        }
    );
    assert_eq!(d.phase, RawPhase::Validate);
}

fn tls_packet_v4() -> Vec<u8> {
    let mut p = vec![0x5a; 100];
    p[12] = 0x08;
    p[13] = 0x00;
    p[14] = 0x45;
    p[23] = 6;
    p[14 + 20 + 12] = 0x8f;
    p[14 + 20 + 32] = 0x17;
    p[14 + 20 + 33] = 0x03;
    p
}

#[test]
fn tls_template_matches_application_data_only() {
    let d = install_tls_appdata_drop_variant(PortId(0), 4, 5).ok().expect("rule");
    assert_eq!(d.rule.label, "tls-appdata-drop v4 ihl=5 doff=8");
    assert_eq!(d.rule.length, 2 * 68);
    assert!(matches_rule(&d.rule, &tls_packet_v4()));
    for (at, value) in [(12, 0x86), (14, 0x46), (23, 17), (46, 0x50), (66, 0x16), (67, 0x02)] {
        let mut p = tls_packet_v4();
        p[at] = value;
        assert!(!matches_rule(&d.rule, &p), "byte {at}");
    }
    assert!(!matches_rule(&d.rule, &tls_packet_v4()[..67]));
}

#[test]
fn ipv6_tls_template() {
    let d = install_tls_appdata_drop_variant(PortId(0), 6, 0).ok().expect("rule");
    assert_eq!(d.rule.label, "tls-appdata-drop v6 ihl=0 doff=8");
    let mut p = vec![0u8; 88];
    p[12] = 0x86;
    p[13] = 0xdd;
    p[14] = 0x6f;
    p[20] = 6;
    p[66] = 0x80;
    p[86] = 0x17;
    p[87] = 0x03;
    assert!(matches_rule(&d.rule, &p));
    p[14] = 0x4f;
    assert!(!matches_rule(&d.rule, &p));
}

#[test]
fn quic_template_looks_at_the_first_byte_only() {
    let d = install_quic_short_drop_variant(PortId(0), 4, 5).ok().expect("rule");
    assert_eq!(d.rule.label, "quic-short-drop v4 ihl=5 (b0-only)");
    assert_eq!(d.rule.length, 2 * 47);
    let mut p = vec![0x33; 47];
    p[12] = 0x08;
    p[13] = 0x00;
    p[14] = 0x45;
    p[23] = 0x11;
    p[42] = 0x7f;
    assert!(matches_rule(&d.rule, &p));
    p[42] = 0xc0;
    assert!(!matches_rule(&d.rule, &p));
    p[42] = 0x20;
    assert!(!matches_rule(&d.rule, &p));
    let six = install_quic_short_drop_variant(PortId(0), 6, 0).ok().expect("rule");
    assert_eq!(six.rule.length, 2 * 67);
}

#[test]
fn other_ip_versions_are_refused() {
    let e = install_tls_appdata_drop_variant(PortId(0), 5, 0).err().expect("error");
    assert_eq!(e, RawDropError::UnsupportedIpVer(5));
    assert_eq!(e.message(), "unsupported ip_ver 5");
    let e = install_quic_short_drop_variant(PortId(0), 0, 255).err().expect("error");
    assert_eq!(e.message(), "unsupported ip_ver 0");
}

#[test]
fn refused_rule_is_skipped() {
    let mut inst = install_tls_appdata_drop(PortId(2));
    assert_eq!(inst.current().expect("rule").phase, RawPhase::Validate);
    inst.step(RawEvent::Invalid(DriverError { kind: 16, cause: 0xbeef, message: None }));
    assert_eq!(inst.current().expect("rule").rule.label, "tls-appdata-drop v6 ihl=0 doff=8");
    inst.step(RawEvent::Valid);
    assert_eq!(inst.current().expect("rule").phase, RawPhase::Create);
    inst.step(RawEvent::Created(77));
    assert!(inst.current().is_none());
    let e = inst.outcomes()[0].error.as_ref().expect("error");
    assert_eq!(
        e.message(),
        "rte_flow_validate failed for tls-appdata-drop v4 ihl=5 doff=8 on port 2 (type=16, cause=0xbeef): (none)"
    );
    assert_eq!(inst.finish(), vec![77]);
}

#[test]
fn rule_that_is_not_created_is_skipped() {
    let mut inst = install_quic_short_drop(PortId(1));
    inst.step(RawEvent::Valid);
    inst.step(RawEvent::NotCreated(DriverError { kind: 1, cause: 0, message: Some("no".to_string()) }));
    let e = inst.outcomes()[0].error.as_ref().expect("error").message();
    assert_eq!(
        e,
        "rte_flow_create failed for quic-short-drop v4 ihl=5 (b0-only) on port 1 (type=1, cause=0x0): no"
    );
    inst.step(RawEvent::Created(5));
    assert_eq!(inst.current().expect("rule").phase, RawPhase::Validate);
    inst.step(RawEvent::Valid);
    inst.step(RawEvent::Created(6));
    assert_eq!(inst.finish(), vec![6]);
}

#[test]
fn zero_is_no_raw_rule() {
    let mut inst = install_quic_short_drop(PortId(1));
    inst.step(RawEvent::Valid);
    inst.step(RawEvent::Created(0));
    assert_eq!(inst.current().expect("rule").phase, RawPhase::Create);
    inst.step(RawEvent::Created(4));
    assert_eq!(inst.finish(), vec![4]);
}
