//! Raw-pattern flow drops for Intel ICE NICs.
//!
//! ICE expects raw-pattern rules whose pattern buffer is the ASCII hex encoding of the bytes to
//! compare and of their mask, with the length doubled accordingly. The rules go on group 0
//! directly. A rule is first validated by the driver and then created.

use vstd::prelude::*;

use crate::flow_drop::{FlowAttr, RuleAction};
use crate::port::PortId;
use crate::text::{decimal, hex, push_decimal, push_hex};

verus! {

/// Record type of TLS Application Data.
pub const TLS_APPDATA_TYPE: u8 = 0x17;

/// Major version in a TLS record header.
pub const TLS_VERSION_MAJOR: u8 = 0x03;

/// TCP data offset with timestamps. ICE allows only one profile per packet type, so the offset is
/// pinned.
pub const TCP_DOFF_PINNED: u8 = 8;

/// ETH(14) + IPv4(60 worst-case) + TCP(60 worst-case) + 2-byte TLS prefix.
pub const MAX_TEMPLATE_BYTES: usize = 136;

/// Size of the hex buffer: two digits for each byte and a terminating zero.
pub const MAX_TEMPLATE_HEX: usize = 273;

/// The ASCII code of a hex digit.
pub open spec fn hex_code(d: int) -> u8 {
    if d < 10 {
        (48 + d) as u8
    } else {
        (87 + d) as u8
    }
}

/// The bytes in hex, high digit first, padded with zeros to the size of the buffer.
pub open spec fn hex_buffer(bytes: Seq<u8>) -> Seq<u8> {
    Seq::new(
        MAX_TEMPLATE_HEX as nat,
        |i: int|
            if i < 2 * bytes.len() {
                if i % 2 == 0 {
                    hex_code(bytes[i / 2] as int / 16)
                } else {
                    hex_code(bytes[i / 2] as int % 16)
                }
            } else {
                0u8
            },
    )
}

/// The ASCII code of a hex digit.
fn nibble_code(d: u8) -> (r: u8)
    requires
        d < 16,
    ensures
        r == hex_code(d as int),
{
    if d < 10 {
        48 + d
    } else {
        87 + d
    }
}

/// The bytes in hex, in a buffer of fixed size.
pub fn bytes_to_hex(bytes: &[u8]) -> (r: Vec<u8>)
    requires
        bytes@.len() <= MAX_TEMPLATE_BYTES,
    ensures
        r@ == hex_buffer(bytes@),
{
    let mut out: Vec<u8> = vec![0u8; MAX_TEMPLATE_HEX];
    let mut i: usize = 0;
    while i < bytes.len()
        invariant
            i <= bytes@.len() <= MAX_TEMPLATE_BYTES,
            out@.len() == MAX_TEMPLATE_HEX,
            forall|j: int| 0 <= j < 2 * i ==> out@[j] == hex_buffer(bytes@)[j],
            forall|j: int| 2 * i <= j < MAX_TEMPLATE_HEX ==> out@[j] == 0,
        decreases bytes@.len() - i,
    {
        let b: u8 = bytes[i];
        assert(b >> 4 == b / 16 && b & 0x0f == b % 16) by (bit_vector);
        out.set(2 * i, nibble_code(b >> 4));
        out.set(2 * i + 1, nibble_code(b & 0x0f));
        i = i + 1;
    }
    assert(out@ =~= hex_buffer(bytes@));
    out
}

/// Bytes of a packet that a template pins: for an offset, the value and the bits that count.
pub type Pins = Map<int, (u8, u8)>;

/// A byte string with the pinned values written over it.
pub open spec fn with_values(s: Seq<u8>, pins: Pins) -> Seq<u8> {
    Seq::new(
        s.len(),
        |i: int|
            if pins.contains_key(i) {
                pins[i].0
            } else {
                s[i]
            },
    )
}

/// A byte string with the pinned bits written over it.
pub open spec fn with_masks(s: Seq<u8>, pins: Pins) -> Seq<u8> {
    Seq::new(
        s.len(),
        |i: int|
            if pins.contains_key(i) {
                pins[i].1
            } else {
                s[i]
            },
    )
}

/// So many zero bytes.
pub open spec fn zeros(n: nat) -> Seq<u8> {
    Seq::new(n, |i: int| 0u8)
}

/// What pins an IPv4 packet with a header of `ihl` words that carries a protocol: the Ethernet
/// type, version and header length, and the protocol.
pub open spec fn ipv4_pins(ihl: u8, l4_proto: u8) -> Pins {
    map![
        12int => (0x08u8, 0xffu8),
        13int => (0x00u8, 0xffu8),
        14int => (0x40u8 | ihl, 0xffu8),
        23int => (l4_proto, 0xffu8),
    ]
}

/// What pins an IPv6 packet that carries a protocol: the Ethernet type, the version, and the
/// protocol.
pub open spec fn ipv6_pins(l4_proto: u8) -> Pins {
    map![
        12int => (0x86u8, 0xffu8),
        13int => (0xddu8, 0xffu8),
        14int => (0x60u8, 0xf0u8),
        20int => (l4_proto, 0xffu8),
    ]
}

/// Pins Ethernet type, version and header length, and protocol of an IPv4 packet.
pub fn fill_ipv4_l4_prefix(spec: &mut Vec<u8>, mask: &mut Vec<u8>, ihl: u8, l4_proto: u8)
    requires
        old(spec)@.len() >= 24,
        old(mask)@.len() >= 24,
    ensures
        final(spec)@ == with_values(old(spec)@, ipv4_pins(ihl, l4_proto)),
        final(mask)@ == with_masks(old(mask)@, ipv4_pins(ihl, l4_proto)),
{
    spec.set(12, 0x08);
    spec.set(13, 0x00);
    mask.set(12, 0xff);
    mask.set(13, 0xff);
    spec.set(14, 0x40 | ihl);
    mask.set(14, 0xff);
    spec.set(23, l4_proto);
    mask.set(23, 0xff);
    assert(spec@ =~= with_values(old(spec)@, ipv4_pins(ihl, l4_proto)));
    assert(mask@ =~= with_masks(old(mask)@, ipv4_pins(ihl, l4_proto)));
}

/// Pins Ethernet type, version and protocol of an IPv6 packet.
pub fn fill_ipv6_l4_prefix(spec: &mut Vec<u8>, mask: &mut Vec<u8>, l4_proto: u8)
    requires
        old(spec)@.len() >= 21,
        old(mask)@.len() >= 21,
    ensures
        final(spec)@ == with_values(old(spec)@, ipv6_pins(l4_proto)),
        final(mask)@ == with_masks(old(mask)@, ipv6_pins(l4_proto)),
{
    spec.set(12, 0x86);
    spec.set(13, 0xdd);
    mask.set(12, 0xff);
    mask.set(13, 0xff);
    spec.set(14, 0x60);
    mask.set(14, 0xf0);
    spec.set(20, l4_proto);
    mask.set(20, 0xff);
    assert(spec@ =~= with_values(old(spec)@, ipv6_pins(l4_proto)));
    assert(mask@ =~= with_masks(old(mask)@, ipv6_pins(l4_proto)));
}

/// A raw-pattern rule as the driver takes it.
#[derive(Debug, PartialEq, Eq)]
pub struct RawRule {
    /// The port that gets the rule.
    pub port: PortId,
    /// The values to compare, in hex.
    pub spec_hex: Vec<u8>,
    /// The bits to compare, in hex.
    pub mask_hex: Vec<u8>,
    /// Number of hex digits in either.
    pub length: u16,
    /// Where the rule stands.
    pub attr: FlowAttr,
    /// What is done to a packet that matches.
    pub actions: Vec<RuleAction>,
    /// A name for messages.
    pub label: String,
}

/// Whether a rule drops what agrees with `spec` on the bits of `mask`.
pub open spec fn is_raw_drop(
    rule: RawRule,
    port: PortId,
    spec: Seq<u8>,
    mask: Seq<u8>,
    priority: u32,
    label: Seq<char>,
) -> bool {
    &&& rule.port == port
    &&& rule.spec_hex@ == hex_buffer(spec)
    &&& rule.mask_hex@ == hex_buffer(mask)
    &&& rule.length == 2 * spec.len()
    &&& rule.attr == (FlowAttr { ingress: true, group: 0, priority })
    &&& rule.actions@ == seq![RuleAction::Drop, RuleAction::End]
    &&& rule.label@ == label
}

/// What the driver says of a failure.
#[derive(Debug, PartialEq, Eq)]
pub struct DriverError {
    /// Number of the kind of failure.
    pub kind: u32,
    /// Address of the object that caused it.
    pub cause: u64,
    /// The driver's message, if it gave one.
    pub message: Option<String>,
}

/// Why a raw-pattern rule could not be installed.
#[derive(Debug, PartialEq, Eq)]
pub enum RawDropError {
    /// The IP version is neither 4 nor 6.
    UnsupportedIpVer(u8),
    /// The driver rejected the rule with this name on a port.
    Validate(String, PortId, DriverError),
    /// The driver did not create the rule with this name on a port.
    Create(String, PortId, DriverError),
}

/// The rest of a message about a rule that the driver refused.
pub open spec fn refusal(label: Seq<char>, port: PortId, e: DriverError) -> Seq<char> {
    label + " on port "@ + decimal(port.0 as nat) + " (type="@ + decimal(e.kind as nat)
        + ", cause=0x"@ + hex(e.cause as nat) + "): "@ + match e.message {
        Some(m) => m@,
        None => "(none)"@,
    }
}

/// Appends the rest of a message about a rule that the driver refused.
fn push_refusal(out: &mut String, label: &String, port: PortId, e: &DriverError)
    ensures
        final(out)@ == old(out)@ + refusal(label@, port, *e),
{
    out.append(label.as_str());
    out.append(" on port ");
    push_decimal(out, port.0 as u128);
    out.append(" (type=");
    push_decimal(out, e.kind as u128);
    out.append(", cause=0x");
    push_hex(out, e.cause);
    out.append("): ");
    match &e.message {
        Some(m) => out.append(m.as_str()),
        None => out.append("(none)"),
    }
    assert(out@ =~= old(out)@ + refusal(label@, port, *e));
}

impl RawDropError {
    /// The message for an error.
    pub open spec fn text(self) -> Seq<char> {
        match self {
            RawDropError::UnsupportedIpVer(v) => "unsupported ip_ver "@ + decimal(v as nat),
            RawDropError::Validate(label, port, e) => "rte_flow_validate failed for "@ + refusal(
                label@,
                port,
                e,
            ),
            RawDropError::Create(label, port, e) => "rte_flow_create failed for "@ + refusal(
                label@,
                port,
                e,
            ),
        }
    }

    /// The message for an error.
    pub fn message(&self) -> (r: String)
        ensures
            r@ == self.text(),
    {
        let mut out: String = String::new();
        match self {
            RawDropError::UnsupportedIpVer(v) => {
                out.append("unsupported ip_ver ");
                push_decimal(&mut out, *v as u128);
            },
            RawDropError::Validate(label, port, e) => {
                out.append("rte_flow_validate failed for ");
                push_refusal(&mut out, label, *port, e);
            },
            RawDropError::Create(label, port, e) => {
                out.append("rte_flow_create failed for ");
                push_refusal(&mut out, label, *port, e);
            },
        }
        assert(out@ =~= self.text());
        out
    }
}

/// Where the installation of a raw-pattern rule stands.
#[derive(Clone, Copy, Debug, PartialEq, Eq, Structural)]
pub enum RawPhase {
    /// The driver is to validate the rule.
    Validate,
    /// The driver is to create the rule.
    Create,
    /// The rule is installed, under this number.
    Done(u64),
    /// The rule was refused.
    Failed,
}

/// What came of an action for a raw-pattern rule.
#[derive(Debug)]
pub enum RawEvent {
    /// The rule is valid.
    Valid,
    /// The rule is not valid.
    Invalid(DriverError),
    /// The rule was created; 0 stands for none and is no answer.
    Created(u64),
    /// The rule was not created.
    NotCreated(DriverError),
}

/// The installation of one raw-pattern rule.
pub struct RawDrop {
    /// The rule.
    pub rule: RawRule,
    /// What is to be done.
    pub phase: RawPhase,
    /// Why the rule was refused.
    pub error: Option<RawDropError>,
}

impl RawDrop {
    /// What holds of every installation.
    pub open spec fn wf(self) -> bool {
        &&& self.error is Some <==> self.phase is Failed
        &&& self.phase != RawPhase::Done(0)
    }

    /// The phase and error after an event. An event that does not answer what was asked for changes
    /// nothing.
    pub open spec fn after(self, ev: RawEvent) -> (RawPhase, Option<RawDropError>) {
        match (self.phase, ev) {
            (RawPhase::Validate, RawEvent::Valid) => (RawPhase::Create, self.error),
            (RawPhase::Validate, RawEvent::Invalid(e)) => (
                RawPhase::Failed,
                Some(RawDropError::Validate(self.rule.label, self.rule.port, e)),
            ),
            (RawPhase::Create, RawEvent::Created(f)) if f != 0 => (RawPhase::Done(f), self.error),
            (RawPhase::Create, RawEvent::NotCreated(e)) => (
                RawPhase::Failed,
                Some(RawDropError::Create(self.rule.label, self.rule.port, e)),
            ),
            _ => (self.phase, self.error),
        }
    }

    /// Takes note of what the driver answered.
    pub fn step(&mut self, ev: RawEvent)
        requires
            old(self).wf(),
        ensures
            final(self).wf(),
            final(self).rule == old(self).rule,
            (final(self).phase, final(self).error) == old(self).after(ev),
    {
        match (self.phase, ev) {
            (RawPhase::Validate, RawEvent::Valid) => {
                self.phase = RawPhase::Create;
            },
            (RawPhase::Validate, RawEvent::Invalid(e)) => {
                self.phase = RawPhase::Failed;
                self.error = Some(
                    RawDropError::Validate(self.rule.label.clone(), self.rule.port, e),
                );
            },
            (RawPhase::Create, RawEvent::Created(f)) if f != 0 => {
                self.phase = RawPhase::Done(f);
            },
            (RawPhase::Create, RawEvent::NotCreated(e)) => {
                self.phase = RawPhase::Failed;
                self.error = Some(
                    RawDropError::Create(self.rule.label.clone(), self.rule.port, e),
                );
            },
            _ => {},
        }
    }
}

/// Starts the installation of a rule that drops what agrees with `spec` on the bits of `mask`.
pub fn create_raw_drop(
    port_id: PortId,
    spec: &Vec<u8>,
    mask: &Vec<u8>,
    priority: u32,
    label: String,
) -> (r: RawDrop)
    requires
        spec@.len() == mask@.len(),
        spec@.len() <= MAX_TEMPLATE_BYTES,
    ensures
        r.wf(),
        is_raw_drop(r.rule, port_id, spec@, mask@, priority, label@),
        r.phase == RawPhase::Validate,
{
    let total: usize = spec.len();
    let spec_hex: Vec<u8> = bytes_to_hex(spec.as_slice());
    let mask_hex: Vec<u8> = bytes_to_hex(mask.as_slice());
    let mut actions: Vec<RuleAction> = Vec::new();
    actions.push(RuleAction::Drop);
    actions.push(RuleAction::End);
    assert(actions@ =~= seq![RuleAction::Drop, RuleAction::End]);
    RawDrop {
        rule: RawRule {
            port: port_id,
            spec_hex,
            mask_hex,
            length: (total * 2) as u16,
            attr: FlowAttr { ingress: true, group: 0, priority },
            actions,
            label,
        },
        phase: RawPhase::Validate,
        error: None,
    }
}

/// Offset of the transport header in an Ethernet frame.
pub open spec fn l4_offset(ip_ver: u8, ihl: u8) -> int {
    if ip_ver == 4 {
        14 + 4 * ihl
    } else {
        54
    }
}

/// What pins the version and protocol of an IP packet.
pub open spec fn ip_pins(ip_ver: u8, ihl: u8, l4_proto: u8) -> Pins {
    if ip_ver == 4 {
        ipv4_pins(ihl, l4_proto)
    } else {
        ipv6_pins(l4_proto)
    }
}

/// What pins TLS Application Data over TCP with a data offset of eight words.
pub open spec fn tls_pins(ip_ver: u8, ihl: u8) -> Pins {
    let tcp = l4_offset(ip_ver, ihl);
    ip_pins(ip_ver, ihl, 6).insert(tcp + 12, (0x80u8, 0xf0u8)).insert(
        tcp + 32,
        (TLS_APPDATA_TYPE, 0xffu8),
    ).insert(tcp + 33, (TLS_VERSION_MAJOR, 0xffu8))
}

/// Length of the template for TLS Application Data.
pub open spec fn tls_len(ip_ver: u8, ihl: u8) -> nat {
    (l4_offset(ip_ver, ihl) + 34) as nat
}

/// What pins a QUIC short header over UDP: the form bit clear and the fixed bit set.
pub open spec fn quic_pins(ip_ver: u8, ihl: u8) -> Pins {
    ip_pins(ip_ver, ihl, 17).insert(l4_offset(ip_ver, ihl) + 8, (0x40u8, 0xc0u8))
}

/// Length of the template for QUIC short headers: up to the four bytes behind the first one, which
/// are not compared.
pub open spec fn quic_len(ip_ver: u8, ihl: u8) -> nat {
    (l4_offset(ip_ver, ihl) + 13) as nat
}

/// Name of the rule for TLS Application Data.
pub open spec fn tls_label(ip_ver: u8, ihl: u8) -> Seq<char> {
    "tls-appdata-drop v"@ + decimal(ip_ver as nat) + " ihl="@ + decimal(ihl as nat) + " doff="@
        + decimal(TCP_DOFF_PINNED as nat)
}

/// Name of the rule for QUIC short headers.
pub open spec fn quic_label(ip_ver: u8, ihl: u8) -> Seq<char> {
    "quic-short-drop v"@ + decimal(ip_ver as nat) + " ihl="@ + decimal(ihl as nat)
        + " (b0-only)"@
}

/// Whether an installation is that of a drop for what a template pins, not begun yet.
pub open spec fn starts(
    d: RawDrop,
    port: PortId,
    pins: Pins,
    len: nat,
    label: Seq<char>,
) -> bool {
    &&& d.wf()
    &&& d.phase == RawPhase::Validate
    &&& is_raw_drop(
        d.rule,
        port,
        with_values(zeros(len), pins),
        with_masks(zeros(len), pins),
        0,
        label,
    )
}

/// Starts the installation of a drop for TLS Application Data in one kind of IP packet.
pub fn install_tls_appdata_drop_variant(port_id: PortId, ip_ver: u8, ihl: u8) -> (r: Result<
    RawDrop,
    RawDropError,
>)
    requires
        ip_ver == 4 ==> tls_len(ip_ver, ihl) <= MAX_TEMPLATE_BYTES,
    ensures
        match r {
            Ok(d) => (ip_ver == 4 || ip_ver == 6) && starts(
                d,
                port_id,
                tls_pins(ip_ver, ihl),
                tls_len(ip_ver, ihl),
                tls_label(ip_ver, ihl),
            ),
            Err(e) => ip_ver != 4 && ip_ver != 6 && e == RawDropError::UnsupportedIpVer(ip_ver),
        },
{
    let ip_hlen: usize = if ip_ver == 4 {
        ihl as usize * 4
    } else {
        40
    };
    let tcp_off: usize = 14 + ip_hlen;
    let tls_off: usize = tcp_off + TCP_DOFF_PINNED as usize * 4;
    let total: usize = tls_off + 2;

    let mut spec: Vec<u8> = vec![0u8; total];
    let mut mask: Vec<u8> = vec![0u8; total];
    assert(spec@ =~= zeros(total as nat));
    assert(mask@ =~= zeros(total as nat));
    if ip_ver == 4 {
        fill_ipv4_l4_prefix(&mut spec, &mut mask, ihl, 0x06);
    } else if ip_ver == 6 {
        fill_ipv6_l4_prefix(&mut spec, &mut mask, 0x06);
    } else {
        return Err(RawDropError::UnsupportedIpVer(ip_ver));
    }

    assert(8u8 << 4u8 == 0x80u8) by (bit_vector);
    spec.set(tcp_off + 12, TCP_DOFF_PINNED << 4);
    mask.set(tcp_off + 12, 0xf0);
    spec.set(tls_off, TLS_APPDATA_TYPE);
    spec.set(tls_off + 1, TLS_VERSION_MAJOR);
    mask.set(tls_off, 0xff);
    mask.set(tls_off + 1, 0xff);
    assert(spec@ =~= with_values(zeros(total as nat), tls_pins(ip_ver, ihl)));
    assert(mask@ =~= with_masks(zeros(total as nat), tls_pins(ip_ver, ihl)));

    let mut label: String = String::new();
    label.append("tls-appdata-drop v");
    push_decimal(&mut label, ip_ver as u128);
    label.append(" ihl=");
    push_decimal(&mut label, ihl as u128);
    label.append(" doff=");
    push_decimal(&mut label, TCP_DOFF_PINNED as u128);
    assert(label@ =~= tls_label(ip_ver, ihl));
    Ok(create_raw_drop(port_id, &spec, &mask, 0, label))
}

/// Starts the installation of a drop for QUIC short headers in one kind of IP packet.
pub fn install_quic_short_drop_variant(port_id: PortId, ip_ver: u8, ihl: u8) -> (r: Result<
    RawDrop,
    RawDropError,
>)
    requires
        ip_ver == 4 ==> quic_len(ip_ver, ihl) <= MAX_TEMPLATE_BYTES,
    ensures
        match r {
            Ok(d) => (ip_ver == 4 || ip_ver == 6) && starts(
                d,
                port_id,
                quic_pins(ip_ver, ihl),
                quic_len(ip_ver, ihl),
                quic_label(ip_ver, ihl),
            ),
            Err(e) => ip_ver != 4 && ip_ver != 6 && e == RawDropError::UnsupportedIpVer(ip_ver),
        },
{
    let ip_hlen: usize = if ip_ver == 4 {
        ihl as usize * 4
    } else {
        40
    };
    let udp_off: usize = 14 + ip_hlen;
    let quic_off: usize = udp_off + 8;
    let total: usize = quic_off + 5;

    let mut spec: Vec<u8> = vec![0u8; total];
    let mut mask: Vec<u8> = vec![0u8; total];
    assert(spec@ =~= zeros(total as nat));
    assert(mask@ =~= zeros(total as nat));
    if ip_ver == 4 {
        fill_ipv4_l4_prefix(&mut spec, &mut mask, ihl, 0x11);
    } else if ip_ver == 6 {
        fill_ipv6_l4_prefix(&mut spec, &mut mask, 0x11);
    } else {
        return Err(RawDropError::UnsupportedIpVer(ip_ver));
    }

    // Bytes 1..=4 of the QUIC packet stay zero in spec and mask: they are the parser anchor only.
    spec.set(quic_off, 0x40);
    mask.set(quic_off, 0xc0);
    assert(spec@ =~= with_values(zeros(total as nat), quic_pins(ip_ver, ihl)));
    assert(mask@ =~= with_masks(zeros(total as nat), quic_pins(ip_ver, ihl)));

    let mut label: String = String::new();
    label.append("quic-short-drop v");
    push_decimal(&mut label, ip_ver as u128);
    label.append(" ihl=");
    push_decimal(&mut label, ihl as u128);
    label.append(" (b0-only)");
    assert(label@ =~= quic_label(ip_ver, ihl));
    Ok(create_raw_drop(port_id, &spec, &mask, 0, label))
}

/// What the installation of several raw-pattern rules is, apart from its layout in memory.
pub struct RawInstallModel {
    /// The installation of each rule.
    pub drops: Seq<RawDrop>,
    /// Which rule is being installed.
    pub at: nat,
    /// The rules that were installed.
    pub flows: Seq<u64>,
}

impl RawInstallModel {
    /// The installation after the driver answered. A rule that was refused is passed over; when no
    /// rule is left, an answer changes nothing.
    pub open spec fn step(self, ev: RawEvent) -> RawInstallModel {
        if self.at >= self.drops.len() {
            self
        } else {
            let d = self.drops[self.at as int];
            let (phase, error) = d.after(ev);
            RawInstallModel {
                drops: self.drops.update(self.at as int, RawDrop { rule: d.rule, phase, error }),
                at: if phase is Done || phase is Failed {
                    self.at + 1
                } else {
                    self.at
                },
                flows: match phase {
                    RawPhase::Done(f) => self.flows.push(f),
                    _ => self.flows,
                },
            }
        }
    }

    /// What holds of every installation.
    pub open spec fn wf(self) -> bool {
        &&& self.at <= self.drops.len()
        &&& forall|i: int| 0 <= i < self.flows.len() ==> #[trigger] self.flows[i] != 0
        &&& forall|i: int| 0 <= i < self.drops.len() ==> (#[trigger] self.drops[i]).wf()
        &&& forall|i: int|
            self.at <= i < self.drops.len() ==> {
                ||| (#[trigger] self.drops[i]).phase is Validate
                ||| self.drops[i].phase is Create
            }
    }

    /// How many answers are left at most.
    pub open spec fn left(self) -> nat {
        if self.at >= self.drops.len() {
            0
        } else {
            (2 * (self.drops.len() - self.at) - if self.drops[self.at as int].phase is Create {
                1int
            } else {
                0
            }) as nat
        }
    }
}

/// The installation of several raw-pattern rules, one after the other.
pub struct RawDropInstaller {
    drops: Vec<RawDrop>,
    at: usize,
    flows: Vec<u64>,
}

impl RawDropInstaller {
    /// What the installation is.
    pub closed spec fn view(&self) -> RawInstallModel {
        RawInstallModel { drops: self.drops@, at: self.at as nat, flows: self.flows@ }
    }

    /// The rule that is being installed, if any is left.
    pub fn current(&self) -> (r: Option<&RawDrop>)
        requires
            self@.wf(),
        ensures
            match r {
                Some(d) => self@.at < self@.drops.len() && *d == self@.drops[self@.at as int],
                None => self@.at == self@.drops.len(),
            },
    {
        if self.at < self.drops.len() {
            Some(&self.drops[self.at])
        } else {
            None
        }
    }

    /// Takes note of what the driver answered.
    pub fn step(&mut self, ev: RawEvent)
        requires
            old(self)@.wf(),
        ensures
            final(self)@.wf(),
            final(self)@ == old(self)@.step(ev),
    {
        if self.at < self.drops.len() {
            self.drops[self.at].step(ev);
            match self.drops[self.at].phase {
                RawPhase::Done(f) => {
                    self.flows.push(f);
                    self.at = self.at + 1;
                },
                RawPhase::Failed => {
                    self.at = self.at + 1;
                },
                _ => {},
            }
            assert(self@.drops =~= old(self)@.step(ev).drops);
        }
    }

    /// What became of each rule.
    pub fn outcomes(&self) -> (r: &Vec<RawDrop>)
        ensures
            r@ == self@.drops,
    {
        &self.drops
    }

    /// The rules that were installed.
    pub fn finish(self) -> (r: Vec<u64>)
        ensures
            r@ == self@.flows,
    {
        self.flows
    }
}

/// Starts the installation of drops for TLS Application-Data records over TCP with a data offset of
/// eight words, for IPv4 without options and for IPv6.
pub fn install_tls_appdata_drop(port_id: PortId) -> (r: RawDropInstaller)
    ensures
        r@.wf(),
        r@.at == 0,
        r@.flows.len() == 0,
        r@.drops.len() == 2,
        starts(r@.drops[0], port_id, tls_pins(4, 5), tls_len(4, 5), tls_label(4, 5)),
        starts(r@.drops[1], port_id, tls_pins(6, 0), tls_len(6, 0), tls_label(6, 0)),
{
    let mut drops: Vec<RawDrop> = Vec::new();
    if let Ok(d) = install_tls_appdata_drop_variant(port_id, 4, 5) {
        drops.push(d);
    }
    if let Ok(d) = install_tls_appdata_drop_variant(port_id, 6, 0) {
        drops.push(d);
    }
    RawDropInstaller { drops, at: 0, flows: Vec::new() }
}

/// Starts the installation of drops for QUIC short-header packets, for IPv4 without options and for
/// IPv6.
pub fn install_quic_short_drop(port_id: PortId) -> (r: RawDropInstaller)
    ensures
        r@.wf(),
        r@.at == 0,
        r@.flows.len() == 0,
        r@.drops.len() == 2,
        starts(r@.drops[0], port_id, quic_pins(4, 5), quic_len(4, 5), quic_label(4, 5)),
        starts(r@.drops[1], port_id, quic_pins(6, 0), quic_len(6, 0), quic_label(6, 0)),
{
    let mut drops: Vec<RawDrop> = Vec::new();
    if let Ok(d) = install_quic_short_drop_variant(port_id, 4, 5) {
        drops.push(d);
    }
    if let Ok(d) = install_quic_short_drop_variant(port_id, 6, 0) {
        drops.push(d);
    }
    RawDropInstaller { drops, at: 0, flows: Vec::new() }
}

/// Failure on a single rule skips that rule alone: the rules that were installed stay, and the
/// installation goes on with the next rule.
pub proof fn law_refused_rule_is_skipped(m: RawInstallModel, e: DriverError)
    requires
        m.wf(),
        m.at < m.drops.len(),
    ensures
        ({
            let d = m.drops[m.at as int];
            let ev = if d.phase is Validate {
                RawEvent::Invalid(e)
            } else {
                RawEvent::NotCreated(e)
            };
            let n = m.step(ev);
            &&& n.wf()
            &&& n.at == m.at + 1
            &&& n.flows == m.flows
            &&& n.drops[m.at as int].phase is Failed
            &&& forall|i: int|
                0 <= i < m.drops.len() && i != m.at ==> n.drops[i] == m.drops[i]
        }),
{
}

/// A rule is created only after it was found valid, and every answer that is waited for brings the
/// installation nearer to its end.
pub proof fn law_valid_before_created(m: RawInstallModel, ev: RawEvent)
    requires
        m.wf(),
        m.at < m.drops.len(),
    ensures
        m.step(ev).wf(),
        m.step(ev).flows.len() > m.flows.len() ==> m.drops[m.at as int].phase is Create
            && ev is Created,
        m.drops[m.at as int].phase is Validate && (ev is Valid || ev is Invalid) ==> m.step(
            ev,
        ).left() < m.left(),
        m.drops[m.at as int].phase is Create && (ev is NotCreated || (ev is Created && ev
            != RawEvent::Created(0))) ==> m.step(ev).left() < m.left(),
{
}

/// Whether a packet agrees with `spec` on the bits of `mask`.
pub open spec fn raw_matches(spec: Seq<u8>, mask: Seq<u8>, packet: Seq<u8>) -> bool {
    &&& packet.len() >= spec.len()
    &&& forall|i: int|
        0 <= i < spec.len() ==> (#[trigger] packet[i]) & mask[i] == spec[i] & mask[i]
}

/// Whether a packet agrees with what a template of a given length pins.
pub open spec fn fits(pins: Pins, len: nat, packet: Seq<u8>) -> bool {
    raw_matches(with_values(zeros(len), pins), with_masks(zeros(len), pins), packet)
}

/// Whether an Ethernet frame holds an IP packet of a version, with a header of `ihl` words where
/// the version is 4, that carries a protocol.
pub open spec fn is_ip(ip_ver: u8, ihl: u8, l4_proto: u8, packet: Seq<u8>) -> bool {
    if ip_ver == 4 {
        &&& packet[12] == 0x08 && packet[13] == 0x00
        &&& packet[14] == 64 + ihl
        &&& packet[23] == l4_proto
    } else {
        &&& packet[12] == 0x86 && packet[13] == 0xdd
        &&& packet[14] / 16 == 6
        &&& packet[20] == l4_proto
    }
}

/// The bits that the templates compare.
proof fn lemma_bits(x: u8, v: u8)
    ensures
        x & 0xff == x,
        x & 0 == 0,
        x & 0xf0 == 0x80u8 & 0xf0 <==> x / 16 == 8,
        x & 0xf0 == 0x60u8 & 0xf0 <==> x / 16 == 6,
        x & 0xc0 == 0x40u8 & 0xc0 <==> x / 64 == 1,
        v <= 15 ==> 0x40u8 | v == 64 + v,
{
    assert(x & 0xff == x && x & 0 == 0) by (bit_vector);
    assert(x & 0xf0 == 0x80u8 & 0xf0 <==> x / 16 == 8) by (bit_vector);
    assert(x & 0xf0 == 0x60u8 & 0xf0 <==> x / 16 == 6) by (bit_vector);
    assert(x & 0xc0 == 0x40u8 & 0xc0 <==> x / 64 == 1) by (bit_vector);
    assert(v <= 15 ==> 0x40u8 | v == 64 + v) by (bit_vector);
}

/// A template matches a packet exactly where the packet is long enough and agrees on what is
/// pinned.
pub proof fn law_only_pins_count(pins: Pins, len: nat, packet: Seq<u8>)
    requires
        forall|i: int| #[trigger] pins.contains_key(i) ==> 0 <= i < len,
    ensures
        fits(pins, len, packet) <==> packet.len() >= len && forall|i: int| #[trigger]
            pins.contains_key(i) ==> packet[i] & pins[i].1 == pins[i].0 & pins[i].1,
{
    let spec = with_values(zeros(len), pins);
    let mask = with_masks(zeros(len), pins);
    assert forall|i: int| 0 <= i < len && !pins.contains_key(i) && i < packet.len() implies (
    #[trigger] packet[i]) & mask[i] == spec[i] & mask[i] by {
        lemma_bits(packet[i], 0);
        lemma_bits(spec[i], 0);
    }
    if fits(pins, len, packet) {
        assert forall|i: int| #[trigger] pins.contains_key(i) implies packet[i] & pins[i].1
            == pins[i].0 & pins[i].1 by {
            assert(packet[i] & mask[i] == spec[i] & mask[i]);
        }
    }
}

/// The templates for TLS drop exactly the TLS Application-Data records (type 0x17, version-major
/// 0x03) that start a segment with a data offset of eight words.
pub proof fn law_tls_template_is_exact(ip_ver: u8, ihl: u8, packet: Seq<u8>)
    requires
        ip_ver == 4 || ip_ver == 6,
        ihl <= 15,
    ensures
        ({
            let tcp = l4_offset(ip_ver, ihl);
            fits(tls_pins(ip_ver, ihl), tls_len(ip_ver, ihl), packet) <==> {
                &&& packet.len() >= tcp + 34
                &&& is_ip(ip_ver, ihl, 6, packet)
                &&& packet[tcp + 12] / 16 == 8
                &&& packet[tcp + 32] == 0x17
                &&& packet[tcp + 33] == 0x03
            }
        }),
{
    let pins = tls_pins(ip_ver, ihl);
    let tcp = l4_offset(ip_ver, ihl);
    law_only_pins_count(pins, tls_len(ip_ver, ihl), packet);
    lemma_bits(0x17, ihl);
    lemma_bits(0x03, 0);
    lemma_bits(0x08, 0);
    lemma_bits(0x86, 0);
    lemma_bits(0xdd, 0);
    lemma_bits(0x06, 0);
    lemma_bits(0x00, 0);
    lemma_bits(0x40u8 | ihl, 0);
    assert forall|i: int| #[trigger] pins.contains_key(i) implies packet[i] & 0xff == packet[i]
        && (packet[i] & 0xf0 == 0x80u8 & 0xf0 <==> packet[i] / 16 == 8) && (packet[i] & 0xf0
        == 0x60u8 & 0xf0 <==> packet[i] / 16 == 6) by {
        lemma_bits(packet[i], 0);
    }
    assert(pins.contains_key(12) && pins.contains_key(13) && pins.contains_key(14));
    assert(pins.contains_key(tcp + 12) && pins.contains_key(tcp + 32) && pins.contains_key(
        tcp + 33,
    ));
    assert(ip_ver == 4 ==> pins.contains_key(23));
    assert(ip_ver == 6 ==> pins.contains_key(20));
}

/// The templates for QUIC drop exactly the UDP packets whose first payload byte has the form bit
/// clear and the fixed bit set, and that hold four bytes more.
pub proof fn law_quic_template_is_exact(ip_ver: u8, ihl: u8, packet: Seq<u8>)
    requires
        ip_ver == 4 || ip_ver == 6,
        ihl <= 15,
    ensures
        ({
            let udp = l4_offset(ip_ver, ihl);
            fits(quic_pins(ip_ver, ihl), quic_len(ip_ver, ihl), packet) <==> {
                &&& packet.len() >= udp + 13
                &&& is_ip(ip_ver, ihl, 17, packet)
                &&& packet[udp + 8] / 64 == 1
            }
        }),
{
    let pins = quic_pins(ip_ver, ihl);
    let udp = l4_offset(ip_ver, ihl);
    law_only_pins_count(pins, quic_len(ip_ver, ihl), packet);
    lemma_bits(0x11, ihl);
    lemma_bits(0x08, 0);
    lemma_bits(0x86, 0);
    lemma_bits(0xdd, 0);
    lemma_bits(0x00, 0);
    lemma_bits(0x40u8 | ihl, 0);
    assert forall|i: int| #[trigger] pins.contains_key(i) implies packet[i] & 0xff == packet[i]
        && (packet[i] & 0xf0 == 0x60u8 & 0xf0 <==> packet[i] / 16 == 6) && (packet[i] & 0xc0
        == 0x40u8 & 0xc0 <==> packet[i] / 64 == 1) by {
        lemma_bits(packet[i], 0);
    }
    assert(pins.contains_key(12) && pins.contains_key(13) && pins.contains_key(14));
    assert(pins.contains_key(udp + 8));
    assert(ip_ver == 4 ==> pins.contains_key(23));
    assert(ip_ver == 6 ==> pins.contains_key(20));
}

/// The hex buffer tells the bytes: two byte strings with the same buffer are equal.
pub proof fn law_hex_tells_the_bytes(a: Seq<u8>, b: Seq<u8>)
    requires
        a.len() <= MAX_TEMPLATE_BYTES,
        b.len() <= MAX_TEMPLATE_BYTES,
        hex_buffer(a) == hex_buffer(b),
    ensures
        a == b,
{
    let x = hex_buffer(a);
    let y = hex_buffer(b);
    if a.len() < b.len() {
        assert(x[2 * a.len() as int] == 0);
        assert(y[2 * a.len() as int] != 0);
    }
    if b.len() < a.len() {
        assert(y[2 * b.len() as int] == 0);
        assert(x[2 * b.len() as int] != 0);
    }
    assert forall|i: int| 0 <= i < a.len() implies a[i] == b[i] by {
        assert(x[2 * i] == y[2 * i]);
        assert(x[2 * i + 1] == y[2 * i + 1]);
        assert((2 * i + 1) / 2 == i && (2 * i) / 2 == i);
    }
    assert(a =~= b);
}

/// The value of an ASCII hex digit in small letters, below zero for anything else.
pub open spec fn digit_value(c: u8) -> int {
    if 48 <= c <= 57 {
        c - 48
    } else if 97 <= c <= 102 {
        c - 87
    } else {
        -1
    }
}

/// The first `n` bytes that a hex buffer stands for.
pub open spec fn read_hex(buffer: Seq<u8>, n: nat) -> Seq<u8> {
    Seq::new(
        n,
        |i: int| (16 * digit_value(buffer[2 * i]) + digit_value(buffer[2 * i + 1])) as u8,
    )
}

/// A hex buffer reads back as the bytes: two small hex digits for each, the high one first, and
/// behind them zeros up to 273 bytes.
pub proof fn law_hex_reads_back(bytes: Seq<u8>)
    requires
        bytes.len() <= 136,
    ensures
        hex_buffer(bytes).len() == 273,
        forall|i: int|
            0 <= i < 2 * bytes.len() ==> 0 <= digit_value(#[trigger] hex_buffer(bytes)[i]) < 16,
        forall|i: int|
            2 * bytes.len() <= i < 273 ==> #[trigger] hex_buffer(bytes)[i] == 0,
        read_hex(hex_buffer(bytes), bytes.len()) == bytes,
{
    let buffer = hex_buffer(bytes);
    assert forall|i: int| 0 <= i < bytes.len() implies read_hex(buffer, bytes.len())[i]
        == bytes[i] by {
        assert((2 * i) / 2 == i && (2 * i) % 2 == 0);
        assert((2 * i + 1) / 2 == i && (2 * i + 1) % 2 == 1);
        assert(digit_value(buffer[2 * i]) == bytes[i] as int / 16);
        assert(digit_value(buffer[2 * i + 1]) == bytes[i] as int % 16);
    }
    assert(read_hex(buffer, bytes.len()) =~= bytes);
}

/// What a raw-pattern rule compares is what was to be compared, and it drops what agrees: on the
/// received packets of the port, in the first table and ahead of other rules.
pub proof fn law_raw_rule_says_what_it_drops(
    d: RawDrop,
    port: PortId,
    pins: Pins,
    len: nat,
    label: Seq<char>,
    packet: Seq<u8>,
)
    requires
        starts(d, port, pins, len, label),
        len <= 136,
    ensures
        d.rule.port == port,
        d.rule.length == 2 * len,
        raw_matches(
            read_hex(d.rule.spec_hex@, len),
            read_hex(d.rule.mask_hex@, len),
            packet,
        ) <==> fits(pins, len, packet),
        d.rule.actions@.len() == 2,
        d.rule.actions@[0] == RuleAction::Drop,
        d.rule.actions@[1] == RuleAction::End,
        d.rule.attr.ingress,
        d.rule.attr.group == 0,
        d.rule.attr.priority == 0,
        d.rule.label@ == label,
{
    law_hex_reads_back(with_values(zeros(len), pins));
    law_hex_reads_back(with_masks(zeros(len), pins));
}

/// The rule for TLS drops a packet exactly if it is an Ethernet frame with an IPv4 header of `ihl`
/// words, or with an IPv6 header, that carries TCP with a header of eight words, and the payload
/// begins with 0x17 0x03.
#[verifier::spinoff_prover]
#[verifier::rlimit(50)]
pub proof fn law_tls_rule_drops_application_data(
    d: RawDrop,
    port: PortId,
    ip_ver: u8,
    ihl: u8,
    packet: Seq<u8>,
)
    requires
        ip_ver == 4 || ip_ver == 6,
        ihl <= 15,
        starts(
            d,
            port,
            tls_pins(ip_ver, ihl),
            tls_len(ip_ver, ihl),
            tls_label(ip_ver, ihl),
        ),
    ensures
        ({
            let n = (d.rule.length / 2) as nat;
            let drops = raw_matches(
                read_hex(d.rule.spec_hex@, n),
                read_hex(d.rule.mask_hex@, n),
                packet,
            );
            let tcp = if ip_ver == 4 {
                14 + 4 * ihl
            } else {
                54
            };
            drops <==> {
                &&& packet.len() >= tcp + 34
                &&& ip_ver == 4 ==> packet[12] == 0x08 && packet[13] == 0x00 && packet[14] == 0x40
                    + ihl && packet[23] == 6
                &&& ip_ver == 6 ==> packet[12] == 0x86 && packet[13] == 0xdd && packet[14] / 16 == 6
                    && packet[20] == 6
                &&& packet[tcp + 12] / 16 == 8
                &&& packet[tcp + 32] == 0x17
                &&& packet[tcp + 33] == 0x03
            }
        }),
        d.rule.port == port,
        d.rule.actions@[0] == RuleAction::Drop,
{
    law_raw_rule_says_what_it_drops(
        d,
        port,
        tls_pins(ip_ver, ihl),
        tls_len(ip_ver, ihl),
        tls_label(ip_ver, ihl),
        packet,
    );
    law_tls_template_is_exact(ip_ver, ihl, packet);
}

/// The rule for QUIC drops a packet exactly if it is an Ethernet frame with an IPv4 header of `ihl`
/// words, or with an IPv6 header, that carries UDP with at least five bytes of payload, and the
/// first of them has the form bit clear and the fixed bit set.
#[verifier::spinoff_prover]
#[verifier::rlimit(50)]
pub proof fn law_quic_rule_drops_short_headers(
    d: RawDrop,
    port: PortId,
    ip_ver: u8,
    ihl: u8,
    packet: Seq<u8>,
)
    requires
        ip_ver == 4 || ip_ver == 6,
        ihl <= 15,
        starts(
            d,
            port,
            quic_pins(ip_ver, ihl),
            quic_len(ip_ver, ihl),
            quic_label(ip_ver, ihl),
        ),
    ensures
        ({
            let n = (d.rule.length / 2) as nat;
            let drops = raw_matches(
                read_hex(d.rule.spec_hex@, n),
                read_hex(d.rule.mask_hex@, n),
                packet,
            );
            let udp = if ip_ver == 4 {
                14 + 4 * ihl
            } else {
                54
            };
            drops <==> {
                &&& packet.len() >= udp + 8 + 5
                &&& ip_ver == 4 ==> packet[12] == 0x08 && packet[13] == 0x00 && packet[14] == 0x40
                    + ihl && packet[23] == 17
                &&& ip_ver == 6 ==> packet[12] == 0x86 && packet[13] == 0xdd && packet[14] / 16 == 6
                    && packet[20] == 17
                &&& packet[udp + 8] / 128 == 0
                &&& (packet[udp + 8] / 64) % 2 == 1
            }
        }),
        d.rule.port == port,
        d.rule.actions@[0] == RuleAction::Drop,
{
    law_raw_rule_says_what_it_drops(
        d,
        port,
        quic_pins(ip_ver, ihl),
        quic_len(ip_ver, ihl),
        quic_label(ip_ver, ihl),
        packet,
    );
    law_quic_template_is_exact(ip_ver, ihl, packet);
}

/// How a raw-pattern rule gets installed: it is validated, then created, and then its number is
/// among those of the installed rules, behind the ones before. A refusal is told with the name of
/// the rule, its port and what the driver said, and the installation turns to the next rule.
pub proof fn law_raw_rules_are_installed_in_turn(
    m: RawInstallModel,
    f: u64,
    e: DriverError,
)
    requires
        m.wf(),
        m.at < m.drops.len(),
        m.drops[m.at as int].phase is Validate,
        f != 0,
    ensures
        ({
            let d = m.drops[m.at as int];
            let i = m.at as int;
            let valid = m.step(RawEvent::Valid);
            let made = valid.step(RawEvent::Created(f));
            let bad = m.step(RawEvent::Invalid(e));
            let refused = valid.step(RawEvent::NotCreated(e));
            &&& valid.at == m.at && valid.flows == m.flows && valid.drops[i].phase is Create
            &&& made.at == m.at + 1 && made.flows == m.flows.push(f) && made.drops[i].error is None
            &&& bad.at == m.at + 1 && bad.flows == m.flows && bad.drops[i].error == Some(
                RawDropError::Validate(d.rule.label, d.rule.port, e),
            )
            &&& refused.at == m.at + 1 && refused.flows == m.flows && refused.drops[i].error == Some(
                RawDropError::Create(d.rule.label, d.rule.port, e),
            )
        }),
{
}

/// The names of the rules and the messages: a name tells the version and the header length that a
/// rule is for, and a message tells the step that failed, the rule, the port, and the type, the
/// cause and the words of the driver.
pub proof fn law_names_and_messages(
    label: String,
    port: PortId,
    e: DriverError,
    ip_ver: u8,
    ihl: u8,
    v: u8,
)
    ensures
        tls_label(ip_ver, ihl) =~= "tls-appdata-drop v"@ + decimal(ip_ver as nat) + " ihl="@
            + decimal(ihl as nat) + " doff="@ + decimal(8),
        quic_label(ip_ver, ihl) =~= "quic-short-drop v"@ + decimal(ip_ver as nat) + " ihl="@
            + decimal(ihl as nat) + " (b0-only)"@,
        RawDropError::UnsupportedIpVer(v).text() =~= "unsupported ip_ver "@ + decimal(v as nat),
        ({
            let words = match e.message {
                Some(m) => m@,
                None => "(none)"@,
            };
            let rest = label@ + " on port "@ + decimal(port.0 as nat) + " (type="@ + decimal(
                e.kind as nat,
            ) + ", cause=0x"@ + hex(e.cause as nat) + "): "@ + words;
            &&& RawDropError::Validate(label, port, e).text() =~= "rte_flow_validate failed for "@
                + rest
            &&& RawDropError::Create(label, port, e).text() =~= "rte_flow_create failed for "@ + rest
        }),
{
}

} // verus!
