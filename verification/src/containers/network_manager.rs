//! Container networking: the network recorded for each container, the
//! addresses and hardware addresses it is given, the shell commands that
//! set networks up and tear them down, and the traffic counters read from
//! `/proc/net/dev`. Running the commands and reading files is left to the
//! caller. IPv4 addresses are 32-bit numbers, most significant octet first.
use vstd::prelude::*;
use crate::containers::{
    ContainerError, NetworkConfig, NetworkMode, NetworkModeView, PortMapping, copy_mode, copy_ports, port_views,
};
use crate::containers::security::{copy_strings, texts};
use crate::encoding::{
    digits_value, is_digit, lines, lines_of, lowercase_text, parse_u64, parse_u64_text, pieces, pieces_from, split_char,
    split_whitespace, to_lowercase, words,
};
use crate::ids::{lower_hex_fixed, now_millis};
use crate::keyed::{Named, find_name, name_map, remove_named, str_equal, unique_names, upsert_named};
use crate::text::{decimal_text, digit_char, has_prefix, lower_hex_char, push_char, push_decimal, push_text, starts_with, string_of};

verus! {

/// The address with octets `a.b.c.d`.
pub open spec fn ipv4_of(a: nat, b: nat, c: nat, d: nat) -> u32 {
    (a * 16777216 + b * 65536 + c * 256 + d) as u32
}

/// The dotted decimal text of an address.
pub open spec fn ipv4_text(ip: u32) -> Seq<char> {
    decimal_text((ip / 16777216) as nat) + "."@ + decimal_text(((ip / 65536) % 256) as nat) + "."@
        + decimal_text(((ip / 256) % 256) as nat) + "."@ + decimal_text((ip % 256) as nat)
}

/// The dotted decimal text of an address.
pub fn ipv4_string(ip: u32) -> (s: String)
    ensures
        s@ == ipv4_text(ip),
{
    let mut s = String::new();
    push_decimal(&mut s, (ip / 16777216) as u64);
    push_text(&mut s, ".");
    push_decimal(&mut s, ((ip / 65536) % 256) as u64);
    push_text(&mut s, ".");
    push_decimal(&mut s, ((ip / 256) % 256) as u64);
    push_text(&mut s, ".");
    push_decimal(&mut s, (ip % 256) as u64);
    s
}

/// The value of one octet of a dotted address, as the standard library
/// reads it: one to three decimal digits, no leading zero unless the octet
/// is `0`, and at most 255.
pub open spec fn octet_value(p: Seq<char>) -> Option<nat> {
    if 1 <= p.len() <= 3 && (forall|i: int| 0 <= i < p.len() ==> is_digit(#[trigger] p[i])) && !(p.len() > 1
        && p[0] == '0') && digits_value(p) <= 255 {
        Some(digits_value(p))
    } else {
        None
    }
}

/// The address a dotted text denotes, as `Ipv4Addr`'s parser reads it:
/// exactly four octets separated by dots.
pub open spec fn parse_ipv4_text(s: Seq<char>) -> Option<u32> {
    let ps = pieces(s, '.');
    if ps.len() == 4 && octet_value(ps[0]) is Some && octet_value(ps[1]) is Some && octet_value(ps[2]) is Some
        && octet_value(ps[3]) is Some {
        Some(
            ipv4_of(
                octet_value(ps[0]).unwrap(),
                octet_value(ps[1]).unwrap(),
                octet_value(ps[2]).unwrap(),
                octet_value(ps[3]).unwrap(),
            ),
        )
    } else {
        None
    }
}

/// The value of one octet (see `octet_value`).
fn parse_octet(p: &str) -> (r: Option<u32>)
    ensures
        match octet_value(p@) {
            Some(v) => r == Some(v as u32),
            None => r is None,
        },
{
    let n = p.unicode_len();
    if n < 1 || n > 3 {
        return None;
    }
    let mut v: u32 = 0;
    let mut i: usize = 0;
    while i < n
        invariant
            n == p@.len(),
            1 <= n <= 3,
            i <= n,
            forall|j: int| 0 <= j < i ==> is_digit(#[trigger] p@[j]),
            v == digits_value(p@.take(i as int)),
            v < 1000,
            i == 0 ==> v == 0,
            i == 1 ==> v < 10,
            i == 2 ==> v < 100,
        decreases n - i,
    {
        let c = p.get_char(i);
        let d = c as u32;
        if d < 48 || d > 57 {
            return None;
        }
        proof {
            assert(p@.take(i + 1).drop_last() =~= p@.take(i as int));
        }
        v = v * 10 + (d - 48);
        i = i + 1;
    }
    proof {
        assert(p@.take(n as int) =~= p@);
    }
    if n > 1 && p.get_char(0) == '0' {
        return None;
    }
    if v > 255 {
        return None;
    }
    Some(v)
}

/// Reads a dotted address (see `parse_ipv4_text`).
pub fn parse_ipv4(s: &str) -> (r: Option<u32>)
    ensures
        r == parse_ipv4_text(s@),
{
    let ps = split_char(s, '.');
    if ps.len() != 4 {
        return None;
    }
    let a = match parse_octet(ps[0].as_str()) {
        Some(a) => a,
        None => {
            return None;
        },
    };
    let b = match parse_octet(ps[1].as_str()) {
        Some(b) => b,
        None => {
            return None;
        },
    };
    let c = match parse_octet(ps[2].as_str()) {
        Some(c) => c,
        None => {
            return None;
        },
    };
    let d = match parse_octet(ps[3].as_str()) {
        Some(d) => d,
        None => {
            return None;
        },
    };
    Some(a * 16777216 + b * 65536 + c * 256 + d)
}

proof fn lemma_decimal_digits(n: nat)
    ensures
        decimal_text(n).len() >= 1,
        forall|i: int| 0 <= i < decimal_text(n).len() ==> is_digit(#[trigger] decimal_text(n)[i]),
        digits_value(decimal_text(n)) == n,
        n >= 10 ==> decimal_text(n)[0] != '0',
        n < 10 ==> decimal_text(n).len() == 1,
        n < 100 ==> decimal_text(n).len() <= 2,
        n < 1000 ==> decimal_text(n).len() <= 3,
    decreases n,
{
    let t = decimal_text(n);
    if n < 10 {
        assert(t == seq![digit_char(n as int)]);
        assert(t.drop_last() =~= Seq::<char>::empty());
        assert(digit_char(n as int) as u32 == n + 48);
        assert(digits_value(t) == digits_value(t.drop_last()) * 10 + ((t.last() as u32) - 48) as nat);
    } else {
        lemma_decimal_digits(n / 10);
        let h = decimal_text(n / 10);
        assert(t == h.push(digit_char((n % 10) as int)));
        assert(t.drop_last() =~= h);
        assert(digit_char((n % 10) as int) as u32 == n % 10 + 48);
        assert(digits_value(t) == digits_value(h) * 10 + ((t.last() as u32) - 48) as nat);
        assert(n == (n / 10) * 10 + n % 10);
        assert forall|i: int| 0 <= i < t.len() implies is_digit(#[trigger] t[i]) by {
            if i < h.len() {
                assert(t[i] == h[i]);
            }
        }
        assert(t[0] == h[0]);
        if n / 10 < 10 {
            assert(h == seq![digit_char((n / 10) as int)]);
        }
    }
}

proof fn lemma_pieces_no_sep(x: Seq<char>, sep: char, cur: Seq<char>, rest: Seq<char>)
    requires
        forall|i: int| 0 <= i < x.len() ==> #[trigger] x[i] != sep,
    ensures
        pieces_from(x + seq![sep] + rest, sep, cur) == seq![cur + x] + pieces_from(rest, sep, Seq::empty()),
        pieces_from(x, sep, cur) == seq![cur + x],
    decreases x.len(),
{
    if x.len() == 0 {
        assert(x + seq![sep] + rest =~= seq![sep] + rest);
        assert((seq![sep] + rest).drop_first() =~= rest);
        assert(cur + x =~= cur);
    } else {
        let y = x.drop_first();
        assert forall|i: int| 0 <= i < y.len() implies #[trigger] y[i] != sep by {
            assert(y[i] == x[i + 1]);
        }
        lemma_pieces_no_sep(y, sep, cur.push(x[0]), rest);
        assert((x + seq![sep] + rest).drop_first() =~= y + seq![sep] + rest);
        assert((x + seq![sep] + rest)[0] == x[0]);
        assert(cur.push(x[0]) + y =~= cur + x);
    }
}

proof fn lemma_octet_text(n: nat)
    requires
        n <= 255,
    ensures
        octet_value(decimal_text(n)) == Some(n),
        forall|i: int| 0 <= i < decimal_text(n).len() ==> #[trigger] decimal_text(n)[i] != '.',
{
    lemma_decimal_digits(n);
    assert forall|i: int| 0 <= i < decimal_text(n).len() implies #[trigger] decimal_text(n)[i] != '.' by {
        assert(is_digit(decimal_text(n)[i]));
    }
}

/// Reading back the dotted text of an address gives the address: what
/// `ipv4_string` writes, `parse_ipv4` reads as the same address.
pub proof fn lemma_ipv4_round_trip(ip: u32)
    ensures
        parse_ipv4_text(ipv4_text(ip)) == Some(ip),
{
    let a = (ip / 16777216) as nat;
    let b = ((ip / 65536) % 256) as nat;
    let c = ((ip / 256) % 256) as nat;
    let d = (ip % 256) as nat;
    assert(a <= 255);
    lemma_octet_text(a);
    lemma_octet_text(b);
    lemma_octet_text(c);
    lemma_octet_text(d);
    let ta = decimal_text(a);
    let tb = decimal_text(b);
    let tc = decimal_text(c);
    let td = decimal_text(d);
    let e = Seq::<char>::empty();
    assert(ipv4_text(ip) =~= ta + seq!['.'] + (tb + seq!['.'] + (tc + seq!['.'] + td))) by {
        reveal_strlit(".");
    }
    lemma_pieces_no_sep(ta, '.', e, tb + seq!['.'] + (tc + seq!['.'] + td));
    lemma_pieces_no_sep(tb, '.', e, tc + seq!['.'] + td);
    lemma_pieces_no_sep(tc, '.', e, td);
    lemma_pieces_no_sep(td, '.', e, e);
    assert(e + ta =~= ta);
    assert(e + tb =~= tb);
    assert(e + tc =~= tc);
    assert(e + td =~= td);
    let ps = pieces(ipv4_text(ip), '.');
    assert(ps =~= seq![ta, tb, tc, td]);
    assert(a * 16777216 + b * 65536 + c * 256 + d == ip) by (nonlinear_arith)
        requires
            a == ip / 16777216,
            b == (ip / 65536) % 256,
            c == (ip / 256) % 256,
            d == ip % 256,
    ;
}

/// What `std::collections::hash_map::DefaultHasher`, made with `new`, gives
/// for a text.
pub uninterp spec fn str_hash_value(s: Seq<char>) -> u64;

/// Hashes a text with a `DefaultHasher` made by `new`. Claimed: the hash
/// is the name `str_hash_value` of the text; the standard library
/// documents that all hashers made by `new` are the same, so equal texts
/// hash alike. The hash itself is not spelled out.
#[verifier::external_body]
fn default_str_hash(s: &str) -> (h: u64)
    ensures
        h == str_hash_value(s@),
{
    let mut hasher = std::collections::hash_map::DefaultHasher::new();
    std::hash::Hash::hash(s, &mut hasher);
    std::hash::Hasher::finish(&hasher)
}

/// The address given to container `container_id`: `172.17.x.y` where
/// `x.y` is the hash of its name modulo 65000, plus two.
pub open spec fn allocated_ip(container_id: Seq<char>) -> u32 {
    let offset = (str_hash_value(container_id) % 65000) + 2;
    ipv4_of(172, 17, (offset / 256) as nat, (offset % 256) as nat)
}

/// The hardware address of container `container_id`: `02` and the five
/// octets of its hash from bit 40 down to bit 8, in two lower-case hex
/// digits each, joined by colons.
pub open spec fn mac_text(container_id: Seq<char>) -> Seq<char> {
    let h = str_hash_value(container_id) as nat;
    "02:"@ + lower_hex_fixed((h / 0x100_0000_0000) % 256, 2) + ":"@ + lower_hex_fixed((h / 0x1_0000_0000) % 256, 2)
        + ":"@ + lower_hex_fixed((h / 0x100_0000) % 256, 2) + ":"@ + lower_hex_fixed((h / 0x1_0000) % 256, 2) + ":"@
        + lower_hex_fixed((h / 0x100) % 256, 2)
}

/// Appends the two lower-case hex digits of byte `b`.
fn push_hex_byte(s: &mut String, b: u64)
    requires
        b < 256,
    ensures
        final(s)@ == old(s)@ + lower_hex_fixed(b as nat, 2),
{
    push_char(s, lower_hex_char(b / 16));
    push_char(s, lower_hex_char(b % 16));
    proof {
        let n = b as nat;
        assert(lower_hex_fixed(n / 16, 1) == lower_hex_fixed(n / 16 / 16, 0).push(
            crate::ids::lower_hex_digit(((n / 16) % 16) as int),
        ));
        assert(lower_hex_fixed(n, 2) == lower_hex_fixed(n / 16, 1).push(crate::ids::lower_hex_digit((n % 16) as int)));
        assert((n / 16) % 16 == n / 16);
        assert(lower_hex_fixed(n / 16 / 16, 0) =~= Seq::<char>::empty());
    }
    assert(final(s)@ =~= old(s)@ + lower_hex_fixed(b as nat, 2));
}

/// A shell command to run, and the network error to report when it fails
/// (none when a failure is only worth a warning).
pub struct NetworkCommand {
    pub command: String,
    pub failure: Option<String>,
}

/// Whether `c` runs `command` and fails with `failure` (if any).
pub open spec fn command_is(c: NetworkCommand, command: Seq<char>, failure: Option<Seq<char>>) -> bool {
    &&& c.command@ == command
    &&& match failure {
        Some(f) => c.failure matches Some(x) && x@ == f,
        None => c.failure is None,
    }
}

/// A command from its parts.
fn command(text: String, failure: Option<String>) -> (c: NetworkCommand)
    ensures
        c.command == text,
        c.failure == failure,
{
    NetworkCommand { command: text, failure }
}

/// The network of a container.
pub struct ContainerNetwork {
    pub id: String,
    pub mode: NetworkMode,
    pub interface_name: String,
    pub ip_address: u32,
    pub mac_address: String,
    pub dns_servers: Vec<String>,
    pub port_mappings: Vec<PortMapping>,
    pub created_at: u64,
}

impl Named for ContainerNetwork {
    open spec fn name_of(&self) -> Seq<char> {
        self.id@
    }

    fn name(&self) -> (k: &str) {
        self.id.as_str()
    }
}

/// Traffic counters of an interface.
#[derive(Clone, Copy, PartialEq, Eq, Debug, Structural)]
pub struct NetworkStats {
    pub rx_bytes: u64,
    pub tx_bytes: u64,
    pub rx_packets: u64,
    pub tx_packets: u64,
    pub rx_errors: u64,
    pub tx_errors: u64,
}

impl NetworkStats {
    /// All counters at zero.
    pub fn default() -> (s: Self)
        ensures
            s == (NetworkStats {
                rx_bytes: 0,
                tx_bytes: 0,
                rx_packets: 0,
                tx_packets: 0,
                rx_errors: 0,
                tx_errors: 0,
            }),
    {
        NetworkStats { rx_bytes: 0, tx_bytes: 0, rx_packets: 0, tx_packets: 0, rx_errors: 0, tx_errors: 0 }
    }
}

/// The network of a container as reported, with its address in text.
pub struct NetworkInfo {
    pub container_id: String,
    pub network_mode: NetworkMode,
    pub interface_name: String,
    pub ip_address: String,
    pub mac_address: String,
    pub dns_servers: Vec<String>,
    pub port_mappings: Vec<PortMapping>,
    pub stats: NetworkStats,
    pub created_at: u64,
}

/// Which traffic a group of containers may send and receive.
pub struct NetworkPolicy {
    pub name: String,
    pub ingress: Vec<IngressRule>,
    pub egress: Vec<EgressRule>,
}

/// Traffic allowed in.
pub struct IngressRule {
    pub from: Vec<String>,
    pub ports: Vec<u16>,
    pub protocols: Vec<String>,
}

/// Traffic allowed out.
pub struct EgressRule {
    pub to: Vec<String>,
    pub ports: Vec<u16>,
    pub protocols: Vec<String>,
}

/// A counter field of `/proc/net/dev`: its number, or zero when it does
/// not parse.
pub open spec fn counter_value(field: Seq<char>) -> u64 {
    match parse_u64_text(field) {
        Ok(v) => v as u64,
        Err(_) => 0,
    }
}

/// The counters of interface `interface_name` in the lines of
/// `/proc/net/dev`: the first line that starts with the name gives the
/// received bytes and packets (fields 2 and 3) and the sent bytes and
/// packets (fields 10 and 11) when it has at least 16 fields; otherwise,
/// and without such a line, all are zero.
pub open spec fn dev_stats(ls: Seq<Seq<char>>, interface_name: Seq<char>) -> NetworkStats
    decreases ls.len(),
{
    if ls.len() == 0 {
        NetworkStats { rx_bytes: 0, tx_bytes: 0, rx_packets: 0, tx_packets: 0, rx_errors: 0, tx_errors: 0 }
    } else if has_prefix(ls[0], interface_name) {
        let parts = words(ls[0]);
        if parts.len() >= 16 {
            NetworkStats {
                rx_bytes: counter_value(parts[1]),
                tx_bytes: counter_value(parts[9]),
                rx_packets: counter_value(parts[2]),
                tx_packets: counter_value(parts[10]),
                rx_errors: 0,
                tx_errors: 0,
            }
        } else {
            NetworkStats { rx_bytes: 0, tx_bytes: 0, rx_packets: 0, tx_packets: 0, rx_errors: 0, tx_errors: 0 }
        }
    } else {
        dev_stats(ls.drop_first(), interface_name)
    }
}

/// A counter field (see `counter_value`).
fn counter(field: &str) -> (v: u64)
    ensures
        v == counter_value(field@),
{
    match parse_u64(field) {
        Ok(v) => v,
        Err(_) => 0,
    }
}

/// The counters of interface `interface_name` in the text of
/// `/proc/net/dev` (see `dev_stats`).
pub fn network_stats_from_dev(content: &str, interface_name: &str) -> (s: NetworkStats)
    ensures
        s == dev_stats(lines_of(content@), interface_name@),
{
    let ls = lines(content);
    let ghost all = lines_of(content@);
    let mut i: usize = 0;
    assert(all.skip(0) =~= all);
    while i < ls.len()
        invariant
            all == lines_of(content@),
            ls@.len() == all.len(),
            forall|j: int| 0 <= j < ls@.len() ==> #[trigger] ls@[j]@ == all[j],
            i <= ls@.len(),
            dev_stats(all, interface_name@) == dev_stats(all.skip(i as int), interface_name@),
        decreases ls@.len() - i,
    {
        let line = ls[i].as_str();
        proof {
            assert(all.skip(i as int)[0] == line@);
            assert(all.skip(i as int).drop_first() =~= all.skip(i + 1));
        }
        if starts_with(line, interface_name) {
            let parts = split_whitespace(line);
            if parts.len() >= 16 {
                return NetworkStats {
                    rx_bytes: counter(parts[1].as_str()),
                    tx_bytes: counter(parts[9].as_str()),
                    rx_packets: counter(parts[2].as_str()),
                    tx_packets: counter(parts[10].as_str()),
                    rx_errors: 0,
                    tx_errors: 0,
                };
            }
            return NetworkStats::default();
        }
        i = i + 1;
    }
    NetworkStats::default()
}

/// The iptables flag for a protocol: `-u` for UDP in any case, else `-t`.
pub open spec fn protocol_flag(protocol: Seq<char>) -> Seq<char> {
    if lowercase_text(protocol) == "udp"@ {
        "-u"@
    } else {
        "-t"@
    }
}

/// The iptables flag for a protocol (see `protocol_flag`).
fn protocol_flag_of(protocol: &str) -> (s: &'static str)
    ensures
        s@ == protocol_flag(protocol@),
{
    let lower = to_lowercase(protocol);
    if str_equal(lower.as_str(), "udp") {
        "-u"
    } else {
        "-t"
    }
}

/// The networks of containers on bridge `bridge_name`.
pub struct NetworkManager {
    pub bridge_name: String,
    pub network_range: u32,
    pub dns_servers: Vec<u32>,
    pub active_networks: Vec<ContainerNetwork>,
}

impl NetworkManager {
    /// Bridge `multios-br0` over `172.17.0.0`, Google's DNS servers, and no
    /// container networks.
    pub fn new() -> (m: Self)
        ensures
            m.wf(),
            m.bridge_name@ == "multios-br0"@,
            m.network_range == ipv4_of(172, 17, 0, 0),
            m.dns_servers@ == seq![ipv4_of(8, 8, 8, 8), ipv4_of(8, 8, 4, 4)],
            m.networks() == Map::<Seq<char>, ContainerNetwork>::empty(),
    {
        let m = NetworkManager {
            bridge_name: string_of("multios-br0"),
            network_range: 2886795264,
            dns_servers: vec![134744072, 134743044],
            active_networks: Vec::new(),
        };
        assert(m.networks() =~= Map::<Seq<char>, ContainerNetwork>::empty());
        assert(m.dns_servers@ =~= seq![ipv4_of(8, 8, 8, 8), ipv4_of(8, 8, 4, 4)]);
        m
    }

    /// The invariant: one network per container.
    pub open spec fn wf(&self) -> bool {
        unique_names(self.active_networks@)
    }

    /// The container networks, by container identifier.
    pub open spec fn networks(&self) -> Map<Seq<char>, ContainerNetwork> {
        name_map(self.active_networks@)
    }

    /// The commands that set up the bridge: create it when it is not there
    /// yet, bring it up, give it `172.17.0.1/16`, enable forwarding, and
    /// masquerade outbound traffic. Whether the bridge is there is what
    /// running `bridge_exists_command` found.
    pub fn initialization_steps(&self, bridge_present: bool) -> (v: Vec<NetworkCommand>)
        ensures
            v@.len() == if bridge_present {
                4nat
            } else {
                5nat
            },
            ({
                let b = self.bridge_name@;
                let o: int = if bridge_present {
                    0
                } else {
                    1
                };
                &&& !bridge_present ==> command_is(
                    v@[0],
                    "ip link add "@ + b + " type bridge\n"@,
                    Some("Failed to create bridge "@ + b),
                )
                &&& command_is(v@[o], "ip link set "@ + b + " up\n"@, None)
                &&& command_is(
                    v@[o + 1],
                    "ip addr add 172.17.0.1/16 dev "@ + b + "\n"@,
                    Some("Failed to configure bridge "@ + b),
                )
                &&& command_is(
                    v@[o + 2],
                    "echo 1 > /proc/sys/net/ipv4/ip_forward\n"@,
                    Some("Failed to enable IP forwarding"@),
                )
                &&& command_is(
                    v@[o + 3],
                    "iptables -t nat -A POSTROUTING -s 172.17.0.0/16 ! -o multios-br0 -j MASQUERADE\n"@,
                    None,
                )
            }),
    {
        let b = self.bridge_name.as_str();
        let mut v: Vec<NetworkCommand> = Vec::new();
        if !bridge_present {
            let mut c = string_of("ip link add ");
            push_text(&mut c, b);
            push_text(&mut c, " type bridge\n");
            let mut f = string_of("Failed to create bridge ");
            push_text(&mut f, b);
            v.push(command(c, Some(f)));
        }
        let mut up = string_of("ip link set ");
        push_text(&mut up, b);
        push_text(&mut up, " up\n");
        v.push(command(up, None));
        let mut addr = string_of("ip addr add 172.17.0.1/16 dev ");
        push_text(&mut addr, b);
        push_text(&mut addr, "\n");
        let mut f = string_of("Failed to configure bridge ");
        push_text(&mut f, b);
        v.push(command(addr, Some(f)));
        v.push(
            command(
                string_of("echo 1 > /proc/sys/net/ipv4/ip_forward\n"),
                Some(string_of("Failed to enable IP forwarding")),
            ),
        );
        v.push(
            command(string_of("iptables -t nat -A POSTROUTING -s 172.17.0.0/16 ! -o multios-br0 -j MASQUERADE\n"), None),
        );
        v
    }

    /// The command that tells whether the bridge exists: it succeeds when
    /// it does.
    pub fn bridge_exists_command(&self) -> (c: String)
        ensures
            c@ == "ip link show "@ + self.bridge_name@ + " 2>/dev/null | grep -q "@ + self.bridge_name@ + "\0"@,
    {
        let mut c = string_of("ip link show ");
        push_text(&mut c, self.bridge_name.as_str());
        push_text(&mut c, " 2>/dev/null | grep -q ");
        push_text(&mut c, self.bridge_name.as_str());
        push_text(&mut c, "\0");
        c
    }

    /// The address given to container `container_id` (see
    /// `allocated_ip`).
    pub fn allocate_ip_address(&self, container_id: &str) -> (ip: u32)
        ensures
            ip == allocated_ip(container_id@),
    {
        let hash = default_str_hash(container_id);
        let offset = hash % 65000 + 2;
        172 * 16777216 + 17 * 65536 + (offset / 256) as u32 * 256 + (offset % 256) as u32
    }

    /// The hardware address of container `container_id` (see `mac_text`).
    pub fn generate_mac_address(&self, container_id: &str) -> (s: String)
        ensures
            s@ == mac_text(container_id@),
    {
        let hash = default_str_hash(container_id);
        let mut s = string_of("02:");
        push_hex_byte(&mut s, (hash / 0x100_0000_0000) % 256);
        push_text(&mut s, ":");
        push_hex_byte(&mut s, (hash / 0x1_0000_0000) % 256);
        push_text(&mut s, ":");
        push_hex_byte(&mut s, (hash / 0x100_0000) % 256);
        push_text(&mut s, ":");
        push_hex_byte(&mut s, (hash / 0x1_0000) % 256);
        push_text(&mut s, ":");
        push_hex_byte(&mut s, (hash / 0x100) % 256);
        s
    }

    /// The commands that give container `container_id` its bridged
    /// interface `veth_<id>` with address `ip`: create the pair, bring it
    /// up, address it in a /24, and attach it to the bridge.
    pub fn bridge_interface_steps(&self, container_id: &str, ip: u32) -> (v: Vec<NetworkCommand>)
        ensures
            v@.len() == 4,
            ({
                let veth = "veth_"@ + container_id@;
                &&& command_is(
                    v@[0],
                    "ip link add "@ + veth + " type veth peer name "@ + veth + "\n"@,
                    Some("Failed to create veth pair "@ + veth),
                )
                &&& command_is(v@[1], "ip link set "@ + veth + " up\n"@, None)
                &&& command_is(
                    v@[2],
                    "ip addr add "@ + ipv4_text(ip) + "/24 dev "@ + veth + "\n"@,
                    Some("Failed to configure interface "@ + veth),
                )
                &&& command_is(
                    v@[3],
                    "ip link set "@ + veth + " master "@ + self.bridge_name@ + "\n"@,
                    Some("Failed to add interface to bridge: "@ + veth + " -> "@ + self.bridge_name@),
                )
            }),
    {
        let mut veth = string_of("veth_");
        push_text(&mut veth, container_id);
        let veth = veth.as_str();
        let mut v: Vec<NetworkCommand> = Vec::new();
        let mut c = string_of("ip link add ");
        push_text(&mut c, veth);
        push_text(&mut c, " type veth peer name ");
        push_text(&mut c, veth);
        push_text(&mut c, "\n");
        let mut f = string_of("Failed to create veth pair ");
        push_text(&mut f, veth);
        v.push(command(c, Some(f)));
        let mut up = string_of("ip link set ");
        push_text(&mut up, veth);
        push_text(&mut up, " up\n");
        v.push(command(up, None));
        let mut addr = string_of("ip addr add ");
        push_text(&mut addr, ipv4_string(ip).as_str());
        push_text(&mut addr, "/24 dev ");
        push_text(&mut addr, veth);
        push_text(&mut addr, "\n");
        let mut f2 = string_of("Failed to configure interface ");
        push_text(&mut f2, veth);
        v.push(command(addr, Some(f2)));
        let mut attach = string_of("ip link set ");
        push_text(&mut attach, veth);
        push_text(&mut attach, " master ");
        push_text(&mut attach, self.bridge_name.as_str());
        push_text(&mut attach, "\n");
        let mut f3 = string_of("Failed to add interface to bridge: ");
        push_text(&mut f3, veth);
        push_text(&mut f3, " -> ");
        push_text(&mut f3, self.bridge_name.as_str());
        v.push(command(attach, Some(f3)));
        v
    }

    /// The command that forwards host port `host_port` of `port_mapping`
    /// to container `container_id` at the address its recorded network
    /// has; a failure is only a warning. Not found when the container has
    /// no network recorded.
    pub fn port_forward_step(&self, container_id: &str, port_mapping: &PortMapping) -> (r: Result<
        NetworkCommand,
        ContainerError,
    >)
        requires
            self.wf(),
        ensures
            !self.networks().contains_key(container_id@) ==> (r matches Err(ContainerError::NotFound(m)) && m@
                == "Container "@ + container_id@ + " network not found"@),
            self.networks().contains_key(container_id@) ==> (r matches Ok(c) && command_is(
                c,
                "iptables -t nat -A PREROUTING "@ + protocol_flag(port_mapping.protocol@) + " -p "@
                    + port_mapping.protocol@ + " --dport "@ + decimal_text(port_mapping.host_port as nat)
                    + " -j DNAT --to-dest "@ + ipv4_text(self.networks()[container_id@].ip_address) + ":"@
                    + decimal_text(port_mapping.container_port as nat) + "\n"@,
                None,
            )),
    {
        let i = match find_name(&self.active_networks, container_id) {
            Some(i) => i,
            None => {
                let mut m = string_of("Container ");
                push_text(&mut m, container_id);
                push_text(&mut m, " network not found");
                return Err(ContainerError::NotFound(m));
            },
        };
        proof {
            crate::keyed::lemma_name_index(self.active_networks@, i as int);
        }
        let mut c = string_of("iptables -t nat -A PREROUTING ");
        push_text(&mut c, protocol_flag_of(port_mapping.protocol.as_str()));
        push_text(&mut c, " -p ");
        push_text(&mut c, port_mapping.protocol.as_str());
        push_text(&mut c, " --dport ");
        push_decimal(&mut c, port_mapping.host_port as u64);
        push_text(&mut c, " -j DNAT --to-dest ");
        push_text(&mut c, ipv4_string(self.active_networks[i].ip_address).as_str());
        push_text(&mut c, ":");
        push_decimal(&mut c, port_mapping.container_port as u64);
        push_text(&mut c, "\n");
        Ok(command(c, None))
    }

    /// Records the network of container `container_id` for `config`, once
    /// any bridge steps have run: bridged on `veth_<id>` with its allocated
    /// address; on the host or with no network at `127.0.0.1` with no
    /// interface; on a custom network on `veth_<id>` with the configured
    /// address, or the allocated one when none is configured. A configured
    /// address that does not parse is a network error.
    pub fn create_network_interface(&mut self, container_id: &str, config: &NetworkConfig) -> (r: Result<
        (),
        ContainerError,
    >)
        requires
            old(self).wf(),
        ensures
            final(self).wf(),
            final(self).bridge_name == old(self).bridge_name,
            ({
                let custom_bad = config.network_mode is Custom && (config.ip_address matches Some(a)
                    && parse_ipv4_text(a@) is None);
                &&& custom_bad ==> (r matches Err(ContainerError::NetworkError(m)) && m@ == "Invalid IP address"@)
                    && final(self).active_networks@ == old(self).active_networks@
                &&& !custom_bad ==> r is Ok && final(self).networks().dom() == old(self).networks().dom().insert(
                    container_id@,
                ) && (forall|k: Seq<char>|
                    k != container_id@ && #[trigger] old(self).networks().contains_key(k) ==> final(self).networks()[k]
                        == old(self).networks()[k]) && network_for(
                    final(self).networks()[container_id@],
                    container_id@,
                    *config,
                )
            }),
    {
        let network = match &config.network_mode {
            NetworkMode::Bridge => {
                let mut veth = string_of("veth_");
                push_text(&mut veth, container_id);
                ContainerNetwork {
                    id: string_of(container_id),
                    mode: NetworkMode::Bridge,
                    interface_name: veth,
                    ip_address: self.allocate_ip_address(container_id),
                    mac_address: self.generate_mac_address(container_id),
                    dns_servers: copy_strings(&config.dns_servers),
                    port_mappings: copy_ports(&config.port_mappings),
                    created_at: now_millis(),
                }
            },
            NetworkMode::Host => ContainerNetwork {
                id: string_of(container_id),
                mode: NetworkMode::Host,
                interface_name: String::new(),
                ip_address: 2130706433,
                mac_address: String::new(),
                dns_servers: Vec::new(),
                port_mappings: Vec::new(),
                created_at: now_millis(),
            },
            NetworkMode::NoNetwork => ContainerNetwork {
                id: string_of(container_id),
                mode: NetworkMode::NoNetwork,
                interface_name: String::new(),
                ip_address: 2130706433,
                mac_address: String::new(),
                dns_servers: Vec::new(),
                port_mappings: Vec::new(),
                created_at: now_millis(),
            },
            NetworkMode::Custom(network_id) => {
                let ip = match &config.ip_address {
                    Some(a) => match parse_ipv4(a.as_str()) {
                        Some(ip) => ip,
                        None => {
                            return Err(ContainerError::NetworkError(string_of("Invalid IP address")));
                        },
                    },
                    None => self.allocate_ip_address(container_id),
                };
                let mut veth = string_of("veth_");
                push_text(&mut veth, container_id);
                ContainerNetwork {
                    id: string_of(container_id),
                    mode: NetworkMode::Custom(network_id.clone()),
                    interface_name: veth,
                    ip_address: ip,
                    mac_address: self.generate_mac_address(container_id),
                    dns_servers: copy_strings(&config.dns_servers),
                    port_mappings: copy_ports(&config.port_mappings),
                    created_at: now_millis(),
                }
            },
        };
        let ghost net = network;
        let ghost before = self.active_networks@;
        upsert_named(&mut self.active_networks, network);
        proof {
            assert(self.networks() == name_map(before).insert(container_id@, net));
        }
        Ok(())
    }

    /// The commands that bring the network of container `container_id` up
    /// when it starts: the loopback without a network; else, with an
    /// interface, the interface and, off the host network, a default route
    /// through `172.17.0.1`; nothing without a recorded network.
    pub fn prepare_network_environment(&self, container_id: &str) -> (v: Vec<NetworkCommand>)
        requires
            self.wf(),
        ensures
            !self.networks().contains_key(container_id@) ==> v@.len() == 0,
            self.networks().contains_key(container_id@) ==> {
                let n = self.networks()[container_id@];
                let i = n.interface_name@;
                if n.mode is NoNetwork {
                    v@.len() == 1 && command_is(v@[0], "ip link set lo up\0"@, None)
                } else if i.len() == 0 {
                    v@.len() == 0
                } else if n.mode is Host {
                    v@.len() == 1 && command_is(v@[0], "ip link set "@ + i + " up\n"@, None)
                } else {
                    v@.len() == 2 && command_is(v@[0], "ip link set "@ + i + " up\n"@, None) && command_is(
                        v@[1],
                        "ip route add default via 172.17.0.1 dev "@ + i + "\n"@,
                        None,
                    )
                }
            },
    {
        let mut v: Vec<NetworkCommand> = Vec::new();
        let i = match find_name(&self.active_networks, container_id) {
            Some(i) => i,
            None => {
                return v;
            },
        };
        proof {
            crate::keyed::lemma_name_index(self.active_networks@, i as int);
        }
        let n = &self.active_networks[i];
        match n.mode {
            NetworkMode::NoNetwork => {
                v.push(command(string_of("ip link set lo up\0"), None));
            },
            _ => {
                if n.interface_name.unicode_len() > 0 {
                    let mut up = string_of("ip link set ");
                    push_text(&mut up, n.interface_name.as_str());
                    push_text(&mut up, " up\n");
                    v.push(command(up, None));
                    match n.mode {
                        NetworkMode::Host => {},
                        _ => {
                            let mut route = string_of("ip route add default via 172.17.0.1 dev ");
                            push_text(&mut route, n.interface_name.as_str());
                            push_text(&mut route, "\n");
                            v.push(command(route, None));
                        },
                    }
                }
            },
        }
        v
    }

    /// Drops the network of container `container_id` and gives the
    /// commands that tear it down: delete its interface, when it has one,
    /// and remove the forwarding of each of its ports; failures are only
    /// warnings. Nothing to do without a recorded network.
    pub fn cleanup_network_interface(&mut self, container_id: &str) -> (v: Vec<NetworkCommand>)
        requires
            old(self).wf(),
        ensures
            final(self).wf(),
            final(self).bridge_name == old(self).bridge_name,
            final(self).networks() == old(self).networks().remove(container_id@),
            !old(self).networks().contains_key(container_id@) ==> v@.len() == 0,
            old(self).networks().contains_key(container_id@) ==> {
                let n = old(self).networks()[container_id@];
                let o: int = if n.interface_name@.len() > 0 {
                    1
                } else {
                    0
                };
                &&& v@.len() == o + n.port_mappings@.len()
                &&& n.interface_name@.len() > 0 ==> command_is(
                    v@[0],
                    "ip link delete "@ + n.interface_name@ + "\n"@,
                    None,
                )
                &&& forall|j: int|
                    0 <= j < n.port_mappings@.len() ==> command_is(
                        #[trigger] v@[o + j],
                        "iptables -t nat -D PREROUTING "@ + protocol_flag(n.port_mappings@[j].protocol@) + " -p "@
                            + n.port_mappings@[j].protocol@ + " --dport "@ + decimal_text(
                            n.port_mappings@[j].host_port as nat,
                        ) + " -j DNAT --to-dest "@ + decimal_text(n.port_mappings@[j].container_port as nat)
                            + "\n"@,
                        None,
                    )
            },
    {
        let mut v: Vec<NetworkCommand> = Vec::new();
        let removed = remove_named(&mut self.active_networks, container_id);
        let n = match removed {
            Some(n) => n,
            None => {
                return v;
            },
        };
        if n.interface_name.unicode_len() > 0 {
            let mut c = string_of("ip link delete ");
            push_text(&mut c, n.interface_name.as_str());
            push_text(&mut c, "\n");
            v.push(command(c, None));
        }
        let ghost o: int = v@.len() as int;
        let mut j: usize = 0;
        while j < n.port_mappings.len()
            invariant
                j <= n.port_mappings@.len(),
                v@.len() == o + j,
                o == (if n.interface_name@.len() > 0 {
                    1int
                } else {
                    0int
                }),
                n.interface_name@.len() > 0 ==> command_is(v@[0], "ip link delete "@ + n.interface_name@ + "\n"@, None),
                forall|k: int|
                    0 <= k < j ==> command_is(
                        #[trigger] v@[o + k],
                        "iptables -t nat -D PREROUTING "@ + protocol_flag(n.port_mappings@[k].protocol@) + " -p "@
                            + n.port_mappings@[k].protocol@ + " --dport "@ + decimal_text(
                            n.port_mappings@[k].host_port as nat,
                        ) + " -j DNAT --to-dest "@ + decimal_text(n.port_mappings@[k].container_port as nat)
                            + "\n"@,
                        None,
                    ),
            decreases n.port_mappings@.len() - j,
        {
            let p = &n.port_mappings[j];
            let mut c = string_of("iptables -t nat -D PREROUTING ");
            push_text(&mut c, protocol_flag_of(p.protocol.as_str()));
            push_text(&mut c, " -p ");
            push_text(&mut c, p.protocol.as_str());
            push_text(&mut c, " --dport ");
            push_decimal(&mut c, p.host_port as u64);
            push_text(&mut c, " -j DNAT --to-dest ");
            push_decimal(&mut c, p.container_port as u64);
            push_text(&mut c, "\n");
            v.push(command(c, None));
            j = j + 1;
        }
        v
    }

    /// The network of container `container_id` with the counters of its
    /// interface read from `/proc/net/dev` (`Ok` with the file's text, or
    /// `Err` with the reason it could not be read). Not found without a
    /// recorded network; a system error when the file could not be read.
    pub fn get_network_info(&self, container_id: &str, proc_net_dev: &Result<String, String>) -> (r: Result<
        NetworkInfo,
        ContainerError,
    >)
        requires
            self.wf(),
        ensures
            !self.networks().contains_key(container_id@) ==> (r matches Err(ContainerError::NotFound(m)) && m@
                == "Container "@ + container_id@ + " network not found"@),
            self.networks().contains_key(container_id@) ==> match proc_net_dev {
                Err(e) => r matches Err(ContainerError::System(m)) && m@ == "Failed to read network stats: "@ + e@,
                Ok(content) => r matches Ok(info) && info_of(
                    info,
                    self.networks()[container_id@],
                    dev_stats(lines_of(content@), self.networks()[container_id@].interface_name@),
                ),
            },
    {
        let i = match find_name(&self.active_networks, container_id) {
            Some(i) => i,
            None => {
                let mut m = string_of("Container ");
                push_text(&mut m, container_id);
                push_text(&mut m, " network not found");
                return Err(ContainerError::NotFound(m));
            },
        };
        proof {
            crate::keyed::lemma_name_index(self.active_networks@, i as int);
        }
        let n = &self.active_networks[i];
        let stats = match proc_net_dev {
            Ok(content) => network_stats_from_dev(content.as_str(), n.interface_name.as_str()),
            Err(e) => {
                let mut m = string_of("Failed to read network stats: ");
                push_text(&mut m, e.as_str());
                return Err(ContainerError::System(m));
            },
        };
        Ok(Self::info(n, stats))
    }

    /// The report of network `n` with counters `stats`.
    fn info(n: &ContainerNetwork, stats: NetworkStats) -> (info: NetworkInfo)
        ensures
            info_of(info, *n, stats),
    {
        NetworkInfo {
            container_id: n.id.clone(),
            network_mode: copy_mode(&n.mode),
            interface_name: n.interface_name.clone(),
            ip_address: ipv4_string(n.ip_address),
            mac_address: n.mac_address.clone(),
            dns_servers: copy_strings(&n.dns_servers),
            port_mappings: copy_ports(&n.port_mappings),
            stats,
            created_at: n.created_at,
        }
    }

    /// The networks of all containers, in the order they were recorded,
    /// with counters at zero.
    pub fn list_networks(&self) -> (v: Vec<NetworkInfo>)
        ensures
            v@.len() == self.active_networks@.len(),
            forall|i: int|
                0 <= i < v@.len() ==> info_of(
                    #[trigger] v@[i],
                    self.active_networks@[i],
                    NetworkStats { rx_bytes: 0, tx_bytes: 0, rx_packets: 0, tx_packets: 0, rx_errors: 0, tx_errors: 0 },
                ),
    {
        let mut v: Vec<NetworkInfo> = Vec::new();
        let mut i: usize = 0;
        while i < self.active_networks.len()
            invariant
                i <= self.active_networks@.len(),
                v@.len() == i,
                forall|j: int|
                    0 <= j < i ==> info_of(
                        #[trigger] v@[j],
                        self.active_networks@[j],
                        NetworkStats {
                            rx_bytes: 0,
                            tx_bytes: 0,
                            rx_packets: 0,
                            tx_packets: 0,
                            rx_errors: 0,
                            tx_errors: 0,
                        },
                    ),
            decreases self.active_networks@.len() - i,
        {
            v.push(Self::info(&self.active_networks[i], NetworkStats::default()));
            i = i + 1;
        }
        v
    }
}

/// Whether `info` reports network `n` with counters `stats`.
pub open spec fn info_of(info: NetworkInfo, n: ContainerNetwork, stats: NetworkStats) -> bool {
    &&& info.container_id@ == n.id@
    &&& info.network_mode@ == n.mode@
    &&& info.interface_name@ == n.interface_name@
    &&& info.ip_address@ == ipv4_text(n.ip_address)
    &&& info.mac_address@ == n.mac_address@
    &&& texts(info.dns_servers@) == texts(n.dns_servers@)
    &&& port_views(info.port_mappings@) == port_views(n.port_mappings@)
    &&& info.stats == stats
    &&& info.created_at == n.created_at
}

/// Whether `n` is the network recorded for container `container_id` with
/// configuration `c` (see `create_network_interface`).
pub open spec fn network_for(n: ContainerNetwork, container_id: Seq<char>, c: NetworkConfig) -> bool {
    &&& n.id@ == container_id
    &&& n.mode@ == c.network_mode@
    &&& match c.network_mode {
        NetworkMode::Bridge => {
            &&& n.interface_name@ == "veth_"@ + container_id
            &&& n.ip_address == allocated_ip(container_id)
            &&& n.mac_address@ == mac_text(container_id)
            &&& texts(n.dns_servers@) == texts(c.dns_servers@)
            &&& port_views(n.port_mappings@) == port_views(c.port_mappings@)
        },
        NetworkMode::Custom(_) => {
            &&& n.interface_name@ == "veth_"@ + container_id
            &&& n.ip_address == match c.ip_address {
                Some(a) => parse_ipv4_text(a@).unwrap(),
                None => allocated_ip(container_id),
            }
            &&& n.mac_address@ == mac_text(container_id)
            &&& texts(n.dns_servers@) == texts(c.dns_servers@)
            &&& port_views(n.port_mappings@) == port_views(c.port_mappings@)
        },
        _ => {
            &&& n.interface_name@.len() == 0
            &&& n.ip_address == ipv4_of(127, 0, 0, 1)
            &&& n.mac_address@.len() == 0
            &&& n.dns_servers@.len() == 0
            &&& n.port_mappings@.len() == 0
        },
    }
}

} // verus!
