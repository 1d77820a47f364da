//! Decoding of captured Ethernet frames and of the DNS responses they carry.
//!
//! The header and DNS wire formats are decoded by `etherparse` and
//! `dns_parser`; this module turns their results into plain values.

use vstd::prelude::*;
use etherparse::{NetHeaders, PacketHeaders, TransportHeader};
use dns_parser::RData;

verus! {

/// The transport layer of a frame, as far as the sniffer looks at it.
#[derive(Clone, Copy, Debug, PartialEq, Eq, Structural)]
pub enum Transport {
    Udp { source_port: u16, destination_port: u16 },
    Tcp { source_port: u16, destination_port: u16 },
    Other,
}

/// The headers of a decoded Ethernet frame: the IPv4 source and destination
/// (when the network layer is IPv4), the transport header and the payload of
/// the last decoded layer.
#[derive(Debug)]
pub struct DecodedFrame {
    pub ipv4: Option<([u8; 4], [u8; 4])>,
    pub transport: Transport,
    pub payload: Vec<u8>,
}

/// The mathematical value of a [`DecodedFrame`].
pub struct DecodedFrameView {
    pub ipv4: Option<([u8; 4], [u8; 4])>,
    pub transport: Transport,
    pub payload: Seq<u8>,
}

impl View for DecodedFrame {
    type V = DecodedFrameView;

    open spec fn view(&self) -> DecodedFrameView {
        DecodedFrameView { ipv4: self.ipv4, transport: self.transport, payload: self.payload@ }
    }
}

/// One answer record of a DNS response: its owner name, and its IPv4
/// address when it is an `A` record.
#[derive(Debug)]
pub struct DnsAnswer {
    pub address: Option<[u8; 4]>,
    pub name: String,
}

/// The mathematical value of a [`DnsAnswer`].
pub struct DnsAnswerView {
    pub address: Option<[u8; 4]>,
    pub name: Seq<char>,
}

impl View for DnsAnswer {
    type V = DnsAnswerView;

    open spec fn view(&self) -> DnsAnswerView {
        DnsAnswerView { address: self.address, name: self.name@ }
    }
}

/// The views of a sequence of answers.
pub open spec fn answer_views(v: Seq<DnsAnswer>) -> Seq<DnsAnswerView> {
    v.map_values(|a: DnsAnswer| a@)
}

/// What `etherparse` decodes from an Ethernet frame; `None` when it rejects
/// the frame.
pub uninterp spec fn ethernet_frame_headers(frame: Seq<u8>) -> Option<DecodedFrameView>;

/// The answer section that `dns_parser` reads from a DNS message; `None`
/// when it rejects the message.
pub uninterp spec fn dns_response_answers(message: Seq<u8>) -> Option<Seq<DnsAnswerView>>;

/// Calls `etherparse::PacketHeaders::from_ethernet_slice`. The contract
/// claims only that the result is a function of the frame's bytes
/// (`ethernet_frame_headers`): `None` where the crate returns an error,
/// otherwise its IPv4 addresses (for an IPv4 network header), its UDP or TCP
/// ports, and its payload slice.
#[verifier::external_body]
pub(crate) fn decode_ethernet_frame(frame: &[u8]) -> (res: Option<DecodedFrame>)
    ensures
        match res {
            Some(f) => ethernet_frame_headers(frame@) == Some(f@),
            None => ethernet_frame_headers(frame@) is None,
        },
{
    match PacketHeaders::from_ethernet_slice(frame) {
        Err(_) => None,
        Ok(h) => Some(DecodedFrame {
            ipv4: match h.net {
                Some(NetHeaders::Ipv4(ip, _)) => Some((ip.source, ip.destination)),
                _ => None,
            },
            transport: match h.transport {
                Some(TransportHeader::Udp(u)) => Transport::Udp { source_port: u.source_port, destination_port: u.destination_port },
                Some(TransportHeader::Tcp(t)) => Transport::Tcp { source_port: t.source_port, destination_port: t.destination_port },
                _ => Transport::Other,
            },
            payload: h.payload.slice().to_vec(),
        }),
    }
}

/// Calls `dns_parser::Packet::parse` and lists its answer records, each with
/// its owner name (as `dns_parser::Name` displays it) and, for an `A`
/// record, its address. The contract claims only that the result is a
/// function of the message's bytes (`dns_response_answers`), `None` where
/// the crate returns an error.
#[verifier::external_body]
pub(crate) fn parse_dns_answers(message: &[u8]) -> (res: Option<Vec<DnsAnswer>>)
    ensures
        match res {
            Some(v) => dns_response_answers(message@) == Some(answer_views(v@)),
            None => dns_response_answers(message@) is None,
        },
{
    match dns_parser::Packet::parse(message) {
        Err(_) => None,
        Ok(p) => Some(p.answers.iter().map(|a| DnsAnswer {
            address: match a.data {
                RData::A(dns_parser::rdata::a::Record(ip)) => Some(ip.octets()),
                _ => None,
            },
            name: a.name.to_string(),
        }).collect()),
    }
}

/// The 32-bit number of an IPv4 address, most significant octet first.
pub open spec fn ipv4_number(a: [u8; 4]) -> u32 {
    (a[0] as int * 16777216 + a[1] as int * 65536 + a[2] as int * 256 + a[3] as int) as u32
}

/// Computes [`ipv4_number`].
pub fn ipv4_to_number(a: [u8; 4]) -> (n: u32)
    ensures
        n == ipv4_number(a),
        n as int == a[0] as int * 16777216 + a[1] as int * 65536 + a[2] as int * 256 + a[3] as int,
{
    a[0] as u32 * 16777216 + a[1] as u32 * 65536 + a[2] as u32 * 256 + a[3] as u32
}

/// The character of a decimal digit.
pub open spec fn digit_char(d: int) -> char {
    (d + 48) as char
}

/// The decimal representation of a byte, without leading zeros.
pub open spec fn decimal_u8(n: u8) -> Seq<char> {
    if n < 10 {
        seq![digit_char(n as int)]
    } else if n < 100 {
        seq![digit_char((n / 10) as int), digit_char((n % 10) as int)]
    } else {
        seq![digit_char((n / 100) as int), digit_char(((n / 10) % 10) as int), digit_char((n % 10) as int)]
    }
}

/// The dotted-decimal text of an IPv4 address, such as `172.17.0.2`.
pub open spec fn dotted_quad(a: [u8; 4]) -> Seq<char> {
    decimal_u8(a[0]) + seq!['.'] + decimal_u8(a[1]) + seq!['.'] + decimal_u8(a[2]) + seq!['.']
        + decimal_u8(a[3])
}

fn append_digit(s: &mut String, d: u8)
    requires
        d < 10,
    ensures
        final(s)@ == old(s)@.push(digit_char(d as int)),
{
    let digits = "0123456789";
    proof {
        reveal_strlit("0123456789");
    }
    let one = digits.substring_char(d as usize, d as usize + 1);
    assert(one@ =~= seq![digit_char(d as int)]);
    s.append(one);
}

fn append_decimal(s: &mut String, n: u8)
    ensures
        final(s)@ == old(s)@ + decimal_u8(n),
{
    if n >= 100 {
        append_digit(s, n / 100);
    }
    if n >= 10 {
        append_digit(s, (n / 10) % 10);
    }
    append_digit(s, n % 10);
    assert(n >= 100 ==> n / 100 < 10);
    assert(n < 100 ==> (n / 10) % 10 == n / 10);
    assert(final(s)@ =~= old(s)@ + decimal_u8(n));
}

fn append_dot(s: &mut String)
    ensures
        final(s)@ == old(s)@.push('.'),
{
    let dot = ".";
    proof {
        reveal_strlit(".");
    }
    s.append(dot);
    assert(final(s)@ =~= old(s)@.push('.'));
}

/// Writes an IPv4 address in dotted-decimal notation.
pub fn format_ipv4(a: [u8; 4]) -> (text: String)
    ensures
        text@ == dotted_quad(a),
{
    let mut s = String::new();
    append_decimal(&mut s, a[0]);
    append_dot(&mut s);
    append_decimal(&mut s, a[1]);
    append_dot(&mut s);
    append_decimal(&mut s, a[2]);
    append_dot(&mut s);
    append_decimal(&mut s, a[3]);
    assert(s@ =~= dotted_quad(a));
    s
}

} // verus!
