//! The decisions of the network sniffer: which frames teach it a DNS name,
//! and which connections of the build container it raises an alert on.
//!
//! The capture loop itself (opening the interface, reading frames, sending
//! signals) belongs to the program around this library; each captured frame
//! is handed to [`Sniffer::process_frame`].

use vstd::prelude::*;
use std::collections::HashMap;
use crate::domains::{string_views, DomainSet};
use crate::packet::{
    answer_views, decode_ethernet_frame, dns_response_answers, dotted_quad, ethernet_frame_headers,
    format_ipv4, ipv4_number, ipv4_to_number, parse_dns_answers, DecodedFrame, DecodedFrameView,
    DnsAnswer, DnsAnswerView, Transport,
};

verus! {

broadcast use vstd::std_specs::hash::group_hash_axioms;

/// The label given to a destination address that no DNS answer named.
pub open spec fn unknown_domain() -> Seq<char> {
    "UNKNOWN DOMAIN"@
}

/// What the sniffer knows: the container's address (as text), the domains
/// it may contact, and the DNS names learnt so far, keyed by the number of
/// the IPv4 address they resolve to.
#[verifier::ext_equal]
pub struct SnifferView {
    pub container_ip: Seq<char>,
    pub allowed: Set<Seq<char>>,
    pub cache: Map<u32, Seq<char>>,
}

/// The outcome of looking at one frame.
pub enum Verdict {
    /// The frame is neither a DNS response nor a TCP segment of the container.
    Ignored,
    /// A DNS response: the names of its `A` records, now remembered.
    Resolved { names: Vec<String> },
    /// A TCP segment from the container to an allowed domain.
    Permitted { domain: String, address: [u8; 4], port: u16 },
    /// A TCP segment from the container to a domain that is not allowed,
    /// or to an address that no DNS answer named.
    Alert { domain: String, address: [u8; 4], port: u16 },
}

/// The mathematical value of a [`Verdict`].
pub enum VerdictView {
    Ignored,
    Resolved { names: Seq<Seq<char>> },
    Permitted { domain: Seq<char>, address: [u8; 4], port: u16 },
    Alert { domain: Seq<char>, address: [u8; 4], port: u16 },
}

impl View for Verdict {
    type V = VerdictView;

    open spec fn view(&self) -> VerdictView {
        match self {
            Verdict::Ignored => VerdictView::Ignored,
            Verdict::Resolved { names } => VerdictView::Resolved { names: string_views(names@) },
            Verdict::Permitted { domain, address, port } => VerdictView::Permitted {
                domain: domain@,
                address: *address,
                port: *port,
            },
            Verdict::Alert { domain, address, port } => VerdictView::Alert {
                domain: domain@,
                address: *address,
                port: *port,
            },
        }
    }
}

/// The cache after remembering, in order, the `A` records of `answers`: a
/// later record for the same address replaces an earlier one.
pub open spec fn learn(cache: Map<u32, Seq<char>>, answers: Seq<DnsAnswerView>) -> Map<
    u32,
    Seq<char>,
>
    decreases answers.len(),
{
    if answers.len() == 0 {
        cache
    } else {
        let before = learn(cache, answers.drop_last());
        match answers.last().address {
            Some(a) => before.insert(ipv4_number(a), answers.last().name),
            None => before,
        }
    }
}

/// The names of the `A` records of `answers`, in order.
pub open spec fn resolved_names(answers: Seq<DnsAnswerView>) -> Seq<Seq<char>>
    decreases answers.len(),
{
    if answers.len() == 0 {
        Seq::empty()
    } else {
        let before = resolved_names(answers.drop_last());
        match answers.last().address {
            Some(_) => before.push(answers.last().name),
            None => before,
        }
    }
}

/// The domain that a destination address is attributed to.
pub open spec fn resolve(cache: Map<u32, Seq<char>>, address: [u8; 4]) -> Seq<char> {
    if cache.contains_key(ipv4_number(address)) {
        cache[ipv4_number(address)]
    } else {
        unknown_domain()
    }
}

/// Whether some DNS answer named `address`.
pub open spec fn is_named(cache: Map<u32, Seq<char>>, address: [u8; 4]) -> bool {
    cache.contains_key(ipv4_number(address))
}

/// The verdict on a connection of the container to `address`:`port`: a
/// connection to an address that no DNS answer named (a direct IP
/// connection) always raises an alert, labelled with the unknown-domain
/// label; one to a named address is permitted exactly when its name is
/// allowed.
pub open spec fn connection_verdict(s: SnifferView, address: [u8; 4], port: u16) -> VerdictView {
    let domain = resolve(s.cache, address);
    if is_named(s.cache, address) && s.allowed.contains(domain) {
        VerdictView::Permitted { domain, address, port }
    } else {
        VerdictView::Alert { domain, address, port }
    }
}

/// The state and verdict after a DNS response whose answer section is `answers`.
pub open spec fn answers_outcome(s: SnifferView, answers: Seq<DnsAnswerView>) -> (SnifferView, VerdictView) {
    (
        SnifferView { cache: learn(s.cache, answers), ..s },
        VerdictView::Resolved { names: resolved_names(answers) },
    )
}

/// The IPv4 destination address of a decoded frame.
pub open spec fn destination_of(f: DecodedFrameView) -> [u8; 4] {
    f.ipv4.unwrap().1
}

/// Whether a decoded frame is a non-empty UDP datagram from port 53 over
/// IPv4 that involves the container: sent by it or addressed to it, as every
/// frame that passes the capture filter `host <container_ip>` is.
pub open spec fn is_dns_response(s: SnifferView, f: DecodedFrameView) -> bool {
    &&& f.ipv4 matches Some((src, dst)) && (dotted_quad(src) == s.container_ip || dotted_quad(dst)
        == s.container_ip)
    &&& f.transport matches Transport::Udp { source_port, .. } && source_port == 53
    &&& f.payload.len() > 0
}

/// Whether a decoded frame is a TCP segment over IPv4 whose source address,
/// written in dotted-decimal notation, is the container's address.
pub open spec fn is_container_tcp(s: SnifferView, f: DecodedFrameView) -> bool {
    &&& f.ipv4 matches Some((src, _)) && dotted_quad(src) == s.container_ip
    &&& f.transport is Tcp
}

/// The state and verdict after a decoded frame.
pub open spec fn frame_outcome(s: SnifferView, f: DecodedFrameView) -> (SnifferView, VerdictView) {
    if is_dns_response(s, f) {
        match dns_response_answers(f.payload) {
            Some(answers) => answers_outcome(s, answers),
            None => (s, VerdictView::Ignored),
        }
    } else if is_container_tcp(s, f) {
        match (f.ipv4, f.transport) {
            (Some((_, dst)), Transport::Tcp { destination_port, .. }) => (
                s,
                connection_verdict(s, dst, destination_port),
            ),
            _ => (s, VerdictView::Ignored),
        }
    } else {
        (s, VerdictView::Ignored)
    }
}

/// The state and verdict after a captured frame, given as raw bytes.
pub open spec fn raw_frame_outcome(s: SnifferView, frame: Seq<u8>) -> (SnifferView, VerdictView) {
    match ethernet_frame_headers(frame) {
        Some(f) => frame_outcome(s, f),
        None => (s, VerdictView::Ignored),
    }
}

/// Remembering DNS answers never forgets a name learnt before, unless a new
/// `A` record for the same address replaces it: every address known before
/// is known after.
pub proof fn lemma_learn_keeps_addresses(cache: Map<u32, Seq<char>>, answers: Seq<DnsAnswerView>)
    ensures
        cache.dom().subset_of(learn(cache, answers).dom()),
    decreases answers.len(),
{
    if answers.len() > 0 {
        lemma_learn_keeps_addresses(cache, answers.drop_last());
    }
}

/// Looking at a frame never changes the container's address or the allowed
/// domains, and every address whose name was known stays known.
pub proof fn law_frame_keeps_configuration(s: SnifferView, frame: Seq<u8>)
    ensures
        raw_frame_outcome(s, frame).0.container_ip == s.container_ip,
        raw_frame_outcome(s, frame).0.allowed == s.allowed,
        s.cache.dom().subset_of(raw_frame_outcome(s, frame).0.cache.dom()),
{
    if let Some(f) = ethernet_frame_headers(frame) {
        if is_dns_response(s, f) {
            if let Some(answers) = dns_response_answers(f.payload) {
                lemma_learn_keeps_addresses(s.cache, answers);
            }
        }
    }
}

/// A frame raises an alert exactly when it is a TCP segment sent by the
/// container either to an address that no DNS answer named (a direct IP
/// connection) or to a named address whose name is not allowed; the alert
/// names that domain, or the unknown-domain label for a direct IP connection.
/// A frame is permitted only when it goes to a named address whose name is
/// allowed.
pub proof fn law_alert_iff_container_reaches_unlisted_domain(s: SnifferView, f: DecodedFrameView)
    ensures
        (frame_outcome(s, f).1 is Alert) <==> (is_container_tcp(s, f) && (!is_named(
            s.cache,
            destination_of(f),
        ) || !s.allowed.contains(resolve(s.cache, destination_of(f))))),
        frame_outcome(s, f).1 matches VerdictView::Alert { domain, address, .. } ==> domain
            == resolve(s.cache, destination_of(f)) && address == destination_of(f),
        frame_outcome(s, f).1 is Permitted ==> is_container_tcp(s, f) && is_named(
            s.cache,
            destination_of(f),
        ) && s.allowed.contains(resolve(s.cache, destination_of(f))),
{
}

/// Every direct IP connection of the container, to an address that no DNS
/// answer named, raises an alert with the unknown-domain label, whatever the
/// allowed domains hold.
pub proof fn law_direct_ip_connection_always_alerts(s: SnifferView, f: DecodedFrameView)
    requires
        is_container_tcp(s, f),
        !is_named(s.cache, destination_of(f)),
    ensures
        frame_outcome(s, f).1 matches VerdictView::Alert { domain, address, .. } && domain
            == unknown_domain() && address == destination_of(f),
{
}

/// Whether a decoded frame does not involve the container: it is not IPv4,
/// or neither its source nor its destination is the container's address.
pub open spec fn is_foreign(s: SnifferView, f: DecodedFrameView) -> bool {
    match f.ipv4 {
        None => true,
        Some((src, dst)) => dotted_quad(src) != s.container_ip && dotted_quad(dst) != s.container_ip,
    }
}

/// Whether a captured frame does not involve the container: it cannot be
/// decoded, or its decoded headers are foreign.
pub open spec fn is_foreign_raw(s: SnifferView, frame: Seq<u8>) -> bool {
    match ethernet_frame_headers(frame) {
        None => true,
        Some(f) => is_foreign(s, f),
    }
}

/// The state after a sequence of captured frames, and the domains it raised
/// alerts on (the signals sent), in order.
pub open spec fn run_frames(s: SnifferView, frames: Seq<Seq<u8>>) -> (SnifferView, Seq<Seq<char>>)
    decreases frames.len(),
{
    if frames.len() == 0 {
        (s, Seq::empty())
    } else {
        let before = run_frames(s, frames.drop_last());
        let step = raw_frame_outcome(before.0, frames.last());
        (
            step.0,
            match step.1 {
                VerdictView::Alert { domain, .. } => before.1.push(domain),
                _ => before.1,
            },
        )
    }
}

/// A sequence of frames never changes the container's address.
pub proof fn lemma_run_keeps_container(s: SnifferView, frames: Seq<Seq<u8>>)
    ensures
        run_frames(s, frames).0.container_ip == s.container_ip,
    decreases frames.len(),
{
    if frames.len() > 0 {
        lemma_run_keeps_container(s, frames.drop_last());
        law_frame_keeps_configuration(run_frames(s, frames.drop_last()).0, frames.last());
    }
}

/// A frame that does not involve the container changes nothing and is ignored.
pub proof fn law_foreign_frame_is_ignored(s: SnifferView, frame: Seq<u8>)
    requires
        is_foreign_raw(s, frame),
    ensures
        raw_frame_outcome(s, frame) == (s, VerdictView::Ignored),
{
}

/// Inserting, anywhere in a sequence of captured frames, a frame that does
/// not involve the container leaves the final state and the sequence of
/// signalled domains unchanged.
pub proof fn law_foreign_frames_change_no_signal(
    s: SnifferView,
    frames: Seq<Seq<u8>>,
    i: int,
    q: Seq<u8>,
)
    requires
        0 <= i <= frames.len(),
        is_foreign_raw(s, q),
    ensures
        run_frames(s, frames.insert(i, q)) == run_frames(s, frames),
    decreases frames.len(),
{
    if i == frames.len() {
        assert(frames.insert(i, q).drop_last() =~= frames);
        assert(frames.insert(i, q).last() == q);
        lemma_run_keeps_container(s, frames);
        law_foreign_frame_is_ignored(run_frames(s, frames).0, q);
    } else {
        assert(frames.insert(i, q).drop_last() =~= frames.drop_last().insert(i, q));
        assert(frames.insert(i, q).last() == frames.last());
        law_foreign_frames_change_no_signal(s, frames.drop_last(), i, q);
    }
}

/// After a DNS response whose last answer is an `A` record naming address
/// `a`, a TCP segment of the container to `a` is attributed to that name:
/// it is permitted when the name is allowed and raises an alert otherwise.
pub proof fn law_dns_answer_names_next_connection(
    s: SnifferView,
    response: DecodedFrameView,
    answers: Seq<DnsAnswerView>,
    segment: DecodedFrameView,
    a: [u8; 4],
    name: Seq<char>,
    port: u16,
)
    requires
        is_dns_response(s, response),
        dns_response_answers(response.payload) == Some(answers),
        answers.len() > 0,
        answers.last().address == Some(a),
        answers.last().name == name,
        is_container_tcp(s, segment),
        destination_of(segment) == a,
        segment.transport matches Transport::Tcp { destination_port, .. } && destination_port == port,
    ensures
        frame_outcome(frame_outcome(s, response).0, segment).1 == (if s.allowed.contains(name) {
            VerdictView::Permitted { domain: name, address: a, port }
        } else {
            VerdictView::Alert { domain: name, address: a, port }
        }),
{
    let s1 = frame_outcome(s, response).0;
    assert(s1.cache == learn(s.cache, answers));
    assert(learn(s.cache, answers)[ipv4_number(a)] == name);
}

/// The packet filter that keeps the traffic of one host.
pub open spec fn host_filter(ip: Seq<char>) -> Seq<char> {
    "host "@ + ip
}

/// Builds the packet filter (BPF syntax) for the container at `container_ip`.
pub fn capture_filter(container_ip: &String) -> (filter: String)
    ensures
        filter@ == host_filter(container_ip@),
{
    String::from_str("host ").concat(container_ip.as_str())
}

/// Distinct IPv4 addresses have distinct numbers.
pub proof fn lemma_ipv4_number_injective(a: [u8; 4], b: [u8; 4])
    requires
        ipv4_number(a) == ipv4_number(b),
    ensures
        a == b,
{
    let x = a[0] as int * 16777216 + a[1] as int * 65536 + a[2] as int * 256 + a[3] as int;
    let y = b[0] as int * 16777216 + b[1] as int * 65536 + b[2] as int * 256 + b[3] as int;
    assert(0 <= x < 0x1_0000_0000);
    assert(0 <= y < 0x1_0000_0000);
    assert(x == y);
    assert(a[3] == b[3]) by {
        assert(x % 256 == a[3] as int) by (nonlinear_arith)
            requires x == a[0] as int * 16777216 + a[1] as int * 65536 + a[2] as int * 256 + a[3] as int, 0 <= a[3] < 256, a[0] >= 0, a[1] >= 0, a[2] >= 0;
        assert(y % 256 == b[3] as int) by (nonlinear_arith)
            requires y == b[0] as int * 16777216 + b[1] as int * 65536 + b[2] as int * 256 + b[3] as int, 0 <= b[3] < 256, b[0] >= 0, b[1] >= 0, b[2] >= 0;
    }
    assert(a[2] == b[2]) by {
        assert((x / 256) % 256 == a[2] as int) by (nonlinear_arith)
            requires x == a[0] as int * 16777216 + a[1] as int * 65536 + a[2] as int * 256 + a[3] as int, 0 <= a[3] < 256, 0 <= a[2] < 256, a[0] >= 0, a[1] >= 0;
        assert((y / 256) % 256 == b[2] as int) by (nonlinear_arith)
            requires y == b[0] as int * 16777216 + b[1] as int * 65536 + b[2] as int * 256 + b[3] as int, 0 <= b[3] < 256, 0 <= b[2] < 256, b[0] >= 0, b[1] >= 0;
    }
    assert(a[1] == b[1]) by {
        assert((x / 65536) % 256 == a[1] as int) by (nonlinear_arith)
            requires x == a[0] as int * 16777216 + a[1] as int * 65536 + a[2] as int * 256 + a[3] as int, 0 <= a[3] < 256, 0 <= a[2] < 256, 0 <= a[1] < 256, a[0] >= 0;
        assert((y / 65536) % 256 == b[1] as int) by (nonlinear_arith)
            requires y == b[0] as int * 16777216 + b[1] as int * 65536 + b[2] as int * 256 + b[3] as int, 0 <= b[3] < 256, 0 <= b[2] < 256, 0 <= b[1] < 256, b[0] >= 0;
    }
    assert(a[0] == b[0]);
    assert(a =~= b);
}

/// Every `A` record of an answer section is remembered, not only the last
/// one: when the record at position `k` names address `a` and no later
/// record names `a`, the cache maps `a` to that record's owner name.
pub proof fn law_learn_keeps_every_a_record(
    cache: Map<u32, Seq<char>>,
    answers: Seq<DnsAnswerView>,
    k: int,
    a: [u8; 4],
)
    requires
        0 <= k < answers.len(),
        answers[k].address == Some(a),
        forall|j: int| k < j < answers.len() ==> answers[j].address != Some(a),
    ensures
        learn(cache, answers).contains_key(ipv4_number(a)),
        learn(cache, answers)[ipv4_number(a)] == answers[k].name,
    decreases answers.len(),
{
    let n = answers.len() - 1;
    if k < n {
        let init = answers.drop_last();
        assert forall|j: int| k < j < init.len() implies init[j].address != Some(a) by {
            assert(init[j] == answers[j]);
        }
        assert(init[k] == answers[k]);
        law_learn_keeps_every_a_record(cache, init, k, a);
        assert(answers.last() == answers[n]);
        match answers.last().address {
            Some(b) => {
                if ipv4_number(b) == ipv4_number(a) {
                    lemma_ipv4_number_injective(a, b);
                }
            },
            None => {},
        }
    }
}

/// Addresses that no `A` record of an answer section names keep what the
/// cache held for them.
pub proof fn law_learn_leaves_other_addresses(cache: Map<u32, Seq<char>>, answers: Seq<DnsAnswerView>, key: u32)
    requires
        forall|j: int| 0 <= j < answers.len() ==> !(#[trigger] answers[j].address matches Some(b) && ipv4_number(b) == key),
    ensures
        learn(cache, answers).contains_key(key) == cache.contains_key(key),
        cache.contains_key(key) ==> learn(cache, answers)[key] == cache[key],
    decreases answers.len(),
{
    if answers.len() > 0 {
        let init = answers.drop_last();
        assert forall|j: int| 0 <= j < init.len() implies !(#[trigger] init[j].address matches Some(b) && ipv4_number(b) == key) by {
            assert(init[j] == answers[j]);
        }
        law_learn_leaves_other_addresses(cache, init, key);
        assert(answers.last() == answers[answers.len() - 1]);
    }
}

/// After a DNS response involving the container whose answer section holds,
/// at any position `k`, an `A` record for address `a` with owner `name`, and
/// no later record for `a`, a TCP segment of the container to `a` is
/// attributed to `name`: permitted when `name` is allowed, an alert
/// otherwise.
pub proof fn law_every_a_record_names_next_connection(
    s: SnifferView,
    response: DecodedFrameView,
    answers: Seq<DnsAnswerView>,
    k: int,
    segment: DecodedFrameView,
    a: [u8; 4],
    port: u16,
)
    requires
        is_dns_response(s, response),
        dns_response_answers(response.payload) == Some(answers),
        0 <= k < answers.len(),
        answers[k].address == Some(a),
        forall|j: int| k < j < answers.len() ==> answers[j].address != Some(a),
        is_container_tcp(s, segment),
        destination_of(segment) == a,
        segment.transport matches Transport::Tcp { destination_port, .. } && destination_port == port,
    ensures
        frame_outcome(frame_outcome(s, response).0, segment).1 == (if s.allowed.contains(
            answers[k].name,
        ) {
            VerdictView::Permitted { domain: answers[k].name, address: a, port }
        } else {
            VerdictView::Alert { domain: answers[k].name, address: a, port }
        }),
{
    law_learn_keeps_every_a_record(s.cache, answers, k, a);
}

/// Every TCP segment over IPv4 sent from the container's address gets a
/// verdict on its destination, whatever its ports: permitted when a DNS
/// answer named the destination with an allowed name, an alert naming that
/// name when it is not allowed, and an alert with the unknown-domain label
/// when no DNS answer named the destination. The state does not change.
pub proof fn law_every_container_segment_is_judged(
    s: SnifferView,
    f: DecodedFrameView,
    src: [u8; 4],
    dst: [u8; 4],
    source_port: u16,
    destination_port: u16,
)
    requires
        f.ipv4 == Some((src, dst)),
        dotted_quad(src) == s.container_ip,
        f.transport == (Transport::Tcp { source_port, destination_port }),
    ensures
        frame_outcome(s, f).0 == s,
        frame_outcome(s, f).1 == (if s.cache.contains_key(ipv4_number(dst)) {
            if s.allowed.contains(s.cache[ipv4_number(dst)]) {
                VerdictView::Permitted {
                    domain: s.cache[ipv4_number(dst)],
                    address: dst,
                    port: destination_port,
                }
            } else {
                VerdictView::Alert {
                    domain: s.cache[ipv4_number(dst)],
                    address: dst,
                    port: destination_port,
                }
            }
        } else {
            VerdictView::Alert { domain: unknown_domain(), address: dst, port: destination_port }
        }),
{
}

/// The state of the sniffer of one build container.
pub struct Sniffer {
    container_ip: String,
    allowed: DomainSet,
    cache: HashMap<u32, String>,
}

impl View for Sniffer {
    type V = SnifferView;

    closed spec fn view(&self) -> SnifferView {
        SnifferView {
            container_ip: self.container_ip@,
            allowed: self.allowed@,
            cache: self.cache@.map_values(|s: String| s@),
        }
    }
}

impl Sniffer {
    /// A sniffer for the container at `container_ip`, allowed to contact
    /// `allowed`, that has learnt no DNS name yet.
    pub fn new(container_ip: String, allowed: DomainSet) -> (s: Self)
        ensures
            s@.container_ip == container_ip@,
            s@.allowed == allowed@,
            s@.cache == Map::<u32, Seq<char>>::empty(),
    {
        let s = Sniffer { container_ip, allowed, cache: HashMap::new() };
        assert(s@.cache =~= Map::<u32, Seq<char>>::empty());
        s
    }

    /// Remembers the `A` records of a DNS response's answer section.
    pub fn learn_answers(&mut self, answers: &Vec<DnsAnswer>) -> (v: Verdict)
        ensures
            final(self)@ == answers_outcome(old(self)@, answer_views(answers@)).0,
            v@ == answers_outcome(old(self)@, answer_views(answers@)).1,
    {
        let ghost s0 = self@;
        let ghost all = answer_views(answers@);
        let mut names: Vec<String> = Vec::new();
        let mut i: usize = 0;
        assert(all.take(0) =~= Seq::<DnsAnswerView>::empty());
        assert(string_views(names@) =~= Seq::<Seq<char>>::empty());
        while i < answers.len()
            invariant
                0 <= i <= answers@.len(),
                all == answer_views(answers@),
                self@.container_ip == s0.container_ip,
                self@.allowed == s0.allowed,
                self@.cache == learn(s0.cache, all.take(i as int)),
                string_views(names@) == resolved_names(all.take(i as int)),
            decreases answers@.len() - i,
        {
            let ghost before_cache = self.cache@;
            let ghost before_names = names@;
            assert(all.take(i + 1).drop_last() =~= all.take(i as int));
            assert(all.take(i + 1).last() == answers@[i as int]@);
            match answers[i].address {
                Some(a) => {
                    let key = ipv4_to_number(a);
                    self.cache.insert(key, answers[i].name.clone());
                    names.push(answers[i].name.clone());
                    proof {
                        assert(self.cache@.map_values(|s: String| s@) =~= before_cache.map_values(
                            |s: String| s@,
                        ).insert(key, answers@[i as int].name@));
                        assert(string_views(names@) =~= string_views(before_names).push(
                            answers@[i as int].name@,
                        ));
                    }
                },
                None => {},
            }
            i = i + 1;
        }
        assert(all.take(i as int) =~= all);
        proof {
            assert(self@ =~= answers_outcome(s0, all).0);
        }
        Verdict::Resolved { names }
    }

    /// Judges a TCP connection of the container to `address`:`port`.
    pub fn judge_connection(&self, address: [u8; 4], port: u16) -> (v: Verdict)
        ensures
            v@ == connection_verdict(self@, address, port),
    {
        let key = ipv4_to_number(address);
        match self.cache.get(&key) {
            Some(d) => {
                let domain = d.clone();
                assert(domain@ == resolve(self@.cache, address));
                if self.allowed.contains(&domain) {
                    Verdict::Permitted { domain, address, port }
                } else {
                    Verdict::Alert { domain, address, port }
                }
            },
            None => Verdict::Alert { domain: String::from_str("UNKNOWN DOMAIN"), address, port },
        }
    }

    /// Looks at a decoded frame: learns from a DNS response, judges a TCP
    /// segment of the container, ignores the rest.
    pub fn observe(&mut self, frame: &DecodedFrame) -> (v: Verdict)
        ensures
            final(self)@ == frame_outcome(old(self)@, frame@).0,
            v@ == frame_outcome(old(self)@, frame@).1,
    {
        match frame.ipv4 {
            None => Verdict::Ignored,
            Some((src, dst)) => match frame.transport {
                Transport::Udp { source_port, .. } => {
                    if source_port == 53 && frame.payload.len() > 0 && (format_ipv4(src)
                        == self.container_ip || format_ipv4(dst) == self.container_ip) {
                        match parse_dns_answers(frame.payload.as_slice()) {
                            Some(answers) => self.learn_answers(&answers),
                            None => Verdict::Ignored,
                        }
                    } else {
                        Verdict::Ignored
                    }
                },
                Transport::Tcp { destination_port, .. } => {
                    let source_text = format_ipv4(src);
                    if source_text == self.container_ip {
                        self.judge_connection(dst, destination_port)
                    } else {
                        Verdict::Ignored
                    }
                },
                Transport::Other => Verdict::Ignored,
            },
        }
    }

    /// Looks at a captured Ethernet frame.
    pub fn process_frame(&mut self, frame: &[u8]) -> (v: Verdict)
        ensures
            final(self)@ == raw_frame_outcome(old(self)@, frame@).0,
            v@ == raw_frame_outcome(old(self)@, frame@).1,
    {
        match decode_ethernet_frame(frame) {
            Some(f) => self.observe(&f),
            None => Verdict::Ignored,
        }
    }
}

} // verus!
