use vstd::prelude::*;
use vstd::string::*;

use crate::text::{decimal, u64_to_decimal};
use crate::time::TimeSpan;

verus! {

/// An error while sending a magic packet.
#[derive(Debug)]
pub struct WolError(String);

impl View for WolError {
    type V = Seq<char>;

    closed spec fn view(&self) -> Seq<char> {
        self.0@
    }
}

impl WolError {
    pub fn new(message: &str) -> (e: WolError)
        ensures
            e@ == message@,
    {
        WolError(message.to_owned())
    }

    /// The message, as the error displays.
    pub fn message(&self) -> (m: String)
        ensures
            m@ == self@,
    {
        self.0.clone()
    }
}

/// A MAC address that does not have the `XX:XX:XX:XX:XX:XX` shape; it
/// holds the text that was given.
#[derive(Debug, PartialEq, Eq)]
pub struct MacParseError(String);

impl View for MacParseError {
    type V = Seq<char>;

    closed spec fn view(&self) -> Seq<char> {
        self.0@
    }
}

impl MacParseError {
    /// The text that failed to parse.
    pub fn input(&self) -> (s: String)
        ensures
            s@ == self@,
    {
        self.0.clone()
    }

    /// The message, as the error displays.
    pub fn message(&self) -> (m: String)
        ensures
            m@ == "invalid MAC address: "@ + self@,
    {
        let mut m = String::from_str("invalid MAC address: ");
        m.append(self.0.as_str());
        m
    }
}

/// Fields are separated by either `:` or `-`.
pub open spec fn is_mac_separator(c: char) -> bool {
    c == ':' || c == '-'
}

/// The fields of `s` between separators, in order; there is always at least
/// one, and `n` separators make `n + 1` fields.
pub open spec fn split_fields(s: Seq<char>) -> Seq<Seq<char>>
    decreases s.len(),
{
    if s.len() == 0 {
        seq![Seq::<char>::empty()]
    } else {
        let prev = split_fields(s.drop_last());
        if is_mac_separator(s.last()) {
            prev.push(Seq::<char>::empty())
        } else {
            prev.update(prev.len() - 1, prev.last().push(s.last()))
        }
    }
}

proof fn lemma_split_fields_nonempty(s: Seq<char>)
    ensures
        split_fields(s).len() >= 1,
    decreases s.len(),
{
    if s.len() > 0 {
        lemma_split_fields_nonempty(s.drop_last());
    }
}

/// The value of a hexadecimal digit, either case.
pub open spec fn hex_value(c: char) -> Option<nat> {
    let u = c as u32;
    if 48 <= u <= 57 {
        Some((u - 48) as nat)
    } else if 97 <= u <= 102 {
        Some((u - 87) as nat)
    } else if 65 <= u <= 70 {
        Some((u - 55) as nat)
    } else {
        None
    }
}

/// The octet a field stands for: a field is exactly two ASCII hex digits
/// (`XX`), read in base 16; anything else stands for no octet.
pub open spec fn octet_value(f: Seq<char>) -> Option<u8> {
    if f.len() != 2 {
        None
    } else {
        match (hex_value(f[0]), hex_value(f[1])) {
            (Some(a), Some(b)) => Some((a * 16 + b) as u8),
            _ => None,
        }
    }
}

/// What `s` reads as a MAC address: six fields, each an octet.
pub open spec fn spec_parse_mac(s: Seq<char>) -> Option<Seq<u8>> {
    let f = split_fields(s);
    if f.len() == 6 && (forall|k: int| 0 <= k < 6 ==> (#[trigger] octet_value(f[k])) is Some) {
        Some(Seq::new(6, |k: int| octet_value(f[k])->0))
    } else {
        None
    }
}

fn hex_digit(c: char) -> (v: Option<u8>)
    ensures
        match hex_value(c) {
            Some(h) => v == Some(h as u8) && h < 16,
            None => v is None,
        },
{
    let u = c as u32;
    if 48 <= u && u <= 57 {
        Some((u - 48) as u8)
    } else if 97 <= u && u <= 102 {
        Some((u - 87) as u8)
    } else if 65 <= u && u <= 70 {
        Some((u - 55) as u8)
    } else {
        None
    }
}

fn octet(f: &Vec<char>) -> (v: Option<u8>)
    ensures
        v == octet_value(f@),
{
    if f.len() != 2 {
        return None;
    }
    match (hex_digit(f[0]), hex_digit(f[1])) {
        (Some(a), Some(b)) => Some(a * 16 + b),
        _ => None,
    }
}

/// Parse `XX:XX:XX:XX:XX:XX` (or `-` separated) into six octets.
pub fn parse_mac(value: &str) -> (r: Result<[u8; 6], MacParseError>)
    ensures
        match r {
            Ok(mac) => spec_parse_mac(value@) == Some(mac@),
            Err(e) => spec_parse_mac(value@) is None && e@ == value@,
        },
{
    let n = value.unicode_len();
    let mut done: Vec<Vec<char>> = Vec::new();
    let mut cur: Vec<char> = Vec::new();
    let mut i: usize = 0;
    assert(value@.take(0) =~= Seq::<char>::empty());
    while i < n
        invariant
            n == value@.len(),
            i <= n,
            done@.map_values(|v: Vec<char>| v@).push(cur@) == split_fields(value@.take(i as int)),
        decreases n - i,
    {
        let c = value.get_char(i);
        let ghost before = done@.map_values(|v: Vec<char>| v@).push(cur@);
        assert(value@.take(i + 1).drop_last() =~= value@.take(i as int));
        if c == ':' || c == '-' {
            let field = cur;
            done.push(field);
            cur = Vec::new();
            assert(done@.map_values(|v: Vec<char>| v@).push(cur@) =~= before.push(Seq::<char>::empty()));
        } else {
            cur.push(c);
            assert(done@.map_values(|v: Vec<char>| v@).push(cur@) =~= before.update(
                before.len() - 1,
                before.last().push(c),
            ));
        }
        i = i + 1;
    }
    assert(value@.take(n as int) =~= value@);
    let ghost fields = split_fields(value@);
    done.push(cur);
    assert(done@.map_values(|v: Vec<char>| v@) =~= fields);
    if done.len() != 6 {
        return Err(MacParseError(value.to_owned()));
    }
    let mut octets: Vec<u8> = Vec::new();
    let mut k: usize = 0;
    while k < 6
        invariant
            k <= 6,
            done@.len() == 6,
            done@.map_values(|v: Vec<char>| v@) == fields,
            fields == split_fields(value@),
            octets@.len() == k,
            forall|j: int| 0 <= j < k ==> octet_value(fields[j]) == Some(#[trigger] octets@[j]),
        decreases 6 - k,
    {
        assert(done@[k as int]@ == fields[k as int]);
        match octet(&done[k]) {
            Some(v) => octets.push(v),
            None => {
                return Err(MacParseError(value.to_owned()));
            },
        }
        k = k + 1;
    }
    let mac = [octets[0], octets[1], octets[2], octets[3], octets[4], octets[5]];
    assert(mac@ =~= Seq::new(6, |j: int| octet_value(fields[j])->0));
    Ok(mac)
}

/// Length of a Wake-on-LAN magic packet: a six-byte sync header followed by
/// the MAC address sixteen times.
pub const MAGIC_PACKET_LEN: usize = 102;

/// What a magic packet for `mac` holds at position `i`.
pub open spec fn magic_packet_byte(mac: Seq<u8>, i: int) -> u8 {
    if i < 6 {
        0xFFu8
    } else {
        mac[(i - 6) % 6]
    }
}

/// The magic packet for `mac`, as a sequence of bytes.
pub open spec fn spec_magic_packet(mac: Seq<u8>) -> Seq<u8> {
    Seq::new(102, |i: int| magic_packet_byte(mac, i))
}

/// A WoL magic packet: six `0xFF` bytes followed by the MAC repeated 16 times.
pub fn magic_packet(mac: &[u8; 6]) -> (packet: Vec<u8>)
    ensures
        packet@ == spec_magic_packet(mac@),
        packet@.len() == 102,
        forall|i: int| 0 <= i < 6 ==> packet@[i] == 0xFFu8,
        forall|i: int| 6 <= i < 102 ==> packet@[i] == mac@[(i - 6) % 6],
{
    let mut packet: Vec<u8> = Vec::with_capacity(MAGIC_PACKET_LEN);
    let mut i: usize = 0;
    while i < 6
        invariant
            i <= 6,
            packet@.len() == i,
            forall|k: int| 0 <= k < i ==> packet@[k] == 0xFFu8,
        decreases 6 - i,
    {
        packet.push(0xFF);
        i = i + 1;
    }
    let mut rep: usize = 0;
    while rep < 16
        invariant
            rep <= 16,
            mac@.len() == 6,
            packet@.len() == 6 + 6 * rep,
            forall|k: int| 0 <= k < packet@.len() ==> packet@[k] == magic_packet_byte(mac@, k),
        decreases 16 - rep,
    {
        let mut j: usize = 0;
        while j < 6
            invariant
                j <= 6,
                rep < 16,
                mac@.len() == 6,
                packet@.len() == 6 + 6 * rep + j,
                forall|k: int| 0 <= k < packet@.len() ==> packet@[k] == magic_packet_byte(mac@, k),
            decreases 6 - j,
        {
            let ghost pos: int = packet@.len() as int;
            assert((pos - 6) % 6 == j as int) by (nonlinear_arith)
                requires pos == 6 + 6 * rep + j, j < 6;
            packet.push(mac[j]);
            j = j + 1;
        }
        rep = rep + 1;
    }
    assert(packet@ =~= spec_magic_packet(mac@));
    packet
}

/// A magic packet is six `0xFF` bytes and then the MAC itself sixteen
/// times over: byte `j` of the `k`-th copy is byte `j` of the MAC, unchanged.
pub proof fn lemma_magic_packet_repeats_the_mac(mac: Seq<u8>)
    requires
        mac.len() == 6,
    ensures
        spec_magic_packet(mac).len() == 102,
        forall|i: int| 0 <= i < 6 ==> spec_magic_packet(mac)[i] == 0xFFu8,
        forall|k: int, j: int|
            0 <= k < 16 && 0 <= j < 6 ==> #[trigger] spec_magic_packet(mac)[6 + 6 * k + j] == mac[j],
{
    assert forall|k: int, j: int| 0 <= k < 16 && 0 <= j < 6 implies #[trigger] spec_magic_packet(mac)[6
        + 6 * k + j] == mac[j] by {
        assert((6 + 6 * k + j - 6) % 6 == j) by (nonlinear_arith)
            requires 0 <= k < 16, 0 <= j < 6;
        assert(6 + 6 * k + j < 102) by (nonlinear_arith)
            requires 0 <= k < 16, 0 <= j < 6;
    }
}

/// Where and what to send a magic packet for one machine.
#[derive(Clone, Debug)]
pub struct UdpMagicPacketSender {
    pub mac: [u8; 6],
    pub broadcast: String,
    pub port: u16,
}

impl UdpMagicPacketSender {
    pub fn new(mac: [u8; 6], broadcast: String, port: u16) -> (s: UdpMagicPacketSender)
        ensures
            s.mac == mac,
            s.broadcast == broadcast,
            s.port == port,
    {
        UdpMagicPacketSender { mac, broadcast, port }
    }

    /// The datagram to send: the magic packet for this sender's MAC.
    pub fn packet(&self) -> (p: Vec<u8>)
        ensures
            p@ == spec_magic_packet(self.mac@),
    {
        magic_packet(&self.mac)
    }

    /// The address the datagram goes to: `{broadcast}:{port}`.
    pub fn destination(&self) -> (d: String)
        ensures
            d@ == self.broadcast@ + ":"@ + decimal(self.port as nat),
    {
        let mut d = self.broadcast.clone();
        d.append(":");
        let port = u64_to_decimal(self.port as u64);
        d.append(port.as_str());
        d
    }
}

/// What one wake request did about the magic packet.
#[derive(Debug, Clone, Copy, PartialEq, Eq, Structural)]
pub enum WakeSignal {
    Sent,
    /// Suppressed because a packet was sent less than the rate limit ago.
    RateLimited,
}

/// Time from `earlier` to `later`, or zero when `later` comes first, as
/// `Instant::duration_since` gives it.
pub open spec fn elapsed(earlier: u64, later: u64) -> nat {
    if later >= earlier {
        (later - earlier) as nat
    } else {
        0
    }
}

/// Whether a packet may go at `now`, given when the last one went.
pub open spec fn packet_permitted(last_sent: Option<u64>, min_interval: nat, now: u64) -> bool {
    match last_sent {
        None => true,
        Some(previous) => elapsed(previous, now) >= min_interval,
    }
}

/// The state behind the magic packet rate limit: at most one packet per
/// `min_interval`. A request that finds a packet is not permitted is
/// answered `RateLimited`; only a packet that was sent is recorded, so a
/// failed send leaves the next request free to try again.
#[derive(Clone, Copy, Debug)]
pub struct RateLimiter {
    pub min_interval: TimeSpan,
    /// When the last packet went, in nanoseconds since the caller's origin.
    pub last_sent: Option<u64>,
}

impl RateLimiter {
    pub fn new(min_interval: TimeSpan) -> (r: RateLimiter)
        ensures
            r.min_interval == min_interval,
            r.last_sent is None,
    {
        RateLimiter { min_interval, last_sent: None }
    }

    /// Whether a packet may be sent at `now`.
    pub fn permits(&self, now: u64) -> (b: bool)
        ensures
            b == packet_permitted(self.last_sent, self.min_interval@, now),
    {
        match self.last_sent {
            None => true,
            Some(previous) => {
                let since: u64 = if now >= previous {
                    now - previous
                } else {
                    0
                };
                since as u128 >= self.min_interval.as_nanos()
            },
        }
    }

    /// Takes in how the send at `now` went: a packet that went out is
    /// recorded; a send that failed changes nothing, so the next request may
    /// try again at once.
    pub fn after_send(&mut self, now: u64, delivered: bool)
        ensures
            final(self).min_interval == old(self).min_interval,
            delivered ==> final(self).last_sent == Some(now),
            !delivered ==> final(self).last_sent == old(self).last_sent,
    {
        if delivered {
            self.last_sent = Some(now);
        }
    }
}

/// Two packets never go closer together than the rate limit: once a packet
/// went at `sent`, another is permitted at a later `now` exactly when at
/// least `min_interval` has passed.
pub proof fn lemma_packets_spaced_by_rate_limit(min_interval: TimeSpan, sent: u64, now: u64)
    requires
        sent <= now,
    ensures
        packet_permitted(Some(sent), min_interval@, now) <==> now - sent >= min_interval@,
{
}

/// The hex digit for `d < 16`, in upper or lower case.
pub open spec fn hex_digit_char(d: nat, upper: bool) -> char {
    if d < 10 {
        (48 + d) as char
    } else if upper {
        (55 + d) as char
    } else {
        (87 + d) as char
    }
}

/// An octet written as two hex digits, each letter digit in the case its
/// flag picks.
pub open spec fn octet_text(b: u8, upper_high: bool, upper_low: bool) -> Seq<char> {
    seq![hex_digit_char(b as nat / 16, upper_high), hex_digit_char(b as nat % 16, upper_low)]
}

/// `fields` written one after another, `seps[k]` between field `k` and
/// field `k + 1`.
pub open spec fn join_fields(fields: Seq<Seq<char>>, seps: Seq<char>) -> Seq<char>
    decreases fields.len(),
{
    if fields.len() <= 1 {
        if fields.len() == 1 {
            fields[0]
        } else {
            Seq::empty()
        }
    } else {
        join_fields(fields.drop_last(), seps).push(seps[fields.len() - 2]) + fields.last()
    }
}

/// A MAC address written as six pairs of hex digits with a separator
/// between each two; `upper[2 * k]` and `upper[2 * k + 1]` pick the case of
/// the letter digits of octet `k`.
pub open spec fn mac_text(mac: Seq<u8>, seps: Seq<char>, upper: Seq<bool>) -> Seq<char> {
    join_fields(Seq::new(6, |k: int| octet_text(mac[k], upper[2 * k], upper[2 * k + 1])), seps)
}

pub open spec fn has_no_separator(t: Seq<char>) -> bool {
    forall|i: int| 0 <= i < t.len() ==> !is_mac_separator(#[trigger] t[i])
}

proof fn lemma_split_extends_last_field(p: Seq<char>, t: Seq<char>)
    requires
        has_no_separator(t),
    ensures
        split_fields(p + t) == split_fields(p).update(
            split_fields(p).len() - 1,
            split_fields(p).last() + t,
        ),
    decreases t.len(),
{
    lemma_split_fields_nonempty(p);
    let f = split_fields(p);
    if t.len() == 0 {
        assert(p + t =~= p);
        assert(f.last() + t =~= f.last());
        assert(f.update(f.len() - 1, f.last() + t) =~= f);
    } else {
        let u = t.drop_last();
        assert(has_no_separator(u));
        lemma_split_extends_last_field(p, u);
        assert((p + t).drop_last() =~= p + u);
        assert((p + t).last() == t.last());
        assert(!is_mac_separator(t[t.len() - 1]));
        let prev = split_fields(p + u);
        assert(prev.last() =~= f.last() + u);
        assert(prev.last().push(t.last()) =~= f.last() + t);
        assert(split_fields(p + t) =~= f.update(f.len() - 1, f.last() + t));
    }
}

proof fn lemma_split_join(fields: Seq<Seq<char>>, seps: Seq<char>)
    requires
        fields.len() >= 1,
        seps.len() >= fields.len() - 1,
        forall|k: int| 0 <= k < fields.len() ==> has_no_separator(#[trigger] fields[k]),
        forall|k: int| 0 <= k < seps.len() ==> is_mac_separator(#[trigger] seps[k]),
    ensures
        split_fields(join_fields(fields, seps)) == fields,
    decreases fields.len(),
{
    let last = fields.last();
    assert(has_no_separator(fields[fields.len() - 1]));
    if fields.len() == 1 {
        let e = Seq::<char>::empty();
        lemma_split_extends_last_field(e, last);
        assert(e + last =~= last);
        assert(split_fields(e) == seq![e]);
        assert(seq![e].update(0, e + last) =~= fields);
    } else {
        let rest = fields.drop_last();
        assert forall|k: int| 0 <= k < rest.len() implies has_no_separator(#[trigger] rest[k]) by {
            assert(rest[k] == fields[k]);
        }
        lemma_split_join(rest, seps);
        let j = join_fields(rest, seps);
        let sep = seps[fields.len() - 2];
        assert(is_mac_separator(sep));
        assert(j.push(sep).drop_last() =~= j);
        assert(split_fields(j.push(sep)) == rest.push(Seq::<char>::empty()));
        lemma_split_extends_last_field(j.push(sep), last);
        let g = rest.push(Seq::<char>::empty());
        assert(g.last() + last =~= last);
        assert(g.update(g.len() - 1, last) =~= fields);
    }
}

proof fn lemma_octet_text_reads_back(b: u8, upper_high: bool, upper_low: bool)
    ensures
        octet_value(octet_text(b, upper_high, upper_low)) == Some(b),
        has_no_separator(octet_text(b, upper_high, upper_low)),
{
    let hi = b as nat / 16;
    let lo = b as nat % 16;
    assert(hi < 16 && lo < 16);
    assert(hex_value(hex_digit_char(hi, upper_high)) == Some(hi));
    assert(hex_value(hex_digit_char(lo, upper_low)) == Some(lo));
    assert(hi * 16 + lo == b as nat);
    let t = octet_text(b, upper_high, upper_low);
    assert(!is_mac_separator(t[0]) && !is_mac_separator(t[1]));
}

/// A MAC address written as `XX:XX:XX:XX:XX:XX`, with `:` or `-` between
/// each two octets (in any mix) and each hex digit in either case (in any
/// mix), parses back to the six octets written.
pub proof fn lemma_parse_mac_reads_written_address(mac: Seq<u8>, seps: Seq<char>, upper: Seq<bool>)
    requires
        mac.len() == 6,
        seps.len() == 5,
        upper.len() == 12,
        forall|k: int| 0 <= k < 5 ==> is_mac_separator(#[trigger] seps[k]),
    ensures
        spec_parse_mac(mac_text(mac, seps, upper)) == Some(mac),
{
    let fields = Seq::new(6, |k: int| octet_text(mac[k], upper[2 * k], upper[2 * k + 1]));
    assert forall|k: int| 0 <= k < fields.len() implies has_no_separator(#[trigger] fields[k]) by {
        lemma_octet_text_reads_back(mac[k], upper[2 * k], upper[2 * k + 1]);
    }
    lemma_split_join(fields, seps);
    assert forall|k: int| 0 <= k < 6 implies #[trigger] octet_value(fields[k]) == Some(mac[k]) by {
        lemma_octet_text_reads_back(mac[k], upper[2 * k], upper[2 * k + 1]);
    }
    assert(Seq::new(6, |k: int| octet_value(fields[k])->0) =~= mac);
}

/// The times at which packets go out over a run of wake requests, each
/// given as its time and whether the send would succeed: a request sends
/// where the limit permits, and only a send that succeeds is recorded.
pub open spec fn packets_sent(min_interval: nat, last_sent: Option<u64>, requests: Seq<(u64, bool)>) -> Seq<u64>
    decreases requests.len(),
{
    if requests.len() == 0 {
        Seq::empty()
    } else {
        let (now, delivered) = requests[0];
        if packet_permitted(last_sent, min_interval, now) && delivered {
            seq![now] + packets_sent(min_interval, Some(now), requests.drop_first())
        } else {
            packets_sent(min_interval, last_sent, requests.drop_first())
        }
    }
}

/// Over any run of requests in time order, the packets that go out are
/// spaced by at least the rate limit, and none goes out within the limit of
/// one sent before the run.
pub proof fn lemma_run_of_requests_spaces_packets(min_interval: nat, last_sent: Option<u64>, requests: Seq<(u64, bool)>)
    requires
        forall|i: int, j: int| 0 <= i <= j < requests.len() ==> requests[i].0 <= requests[j].0,
        last_sent matches Some(p) ==> forall|i: int| 0 <= i < requests.len() ==> p <= #[trigger] requests[i].0,
    ensures
        forall|i: int| 0 <= i < packets_sent(min_interval, last_sent, requests).len() - 1 ==>
            packets_sent(min_interval, last_sent, requests)[i] + min_interval
                <= #[trigger] packets_sent(min_interval, last_sent, requests)[i + 1],
        last_sent matches Some(p) ==> forall|i: int| 0 <= i < packets_sent(min_interval, last_sent, requests).len()
            ==> p + min_interval <= #[trigger] packets_sent(min_interval, last_sent, requests)[i],
        forall|i: int| 0 <= i < packets_sent(min_interval, last_sent, requests).len() ==>
            exists|j: int| 0 <= j < requests.len() && requests[j].0 == #[trigger] packets_sent(min_interval, last_sent, requests)[i],
    decreases requests.len(),
{
    if requests.len() > 0 {
        let rest = requests.drop_first();
        let (now, delivered) = requests[0];
        assert forall|i: int, j: int| 0 <= i <= j < rest.len() implies rest[i].0 <= rest[j].0 by {
            assert(rest[i] == requests[i + 1] && rest[j] == requests[j + 1]);
        }
        if packet_permitted(last_sent, min_interval, now) && delivered {
            assert forall|i: int| 0 <= i < rest.len() implies now <= #[trigger] rest[i].0 by {
                assert(rest[i] == requests[i + 1]);
            }
            lemma_run_of_requests_spaces_packets(min_interval, Some(now), rest);
            let tail = packets_sent(min_interval, Some(now), rest);
            let all = packets_sent(min_interval, last_sent, requests);
            assert(all == seq![now] + tail);
            assert forall|i: int| 0 <= i < all.len() implies exists|j: int| 0 <= j < requests.len() && requests[j].0 == #[trigger] all[i] by {
                if i == 0 {
                    assert(requests[0].0 == all[0]);
                } else {
                    assert(all[i] == tail[i - 1]);
                    let j = choose|j: int| 0 <= j < rest.len() && rest[j].0 == tail[i - 1];
                    assert(requests[j + 1].0 == all[i]);
                }
            }
            if let Some(p) = last_sent {
                assert(p <= now);
                assert forall|i: int| 0 <= i < all.len() implies p + min_interval <= #[trigger] all[i] by {
                    if i > 0 {
                        assert(all[i] == tail[i - 1]);
                    }
                }
            }
            assert forall|i: int| 0 <= i < all.len() - 1 implies all[i] + min_interval <= #[trigger] all[i + 1] by {
                if i == 0 {
                    assert(all[1] == tail[0]);
                    assert(now + min_interval <= tail[0]);
                } else {
                    assert(all[i] == tail[i - 1] && all[i + 1] == tail[i]);
                    let k = i - 1;
                    assert(0 <= k < tail.len() - 1);
                    assert(tail[k] + min_interval <= tail[k + 1]);
                }
            }
        } else {
            if let Some(p) = last_sent {
                assert forall|i: int| 0 <= i < rest.len() implies p <= #[trigger] rest[i].0 by {
                    assert(rest[i] == requests[i + 1]);
                }
            }
            lemma_run_of_requests_spaces_packets(min_interval, last_sent, rest);
            let all = packets_sent(min_interval, last_sent, requests);
            assert(all == packets_sent(min_interval, last_sent, rest));
            assert forall|i: int| 0 <= i < all.len() implies exists|j: int| 0 <= j < requests.len() && requests[j].0 == #[trigger] all[i] by {
                let j = choose|j: int| 0 <= j < rest.len() && rest[j].0 == all[i];
                assert(requests[j + 1].0 == all[i]);
            }
        }
    }
}

/// What each of a run of wake requests answers, each given as its time and
/// whether the send would succeed: `Sent` where a packet goes out,
/// `RateLimited` where the limit holds it back, and no signal (the send's
/// error) where a permitted send fails.
pub open spec fn request_signals(min_interval: nat, last_sent: Option<u64>, requests: Seq<(u64, bool)>) -> Seq<Option<WakeSignal>>
    decreases requests.len(),
{
    if requests.len() == 0 {
        Seq::empty()
    } else {
        let (now, delivered) = requests[0];
        if packet_permitted(last_sent, min_interval, now) {
            if delivered {
                seq![Some(WakeSignal::Sent)] + request_signals(min_interval, Some(now), requests.drop_first())
            } else {
                seq![None] + request_signals(min_interval, last_sent, requests.drop_first())
            }
        } else {
            seq![Some(WakeSignal::RateLimited)] + request_signals(min_interval, last_sent, requests.drop_first())
        }
    }
}

proof fn lemma_held_back_within_window(min_interval: nat, sent: u64, requests: Seq<(u64, bool)>)
    requires
        forall|i: int| 0 <= i < requests.len() ==> sent <= (#[trigger] requests[i]).0 && requests[i].0 < sent + min_interval,
    ensures
        packets_sent(min_interval, Some(sent), requests) == Seq::<u64>::empty(),
        request_signals(min_interval, Some(sent), requests) == Seq::new(requests.len(), |i: int| Some(WakeSignal::RateLimited)),
    decreases requests.len(),
{
    if requests.len() > 0 {
        let rest = requests.drop_first();
        assert(sent <= requests[0].0 && requests[0].0 < sent + min_interval);
        assert forall|i: int| 0 <= i < rest.len() implies sent <= (#[trigger] rest[i]).0 && rest[i].0 < sent + min_interval by {
            assert(rest[i] == requests[i + 1]);
        }
        lemma_held_back_within_window(min_interval, sent, rest);
        assert(request_signals(min_interval, Some(sent), requests) =~= Seq::new(requests.len(), |i: int| Some(WakeSignal::RateLimited)));
    }
}

/// A burst of requests produces one packet: where requests come within one
/// rate-limit window of the first, the limit permits a packet at the first,
/// and every send succeeds, exactly one packet goes out, at the first
/// request, which is answered `Sent`; every other request is answered
/// `RateLimited`.
pub proof fn lemma_burst_sends_one_packet(min_interval: nat, last_sent: Option<u64>, requests: Seq<(u64, bool)>)
    requires
        requests.len() >= 1,
        packet_permitted(last_sent, min_interval, requests[0].0),
        forall|i: int| 0 <= i < requests.len() ==> (#[trigger] requests[i]).1,
        forall|i: int| 0 <= i < requests.len() ==> requests[0].0 <= (#[trigger] requests[i]).0
            && requests[i].0 < requests[0].0 + min_interval,
    ensures
        packets_sent(min_interval, last_sent, requests) == seq![requests[0].0],
        request_signals(min_interval, last_sent, requests) == seq![Some(WakeSignal::Sent)] + Seq::new(
            (requests.len() - 1) as nat,
            |i: int| Some(WakeSignal::RateLimited),
        ),
{
    let first = requests[0].0;
    let rest = requests.drop_first();
    assert(requests[0].1);
    assert forall|i: int| 0 <= i < rest.len() implies first <= (#[trigger] rest[i]).0 && rest[i].0 < first + min_interval by {
        assert(rest[i] == requests[i + 1]);
    }
    lemma_held_back_within_window(min_interval, first, rest);
    assert(packets_sent(min_interval, last_sent, requests) =~= seq![first]);
}

} // verus!
