//! Telemetry events for the presentation layer: per-peer statistics with
//! handshake age, and reachability latency.
use vstd::prelude::*;

verus! {

/// Latency reported when a reachability probe fails or times out.
pub const PROBE_FAILED_LATENCY: i64 = -1;

pub open spec fn digit_char(d: nat) -> char {
    if d == 0 {
        '0'
    } else if d == 1 {
        '1'
    } else if d == 2 {
        '2'
    } else if d == 3 {
        '3'
    } else if d == 4 {
        '4'
    } else if d == 5 {
        '5'
    } else if d == 6 {
        '6'
    } else if d == 7 {
        '7'
    } else if d == 8 {
        '8'
    } else {
        '9'
    }
}

/// The decimal text of `n`, without leading zeros.
pub open spec fn decimal(n: nat) -> Seq<char>
    decreases n,
{
    if n < 10 {
        seq![digit_char(n)]
    } else {
        decimal(n / 10).push(digit_char(n % 10))
    }
}

/// How long ago the last handshake was, if there was one.
#[derive(Clone, Copy, Debug, PartialEq, Eq, Structural)]
pub enum HandshakeAge {
    Unavailable,
    Elapsed { millis: u64 },
}

/// The age of a handshake at `now_ms` (both in milliseconds since the
/// epoch); a handshake stamped after `now_ms` counts as just now.
pub open spec fn age_of(now_ms: u64, last_handshake_ms: Option<u64>) -> HandshakeAge {
    match last_handshake_ms {
        None => HandshakeAge::Unavailable,
        Some(t) => HandshakeAge::Elapsed {
            millis: if now_ms >= t {
                (now_ms - t) as u64
            } else {
                0
            },
        },
    }
}

/// Milliseconds rounded to tenths of a second, halves up.
pub open spec fn tenths_of(millis: nat) -> nat {
    millis / 100 + if millis % 100 >= 50 {
        1nat
    } else {
        0nat
    }
}

/// The text shown for an age: seconds with one decimal, or `N/A`.
pub open spec fn age_text(age: HandshakeAge) -> Seq<char> {
    match age {
        HandshakeAge::Unavailable => seq!['N', '/', 'A'],
        HandshakeAge::Elapsed { millis } => decimal(tenths_of(millis as nat) / 10) + seq![
            '.',
            digit_char(tenths_of(millis as nat) % 10),
        ],
    }
}

/// Counters of one peer as the adapter reports them.
#[derive(Clone, Copy, Debug, PartialEq, Eq, Structural)]
pub struct PeerCounters {
    pub tx_bytes: u64,
    pub rx_bytes: u64,
    pub last_handshake_ms: Option<u64>,
}

/// A statistics event: bytes sent and received, and handshake age text.
#[derive(Debug)]
pub struct WgStatistics {
    pub up: u64,
    pub down: u64,
    pub handshake_age: String,
}

/// A reachability event: round-trip latency in milliseconds, or the
/// failure sentinel.
#[derive(Clone, Copy, Debug, PartialEq, Eq, Structural)]
pub struct WgPing {
    pub latency: i64,
}

fn digit_str(d: u64) -> (r: &'static str)
    requires
        d < 10,
    ensures
        r@ == seq![digit_char(d as nat)],
{
    if d == 0 {
        proof { reveal_strlit("0"); }
        "0"
    } else if d == 1 {
        proof { reveal_strlit("1"); }
        "1"
    } else if d == 2 {
        proof { reveal_strlit("2"); }
        "2"
    } else if d == 3 {
        proof { reveal_strlit("3"); }
        "3"
    } else if d == 4 {
        proof { reveal_strlit("4"); }
        "4"
    } else if d == 5 {
        proof { reveal_strlit("5"); }
        "5"
    } else if d == 6 {
        proof { reveal_strlit("6"); }
        "6"
    } else if d == 7 {
        proof { reveal_strlit("7"); }
        "7"
    } else if d == 8 {
        proof { reveal_strlit("8"); }
        "8"
    } else {
        proof { reveal_strlit("9"); }
        "9"
    }
}

/// The decimal text of `n`.
pub fn decimal_text(n: u64) -> (r: String)
    ensures
        r@ == decimal(n as nat),
    decreases n,
{
    if n < 10 {
        String::from_str(digit_str(n))
    } else {
        let mut s = decimal_text(n / 10);
        s.append(digit_str(n % 10));
        s
    }
}

/// The age of a handshake at `now_ms`.
pub fn handshake_age(now_ms: u64, last_handshake_ms: Option<u64>) -> (r: HandshakeAge)
    ensures
        r == age_of(now_ms, last_handshake_ms),
{
    match last_handshake_ms {
        None => HandshakeAge::Unavailable,
        Some(t) => HandshakeAge::Elapsed { millis: now_ms.saturating_sub(t) },
    }
}

impl HandshakeAge {
    /// Seconds with one decimal, or `N/A`.
    pub fn text(&self) -> (r: String)
        ensures
            r@ == age_text(*self),
    {
        match self {
            HandshakeAge::Unavailable => {
                proof { reveal_strlit("N/A"); }
                String::from_str("N/A")
            },
            HandshakeAge::Elapsed { millis } => {
                let tenths: u64 = *millis / 100 + if *millis % 100 >= 50 {
                    1u64
                } else {
                    0u64
                };
                let mut s = decimal_text(tenths / 10);
                proof { reveal_strlit("."); }
                s.append(".");
                s.append(digit_str(tenths % 10));
                assert(s@ =~= age_text(*self));
                s
            },
        }
    }
}

/// The statistics event for one peer at `now_ms`.
pub fn peer_statistics(peer: &PeerCounters, now_ms: u64) -> (r: WgStatistics)
    ensures
        r.up == peer.tx_bytes,
        r.down == peer.rx_bytes,
        r.handshake_age@ == age_text(age_of(now_ms, peer.last_handshake_ms)),
{
    let age = handshake_age(now_ms, peer.last_handshake_ms);
    WgStatistics { up: peer.tx_bytes, down: peer.rx_bytes, handshake_age: age.text() }
}

/// One statistics event per peer, in the adapter's order.
pub fn statistics_events(peers: &Vec<PeerCounters>, now_ms: u64) -> (r: Vec<WgStatistics>)
    ensures
        r@.len() == peers@.len(),
        forall|i: int|
            0 <= i < peers@.len() ==> {
                &&& (#[trigger] r@[i]).up == peers@[i].tx_bytes
                &&& r@[i].down == peers@[i].rx_bytes
                &&& r@[i].handshake_age@ == age_text(age_of(now_ms, peers@[i].last_handshake_ms))
            },
{
    let mut out: Vec<WgStatistics> = Vec::new();
    let mut i: usize = 0;
    while i < peers.len()
        invariant
            i <= peers@.len(),
            out@.len() == i,
            forall|k: int|
                0 <= k < i ==> {
                    &&& (#[trigger] out@[k]).up == peers@[k].tx_bytes
                    &&& out@[k].down == peers@[k].rx_bytes
                    &&& out@[k].handshake_age@ == age_text(
                        age_of(now_ms, peers@[k].last_handshake_ms),
                    )
                },
        decreases peers@.len() - i,
    {
        out.push(peer_statistics(&peers[i], now_ms));
        i = i + 1;
    }
    out
}

/// The zeroed event that tells observers the tunnel is down.
pub fn disconnected_statistics() -> (r: WgStatistics)
    ensures
        r.up == 0,
        r.down == 0,
        r.handshake_age@ == age_text(HandshakeAge::Unavailable),
{
    WgStatistics { up: 0, down: 0, handshake_age: HandshakeAge::Unavailable.text() }
}

/// The reachability event for one probe: its round-trip time, or the
/// failure sentinel when it failed or timed out.
pub fn ping_event(rtt_ms: Option<u32>) -> (r: WgPing)
    ensures
        r.latency == match rtt_ms {
            Some(t) => t as i64,
            None => PROBE_FAILED_LATENCY,
        },
{
    match rtt_ms {
        Some(t) => WgPing { latency: t as i64 },
        None => WgPing { latency: PROBE_FAILED_LATENCY },
    }
}

/// A handshake that happened just now shows as `0.0`, not as unavailable;
/// a peer without a handshake shows as `N/A`.
pub proof fn lemma_fresh_handshake_age(now_ms: u64)
    ensures
        age_text(age_of(now_ms, Some(now_ms))) == seq!['0', '.', '0'],
        age_text(age_of(now_ms, None)) == seq!['N', '/', 'A'],
{
    assert(decimal(0) == seq!['0']);
    assert(age_text(age_of(now_ms, Some(now_ms))) =~= seq!['0', '.', '0']);
}

} // verus!
