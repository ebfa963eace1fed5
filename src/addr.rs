//! Addresses, endpoints and allowed-IP blocks, parsed from text.
use base64::Engine;
use vstd::prelude::*;

verus! {

/// An IPv4 address, as its four octets, most significant first.
#[derive(Clone, Copy, Debug, PartialEq, Eq, Structural)]
pub struct Ipv4 {
    pub a: u8,
    pub b: u8,
    pub c: u8,
    pub d: u8,
}

/// A socket endpoint: an IPv4 or IPv6 address and a port.
#[derive(Clone, Copy, Debug, PartialEq, Eq, Structural)]
pub enum Endpoint {
    V4 { ip: Ipv4, port: u16 },
    V6 { addr6: u128, port: u16 },
}

pub open spec fn is_digit(c: char) -> bool {
    '0' <= c && c <= '9'
}

pub open spec fn all_digits(t: Seq<char>) -> bool {
    forall|k: int| 0 <= k < t.len() ==> is_digit(#[trigger] t[k])
}

pub open spec fn digit_value(c: char) -> nat {
    (c as u32 - '0' as u32) as nat
}

/// The number that a run of decimal digits denotes.
pub open spec fn digits_value(t: Seq<char>) -> nat
    decreases t.len(),
{
    if t.len() == 0 {
        0
    } else {
        digits_value(t.drop_last()) * 10 + digit_value(t.last())
    }
}

pub open spec fn pow10(n: nat) -> nat
    decreases n,
{
    if n == 0 {
        1
    } else {
        10 * pow10((n - 1) as nat)
    }
}

/// Whether `i` is the first position of `c` in `s`.
pub open spec fn is_first_index(s: Seq<char>, c: char, i: int) -> bool {
    0 <= i < s.len() && s[i] == c && forall|k: int| 0 <= k < i ==> s[k] != c
}

/// `s` cut at the first `c`: the text before it and the text after it.
pub open spec fn split_first(s: Seq<char>, c: char) -> Option<(Seq<char>, Seq<char>)> {
    if exists|i: int| is_first_index(s, c, i) {
        let i = choose|i: int| is_first_index(s, c, i);
        Some((s.subrange(0, i), s.subrange(i + 1, s.len() as int)))
    } else {
        None
    }
}

/// An octet in dotted-quad text: one to three digits, no leading zero, at most 255.
pub open spec fn octet_of(t: Seq<char>) -> Option<u8> {
    if 1 <= t.len() <= 3 && all_digits(t) && !(t.len() > 1 && t[0] == '0') && digits_value(t)
        <= 255 {
        Some(digits_value(t) as u8)
    } else {
        None
    }
}

/// A port: one or more digits, leading zeros allowed, at most 65535.
pub open spec fn port_of(t: Seq<char>) -> Option<u16> {
    if 1 <= t.len() && all_digits(t) && digits_value(t) <= 65535 {
        Some(digits_value(t) as u16)
    } else {
        None
    }
}

/// Dotted-quad text: four octets separated by three dots.
pub open spec fn ipv4_of(s: Seq<char>) -> Option<Ipv4> {
    match split_first(s, '.') {
        Some((t0, r0)) => match split_first(r0, '.') {
            Some((t1, r1)) => match split_first(r1, '.') {
                Some((t2, t3)) => match (octet_of(t0), octet_of(t1), octet_of(t2), octet_of(t3)) {
                    (Some(a), Some(b), Some(c), Some(d)) => Some(Ipv4 { a, b, c, d }),
                    _ => None,
                },
                None => None,
            },
            None => None,
        },
        None => None,
    }
}

/// The suffix that makes IPv6 address text a single-host network.
pub open spec fn host_prefix_text() -> Seq<char> {
    seq!['/', '1', '2', '8']
}

/// Endpoint text: an IPv4 address, a colon and a port; or an IPv6 address
/// in brackets, a colon and a port. The IPv6 address is read by `ipnet` as
/// a single-host network.
pub open spec fn endpoint_of(s: Seq<char>) -> Option<Endpoint> {
    if s.len() > 0 && s[0] == '[' {
        match split_first(s.drop_first(), ']') {
            Some((h, rest)) => if rest.len() > 0 && rest[0] == ':' {
                match (ipnet_parsed(h + host_prefix_text()), port_of(rest.drop_first())) {
                    (Some(Cidr::V6 { addr6, .. }), Some(port)) => Some(Endpoint::V6 { addr6, port }),
                    _ => None,
                }
            } else {
                None
            },
            None => None,
        }
    } else {
        match split_first(s, ':') {
            Some((h, p)) => match (ipv4_of(h), port_of(p)) {
                (Some(ip), Some(port)) => Some(Endpoint::V4 { ip, port }),
                _ => None,
            },
            None => None,
        }
    }
}

/// A prefix of a run of digits denotes no more than the whole run.
proof fn lemma_prefix_value_le(t: Seq<char>, k: int)
    requires
        all_digits(t),
        0 <= k <= t.len(),
    ensures
        digits_value(t.subrange(0, k)) <= digits_value(t),
    decreases t.len() - k,
{
    if k < t.len() {
        let u = t.drop_last();
        assert(all_digits(u)) by {
            assert forall|j: int| 0 <= j < u.len() implies is_digit(#[trigger] u[j]) by {
                assert(u[j] == t[j]);
            }
        }
        lemma_prefix_value_le(u, k);
        assert(u.subrange(0, k) =~= t.subrange(0, k));
    } else {
        assert(t.subrange(0, k) =~= t);
    }
}

proof fn lemma_pow10_bound(n: nat)
    requires
        n <= 5,
    ensures
        1 <= pow10(n) <= 100000,
{
    reveal_with_fuel(pow10, 6);
}

proof fn lemma_split_at(s: Seq<char>, c: char, i: int)
    requires
        is_first_index(s, c, i),
    ensures
        split_first(s, c) == Some((s.subrange(0, i), s.subrange(i + 1, s.len() as int))),
{
    let j = choose|j: int| is_first_index(s, c, j);
    assert(is_first_index(s, c, j));
    if j < i {
        assert(s[j] != c);
    } else if i < j {
        assert(s[i] != c);
    }
}

proof fn lemma_split_none(s: Seq<char>, c: char)
    requires
        forall|k: int| 0 <= k < s.len() ==> s[k] != c,
    ensures
        split_first(s, c) is None,
{
    if exists|i: int| is_first_index(s, c, i) {
        let i = choose|i: int| is_first_index(s, c, i);
        assert(s[i] == c);
    }
}

/// The characters of `s`, one per element.
fn chars_of(s: &str) -> (r: Vec<char>)
    ensures
        r@ == s@,
{
    let n = s.unicode_len();
    let mut r: Vec<char> = Vec::new();
    let mut i: usize = 0;
    while i < n
        invariant
            n == s@.len(),
            i <= n,
            r@ == s@.subrange(0, i as int),
        decreases n - i,
    {
        r.push(s.get_char(i));
        i = i + 1;
        assert(r@ =~= s@.subrange(0, i as int));
    }
    assert(r@ =~= s@);
    r
}

/// Splits `v[lo..hi]` at its first `c`, if any.
fn split_range(v: &Vec<char>, lo: usize, hi: usize, c: char) -> (r: Option<usize>)
    requires
        lo <= hi <= v@.len(),
    ensures
        match r {
            Some(i) => lo <= i < hi && split_first(v@.subrange(lo as int, hi as int), c) == Some(
                (v@.subrange(lo as int, i as int), v@.subrange(i + 1, hi as int)),
            ),
            None => split_first(v@.subrange(lo as int, hi as int), c) is None,
        },
{
    let mut i: usize = lo;
    while i < hi
        invariant
            lo <= i <= hi <= v@.len(),
            forall|k: int| lo <= k < i ==> v@[k] != c,
        decreases hi - i,
    {
        if v[i] == c {
            let ghost t = v@.subrange(lo as int, hi as int);
            proof {
                assert(is_first_index(t, c, i - lo));
                lemma_split_at(t, c, i - lo);
                assert(t.subrange(0, i - lo) =~= v@.subrange(lo as int, i as int));
                assert(t.subrange(i - lo + 1, t.len() as int) =~= v@.subrange(i + 1, hi as int));
            }
            return Some(i);
        }
        i = i + 1;
    }
    proof {
        lemma_split_none(v@.subrange(lo as int, hi as int), c);
    }
    None
}

/// The value of the digits `v[lo..hi]`, or `None` if one of them is no digit;
/// at most five of them are read.
fn decimal_in(v: &Vec<char>, lo: usize, hi: usize) -> (r: Option<u32>)
    requires
        lo <= hi <= v@.len(),
        hi - lo <= 5,
    ensures
        match r {
            Some(n) => all_digits(v@.subrange(lo as int, hi as int)) && n == digits_value(
                v@.subrange(lo as int, hi as int),
            ),
            None => !all_digits(v@.subrange(lo as int, hi as int)),
        },
{
    let mut i: usize = lo;
    let mut n: u32 = 0;
    while i < hi
        invariant
            lo <= i <= hi <= v@.len(),
            hi - lo <= 5,
            all_digits(v@.subrange(lo as int, i as int)),
            n == digits_value(v@.subrange(lo as int, i as int)),
            n < pow10((i - lo) as nat),
        decreases hi - i,
    {
        let ch = v[i];
        if !('0' <= ch && ch <= '9') {
            assert(v@.subrange(lo as int, hi as int)[i - lo] == ch);
            return None;
        }
        let ghost prev = v@.subrange(lo as int, i as int);
        let ghost next = v@.subrange(lo as int, i + 1);
        proof {
            assert(next.drop_last() =~= prev);
            assert(next.last() == ch);
            lemma_pow10_bound((i - lo) as nat);
            lemma_pow10_bound((i + 1 - lo) as nat);
            assert(n * 10 + 9 < pow10((i + 1 - lo) as nat)) by (nonlinear_arith)
                requires
                    n < pow10((i - lo) as nat),
                    pow10((i + 1 - lo) as nat) == 10 * pow10((i - lo) as nat),
            ;
            assert forall|k: int| 0 <= k < next.len() implies is_digit(#[trigger] next[k]) by {
                if k < prev.len() {
                    assert(next[k] == prev[k]);
                }
            }
        }
        n = n * 10 + (ch as u32 - '0' as u32);
        i = i + 1;
    }
    Some(n)
}

fn octet_in(v: &Vec<char>, lo: usize, hi: usize) -> (r: Option<u8>)
    requires
        lo <= hi <= v@.len(),
    ensures
        r == octet_of(v@.subrange(lo as int, hi as int)),
{
    let ghost t = v@.subrange(lo as int, hi as int);
    if hi - lo < 1 || hi - lo > 3 {
        return None;
    }
    if hi - lo > 1 && v[lo] == '0' {
        assert(t[0] == v@[lo as int]);
        return None;
    }
    assert(hi - lo > 1 ==> t[0] == v@[lo as int]);
    match decimal_in(v, lo, hi) {
        Some(n) => {
            if n <= 255 {
                Some(n as u8)
            } else {
                None
            }
        },
        None => None,
    }
}

fn port_in(v: &Vec<char>, lo: usize, hi: usize) -> (r: Option<u16>)
    requires
        lo <= hi <= v@.len(),
    ensures
        r == port_of(v@.subrange(lo as int, hi as int)),
{
    let ghost t = v@.subrange(lo as int, hi as int);
    if hi == lo {
        return None;
    }
    let mut i: usize = lo;
    let mut n: u32 = 0;
    while i < hi
        invariant
            lo < hi <= v@.len(),
            lo <= i <= hi,
            t == v@.subrange(lo as int, hi as int),
            all_digits(v@.subrange(lo as int, i as int)),
            n == digits_value(v@.subrange(lo as int, i as int)),
            n <= 65535,
        decreases hi - i,
    {
        let ch = v[i];
        if !('0' <= ch && ch <= '9') {
            assert(t[i - lo] == ch);
            return None;
        }
        let ghost prev = v@.subrange(lo as int, i as int);
        let ghost next = v@.subrange(lo as int, i + 1);
        proof {
            assert(next.drop_last() =~= prev);
            assert(next.last() == ch);
            assert forall|k: int| 0 <= k < next.len() implies is_digit(#[trigger] next[k]) by {
                if k < prev.len() {
                    assert(next[k] == prev[k]);
                }
            }
        }
        let m: u32 = n * 10 + (ch as u32 - '0' as u32);
        if m > 65535 {
            proof {
                if all_digits(t) {
                    lemma_prefix_value_le(t, i + 1 - lo);
                    assert(t.subrange(0, i + 1 - lo) =~= next);
                }
            }
            return None;
        }
        n = m;
        i = i + 1;
    }
    assert(v@.subrange(lo as int, i as int) == t);
    Some(n as u16)
}

fn ipv4_in(v: &Vec<char>, lo: usize, hi: usize) -> (r: Option<Ipv4>)
    requires
        lo <= hi <= v@.len(),
    ensures
        r == ipv4_of(v@.subrange(lo as int, hi as int)),
{
    let ghost s = v@.subrange(lo as int, hi as int);
    let i = match split_range(v, lo, hi, '.') {
        Some(i) => i,
        None => return None,
    };
    let j = match split_range(v, i + 1, hi, '.') {
        Some(j) => j,
        None => return None,
    };
    let k = match split_range(v, j + 1, hi, '.') {
        Some(k) => k,
        None => return None,
    };
    let a = octet_in(v, lo, i);
    let b = octet_in(v, i + 1, j);
    let c = octet_in(v, j + 1, k);
    let d = octet_in(v, k + 1, hi);
    match (a, b, c, d) {
        (Some(a), Some(b), Some(c), Some(d)) => Some(Ipv4 { a, b, c, d }),
        _ => None,
    }
}

/// Parses dotted-quad IPv4 text.
pub fn parse_ipv4(s: &str) -> (r: Option<Ipv4>)
    ensures
        r == ipv4_of(s@),
{
    let v = chars_of(s);
    assert(v@.subrange(0, v@.len() as int) =~= v@);
    ipv4_in(&v, 0, v.len())
}

/// An allowed-IP block: a network address and a prefix length.
#[derive(Clone, Copy, Debug, PartialEq, Eq, Structural)]
pub enum Cidr {
    V4 { addr: Ipv4, prefix: u8 },
    V6 { addr6: u128, prefix: u8 },
}

/// Why a key given as base64 text was refused.
#[derive(Clone, Copy, Debug, PartialEq, Eq, Structural)]
pub enum KeyError {
    Encoding,
    Length,
}

/// Length of a tunnel key in bytes.
pub const KEY_LEN: usize = 32;

/// Dotted-quad syntax, octets 0 to 255, as a regular expression.
pub const IPV4_PATTERN: &'static str = r"(?:(?:1[0-9][0-9]\.)|(?:2[0-4][0-9]\.)|(?:25[0-5]\.)|(?:[1-9][0-9]\.)|(?:[0-9]\.)){3}(?:(?:1[0-9][0-9])|(?:2[0-4][0-9])|(?:25[0-5])|(?:[1-9][0-9])|(?:[0-9]))";

/// What the standard base64 alphabet, padded, decodes `text` to.
pub uninterp spec fn base64_decoded(text: Seq<char>) -> Option<Seq<u8>>;

/// The text of the leftmost-first match of `pattern` in `text`.
pub uninterp spec fn regex_first_match(pattern: Seq<char>, text: Seq<char>) -> Option<Seq<char>>;

/// The network that `ipnet` reads from `text`.
pub uninterp spec fn ipnet_parsed(text: Seq<char>) -> Option<Cidr>;

/// Relies on base64's `STANDARD` engine `decode`: the bytes that the text
/// encodes, or an error; the result depends on the text alone.
#[verifier::external_body]
fn base64_decode(text: &str) -> (r: Option<Vec<u8>>)
    ensures
        match r {
            Some(b) => base64_decoded(text@) == Some(b@),
            None => base64_decoded(text@) is None,
        },
{
    base64::engine::general_purpose::STANDARD.decode(text).ok()
}

/// Relies on regex's `Regex::new` and `Regex::find`: the first match of the
/// compiled pattern in the text, as text; a match is a substring of the
/// text (`Match::as_str`).
#[verifier::external_body]
fn regex_find(pattern: &str, text: &str) -> (r: Option<String>)
    ensures
        match r {
            Some(m) => regex_first_match(pattern@, text@) == Some(m@),
            None => regex_first_match(pattern@, text@) is None,
        },
        r matches Some(m) ==> occurs_in(m@, text@),
{
    match regex::Regex::new(pattern) {
        Ok(re) => re.find(text).map(|m| m.as_str().to_string()),
        Err(_) => None,
    }
}

/// Relies on ipnet's `FromStr for IpNet`: the network that CIDR text denotes;
/// `Ipv4Net::new` and `Ipv6Net::new` bound the prefix by 32 and 128.
#[verifier::external_body]
fn ipnet_parse(text: &str) -> (r: Option<Cidr>)
    ensures
        r == ipnet_parsed(text@),
        r matches Some(Cidr::V4 { prefix, .. }) ==> prefix <= 32,
        r matches Some(Cidr::V6 { prefix, .. }) ==> prefix <= 128,
{
    match text.parse::<ipnet::IpNet>() {
        Ok(ipnet::IpNet::V4(n)) => {
            let o = n.addr().octets();
            let addr = Ipv4 { a: o[0], b: o[1], c: o[2], d: o[3] };
            Some(Cidr::V4 { addr, prefix: n.prefix_len() })
        },
        Ok(ipnet::IpNet::V6(n)) => Some(Cidr::V6 { addr6: u128::from(n.addr()), prefix: n.prefix_len() }),
        Err(_) => None,
    }
}

/// The bytes held, if any.
pub open spec fn bytes_view(o: Option<Vec<u8>>) -> Option<Seq<u8>> {
    match o {
        Some(b) => Some(b@),
        None => None,
    }
}

/// Decodes standard, padded base64 text.
pub fn decode_base64(text: &str) -> (r: Option<Vec<u8>>)
    ensures
        bytes_view(r) == base64_decoded(text@),
{
    base64_decode(text)
}

/// A key from what its base64 text decoded to.
pub open spec fn key_outcome(decoded: Option<Seq<u8>>) -> Result<Seq<u8>, KeyError> {
    match decoded {
        Some(b) => if b.len() == KEY_LEN {
            Ok(b)
        } else {
            Err(KeyError::Length)
        },
        None => Err(KeyError::Encoding),
    }
}

/// Accepts decoded key bytes if there are exactly thirty-two of them.
pub fn key_from_decoded(decoded: Option<Vec<u8>>) -> (r: Result<Vec<u8>, KeyError>)
    ensures
        match r {
            Ok(k) => key_outcome(bytes_view(decoded)) == Ok::<Seq<u8>, KeyError>(k@),
            Err(e) => key_outcome(bytes_view(decoded)) == Err::<Seq<u8>, KeyError>(e),
        },
{
    match decoded {
        Some(b) => {
            if b.len() == KEY_LEN {
                Ok(b)
            } else {
                Err(KeyError::Length)
            }
        },
        None => Err(KeyError::Encoding),
    }
}

/// Decodes a base64 key of exactly thirty-two bytes.
pub fn decode_key(text: &str) -> (r: Result<Vec<u8>, KeyError>)
    ensures
        match r {
            Ok(k) => key_outcome(base64_decoded(text@)) == Ok::<Seq<u8>, KeyError>(k@),
            Err(e) => key_outcome(base64_decoded(text@)) == Err::<Seq<u8>, KeyError>(e),
        },
{
    let decoded = base64_decode(text);
    proof {
        assert(bytes_view(decoded) == base64_decoded(text@));
    }
    key_from_decoded(decoded)
}

/// The blocks of a list of CIDR texts, or the position of the first one
/// that does not parse.
pub open spec fn allowed_ips_outcome(texts: Seq<Seq<char>>) -> Result<Seq<Cidr>, usize>
    decreases texts.len(),
{
    if texts.len() == 0 {
        Ok(Seq::empty())
    } else {
        match allowed_ips_outcome(texts.drop_last()) {
            Ok(nets) => match ipnet_parsed(texts.last()) {
                Some(n) => Ok(nets.push(n)),
                None => Err((texts.len() - 1) as usize),
            },
            Err(i) => Err(i),
        }
    }
}

pub open spec fn texts_view(list: Seq<String>) -> Seq<Seq<char>> {
    list.map_values(|t: String| t@)
}

/// Parses each allowed-IP text; fails with the position of the first that
/// does not parse.
pub fn parse_allowed_ips(list: &Vec<String>) -> (r: Result<Vec<Cidr>, usize>)
    ensures
        match r {
            Ok(v) => allowed_ips_outcome(texts_view(list@)) == Ok::<Seq<Cidr>, usize>(v@),
            Err(i) => allowed_ips_outcome(texts_view(list@)) == Err::<Seq<Cidr>, usize>(i),
        },
{
    let mut out: Vec<Cidr> = Vec::new();
    let mut i: usize = 0;
    while i < list.len()
        invariant
            i <= list@.len(),
            allowed_ips_outcome(texts_view(list@.subrange(0, i as int))) == Ok::<
                Seq<Cidr>,
                usize,
            >(out@),
        decreases list@.len() - i,
    {
        let ghost before = texts_view(list@.subrange(0, i as int));
        let ghost after = texts_view(list@.subrange(0, i + 1));
        proof {
            assert(after.drop_last() =~= before);
            assert(after.last() == list@[i as int]@);
        }
        match ipnet_parse(list[i].as_str()) {
            Some(n) => out.push(n),
            None => {
                proof {
                    lemma_outcome_keeps_error(list@, i + 1, i);
                }
                return Err(i);
            },
        }
        i = i + 1;
    }
    assert(list@.subrange(0, list@.len() as int) =~= list@);
    Ok(out)
}

/// Once a prefix of the list fails, the whole list fails at the same place.
proof fn lemma_outcome_keeps_error(list: Seq<String>, n: int, i: usize)
    requires
        0 <= n <= list.len(),
        allowed_ips_outcome(texts_view(list.subrange(0, n))) == Err::<Seq<Cidr>, usize>(i),
    ensures
        allowed_ips_outcome(texts_view(list)) == Err::<Seq<Cidr>, usize>(i),
    decreases list.len() - n,
{
    if n < list.len() {
        let next = texts_view(list.subrange(0, n + 1));
        assert(next.drop_last() =~= texts_view(list.subrange(0, n)));
        lemma_outcome_keeps_error(list, n + 1, i);
    } else {
        assert(list.subrange(0, n) =~= list);
    }
}

/// Parses endpoint text: `a.b.c.d:port`, or `[ipv6]:port`.
pub fn parse_endpoint(s: &str) -> (r: Option<Endpoint>)
    ensures
        r == endpoint_of(s@),
{
    let v = chars_of(s);
    let n = v.len();
    assert(v@.subrange(0, n as int) =~= v@);
    if n > 0 && v[0] == '[' {
        assert(v@.subrange(1, n as int) =~= s@.drop_first());
        let close = match split_range(&v, 1, n, ']') {
            Some(c) => c,
            None => return None,
        };
        if close + 1 < n && v[close + 1] == ':' {
            let ghost rest = v@.subrange(close + 1, n as int);
            assert(rest[0] == v@[close + 1]);
            assert(rest.drop_first() =~= v@.subrange(close + 2, n as int));
            let host = s.substring_char(1, close);
            let mut text = String::from_str(host);
            proof {
                reveal_strlit("/128");
            }
            text.append("/128");
            assert(text@ =~= v@.subrange(1, close as int) + host_prefix_text());
            let net = ipnet_parse(text.as_str());
            let port = port_in(&v, close + 2, n);
            match (net, port) {
                (Some(Cidr::V6 { addr6, .. }), Some(port)) => Some(Endpoint::V6 { addr6, port }),
                _ => None,
            }
        } else {
            proof {
                let rest = v@.subrange(close + 1, n as int);
                if rest.len() > 0 {
                    assert(rest[0] == v@[close + 1]);
                }
            }
            None
        }
    } else {
        let i = match split_range(&v, 0, n, ':') {
            Some(i) => i,
            None => return None,
        };
        let ip = ipv4_in(&v, 0, i);
        let port = port_in(&v, i + 1, n);
        match (ip, port) {
            (Some(ip), Some(port)) => Some(Endpoint::V4 { ip, port }),
            _ => None,
        }
    }
}

pub open spec fn opt_text(o: Option<String>) -> Seq<char> {
    match o {
        Some(m) => m@,
        None => Seq::<char>::empty(),
    }
}

/// Whether `m` stands somewhere in `text`.
pub open spec fn occurs_in(m: Seq<char>, text: Seq<char>) -> bool {
    exists|i: int| 0 <= i && i + m.len() <= text.len() && #[trigger] text.subrange(i, i + m.len()) == m
}

/// The first dotted-quad IPv4 address embedded in free-form text, as text.
pub fn extract_ipv4_addr(input: &str) -> (r: Option<String>)
    ensures
        match r {
            Some(m) => regex_first_match(IPV4_PATTERN@, input@) == Some(m@),
            None => regex_first_match(IPV4_PATTERN@, input@) is None,
        },
        r matches Some(m) ==> occurs_in(m@, input@),
{
    regex_find(IPV4_PATTERN, input)
}

/// The address of an extracted match, if the match is dotted-quad text.
pub fn address_of_match(found: Option<String>) -> (r: Option<Ipv4>)
    ensures
        r == match found {
            Some(m) => ipv4_of(m@),
            None => None,
        },
{
    match found {
        Some(m) => parse_ipv4(m.as_str()),
        None => None,
    }
}

/// The first IPv4 address embedded in free-form text.
pub fn find_ipv4(input: &str) -> (r: Option<Ipv4>)
    ensures
        r == match regex_first_match(IPV4_PATTERN@, input@) {
            Some(m) => ipv4_of(m),
            None => None,
        },
        r matches Some(a) ==> exists|m: Seq<char>| occurs_in(m, input@) && ipv4_of(m) == Some(a),
{
    let found = extract_ipv4_addr(input);
    let ghost text = opt_text(found);
    let r = address_of_match(found);
    proof {
        if r is Some {
            assert(occurs_in(text, input@) && ipv4_of(text) == r);
        }
    }
    r
}

} // verus!
