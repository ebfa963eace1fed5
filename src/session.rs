//! The tunnel session controller: validation of the connect parameters and
//! the stop signal that the background monitors share.
use vstd::prelude::*;

use crate::addr::{
    allowed_ips_outcome, base64_decoded, decode_key, endpoint_of, find_ipv4, ipv4_of,
    key_outcome, parse_allowed_ips, parse_endpoint, parse_ipv4, regex_first_match, texts_view,
    Cidr, Endpoint, Ipv4, KeyError, IPV4_PATTERN,
};
use crate::monitor::{poll_step, PollAction, Poller};
use crate::telemetry::{age_text, disconnected_statistics, HandshakeAge, WgStatistics};

verus! {

/// Keep-alive interval pushed to the peer, in seconds.
pub const KEEP_ALIVE_SECS: u16 = 5;

/// Prefix length of the route installed for the local tunnel address.
pub const ROUTE_PREFIX: u8 = 24;

/// Why a connect attempt was refused before any adapter work.
#[derive(Clone, Copy, Debug, PartialEq, Eq, Structural)]
pub enum SessionError {
    PrivateKey(KeyError),
    PeerPublicKey(KeyError),
    InternalIp,
    Endpoint,
    AllowedIp(usize),
    ServerIp,
}

/// Validated parameters of one session.
#[derive(Debug)]
pub struct SessionConfig {
    pub private_key: Vec<u8>,
    pub peer_public_key: Vec<u8>,
    pub internal_ip: Ipv4,
    pub endpoint: Endpoint,
    pub server_ip: Ipv4,
    pub allowed_ips: Vec<Cidr>,
}

/// The address that the reachability monitor probes, found in free text.
pub open spec fn server_ip_of(text: Seq<char>) -> Option<Ipv4> {
    match regex_first_match(IPV4_PATTERN@, text) {
        Some(m) => ipv4_of(m),
        None => None,
    }
}

/// The first parameter that fails to parse, in the order they are checked.
pub open spec fn session_error(
    private_key: Seq<char>,
    peer_public_key: Seq<char>,
    internal_ip: Seq<char>,
    endpoint: Seq<char>,
    server_internal_ip: Seq<char>,
    allowed_ip: Seq<Seq<char>>,
) -> Option<SessionError> {
    if let Err(e) = key_outcome(base64_decoded(private_key)) {
        Some(SessionError::PrivateKey(e))
    } else if let Err(e) = key_outcome(base64_decoded(peer_public_key)) {
        Some(SessionError::PeerPublicKey(e))
    } else if ipv4_of(internal_ip) is None {
        Some(SessionError::InternalIp)
    } else if endpoint_of(endpoint) is None {
        Some(SessionError::Endpoint)
    } else if let Err(i) = allowed_ips_outcome(allowed_ip) {
        Some(SessionError::AllowedIp(i))
    } else if server_ip_of(server_internal_ip) is None {
        Some(SessionError::ServerIp)
    } else {
        None
    }
}

/// Whether `c` holds what each parameter parses to.
pub open spec fn config_of(
    c: SessionConfig,
    private_key: Seq<char>,
    peer_public_key: Seq<char>,
    internal_ip: Seq<char>,
    endpoint: Seq<char>,
    server_internal_ip: Seq<char>,
    allowed_ip: Seq<Seq<char>>,
) -> bool {
    &&& key_outcome(base64_decoded(private_key)) == Ok::<Seq<u8>, KeyError>(c.private_key@)
    &&& key_outcome(base64_decoded(peer_public_key)) == Ok::<Seq<u8>, KeyError>(
        c.peer_public_key@,
    )
    &&& ipv4_of(internal_ip) == Some(c.internal_ip)
    &&& endpoint_of(endpoint) == Some(c.endpoint)
    &&& server_ip_of(server_internal_ip) == Some(c.server_ip)
    &&& allowed_ips_outcome(allowed_ip) == Ok::<Seq<Cidr>, usize>(c.allowed_ips@)
}

/// Parses and checks every connect parameter; the first that fails decides
/// the error.
pub fn parse_session(
    private_key: &str,
    peer_public_key: &str,
    internal_ip: &str,
    endpoint: &str,
    server_internal_ip: &str,
    allowed_ip: &Vec<String>,
) -> (r: Result<SessionConfig, SessionError>)
    ensures
        match r {
            Ok(c) => session_error(
                private_key@,
                peer_public_key@,
                internal_ip@,
                endpoint@,
                server_internal_ip@,
                texts_view(allowed_ip@),
            ) is None && config_of(
                c,
                private_key@,
                peer_public_key@,
                internal_ip@,
                endpoint@,
                server_internal_ip@,
                texts_view(allowed_ip@),
            ),
            Err(e) => session_error(
                private_key@,
                peer_public_key@,
                internal_ip@,
                endpoint@,
                server_internal_ip@,
                texts_view(allowed_ip@),
            ) == Some(e),
        },
{
    let private_key = match decode_key(private_key) {
        Ok(k) => k,
        Err(e) => return Err(SessionError::PrivateKey(e)),
    };
    let peer_public_key = match decode_key(peer_public_key) {
        Ok(k) => k,
        Err(e) => return Err(SessionError::PeerPublicKey(e)),
    };
    let internal_ip = match parse_ipv4(internal_ip) {
        Some(a) => a,
        None => return Err(SessionError::InternalIp),
    };
    let endpoint = match parse_endpoint(endpoint) {
        Some(e) => e,
        None => return Err(SessionError::Endpoint),
    };
    let allowed_ips = match parse_allowed_ips(allowed_ip) {
        Ok(v) => v,
        Err(i) => return Err(SessionError::AllowedIp(i)),
    };
    let server_ip = match find_ipv4(server_internal_ip) {
        Some(a) => a,
        None => return Err(SessionError::ServerIp),
    };
    Ok(SessionConfig {
        private_key,
        peer_public_key,
        internal_ip,
        endpoint,
        server_ip,
        allowed_ips,
    })
}

impl SessionConfig {
    /// The route installed for the local tunnel address.
    pub fn default_route(&self) -> (r: Cidr)
        ensures
            r == (Cidr::V4 { addr: self.internal_ip, prefix: ROUTE_PREFIX }),
    {
        Cidr::V4 { addr: self.internal_ip, prefix: ROUTE_PREFIX }
    }
}

/// The controller's view of the session: the stop signal that the
/// monitors read, and whether a session was started.
#[derive(Clone, Copy, Debug, PartialEq, Eq, Structural)]
pub struct Controller {
    pub stop_requested: bool,
    pub active: bool,
}

/// The controller once a connect attempt has passed validation.
pub open spec fn connected(c: Controller) -> Controller {
    Controller { stop_requested: false, active: true }
}

/// The controller after a disconnect.
pub open spec fn disconnected(c: Controller) -> Controller {
    Controller { stop_requested: true, active: false }
}

impl Controller {
    /// An idle controller whose signal has not been raised.
    pub fn new() -> (r: Controller)
        ensures
            r == (Controller { stop_requested: false, active: false }),
    {
        Controller { stop_requested: false, active: false }
    }

    /// Validates a connect attempt. On success the stop signal is cleared
    /// and the session is active; the caller then provisions the adapter
    /// and starts the monitors. On a validation error nothing changes.
    pub fn wg_connect(
        &mut self,
        private_key: &str,
        peer_public_key: &str,
        internal_ip: &str,
        endpoint: &str,
        server_internal_ip: &str,
        allowed_ip: &Vec<String>,
    ) -> (r: Result<SessionConfig, SessionError>)
        ensures
            match r {
                Ok(c) => *final(self) == connected(*old(self)) && config_of(
                    c,
                    private_key@,
                    peer_public_key@,
                    internal_ip@,
                    endpoint@,
                    server_internal_ip@,
                    texts_view(allowed_ip@),
                ),
                Err(e) => *final(self) == *old(self) && session_error(
                    private_key@,
                    peer_public_key@,
                    internal_ip@,
                    endpoint@,
                    server_internal_ip@,
                    texts_view(allowed_ip@),
                ) == Some(e),
            },
            r is Ok <==> session_error(
                private_key@,
                peer_public_key@,
                internal_ip@,
                endpoint@,
                server_internal_ip@,
                texts_view(allowed_ip@),
            ) is None,
    {
        let r = parse_session(
            private_key,
            peer_public_key,
            internal_ip,
            endpoint,
            server_internal_ip,
            allowed_ip,
        );
        if r.is_ok() {
            self.stop_requested = false;
            self.active = true;
        }
        r
    }

    /// Raises the stop signal and gives the zeroed statistics event that
    /// tells observers at once that the tunnel is down. Safe when idle.
    pub fn wg_disconnect(&mut self) -> (r: WgStatistics)
        ensures
            *final(self) == disconnected(*old(self)),
            r.up == 0,
            r.down == 0,
            r.handshake_age@ == age_text(HandshakeAge::Unavailable),
    {
        self.stop_requested = true;
        self.active = false;
        disconnected_statistics()
    }
}

/// A connect followed by a disconnect leaves the stop signal raised, and a
/// monitor in any state halts at its next look at the signal, which is
/// where the statistics monitor releases the adapter.
pub proof fn lemma_connect_then_disconnect_halts(c: Controller, p: Poller)
    requires
        p.wf(),
    ensures
        disconnected(connected(c)).stop_requested,
        poll_step(p, disconnected(connected(c)).stop_requested).1 == PollAction::Halt,
{
}

/// A second disconnect leaves the controller as the first did.
pub proof fn lemma_disconnect_twice(c: Controller)
    ensures
        disconnected(disconnected(c)) == disconnected(c),
        disconnected(c).stop_requested,
{
}

} // verus!
