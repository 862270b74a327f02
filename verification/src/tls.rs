use vstd::prelude::*;

verus! {

/// Wire value of the TLS 1.3 protocol version (major 3, minor 4).
pub const TLS1_3_VERSION: u16 = 0x0304;

/// Wire value of the TLS 1.2 protocol version (major 3, minor 3).
pub const TLS1_2_VERSION: u16 = 0x0303;

/// Immutable description of the server's TLS context: a protocol-version
/// floor and whether session caching is enabled. It is fixed once at startup
/// and shared read-only by every accepted connection.
pub struct TlsPolicy {
    pub min_version: u16,
    pub session_cache_enabled: bool,
}

/// The policy this server runs with: TLS 1.3 or newer only, and no session
/// caching.
pub fn server_policy() -> (p: TlsPolicy)
    ensures
        p.min_version == TLS1_3_VERSION,
        !p.session_cache_enabled,
{
    TlsPolicy { min_version: TLS1_3_VERSION, session_cache_enabled: false }
}

/// A protocol version passes the policy exactly when it reaches the floor.
pub open spec fn spec_version_permitted(p: TlsPolicy, version: u16) -> bool {
    version >= p.min_version
}

/// Decide whether a negotiated protocol version satisfies the policy.
pub fn version_permitted(p: &TlsPolicy, version: u16) -> (r: bool)
    ensures
        r == spec_version_permitted(*p, version),
{
    version >= p.min_version
}

/// Outcome of one TLS handshake attempt on a freshly accepted socket.
pub enum HandshakeEvent {
    /// The handshake completed under the policy.
    Established,
    /// The handshake failed (version below the floor, malformed hello,
    /// or an I/O error).
    Failed,
}

/// What the accept loop does next with the socket it just handled.
pub enum AcceptorAction {
    /// Hand the encrypted stream to a newly spawned connection handler.
    Serve,
    /// Report the error to the diagnostic sink, drop this socket, and keep
    /// accepting: a handshake failure is local to its connection.
    DiscardAndContinue,
}

/// Decide the accept loop's next step from a handshake outcome. No outcome
/// stops the loop: a failed handshake only costs the one connection.
pub fn accept_decision(ev: &HandshakeEvent) -> (a: AcceptorAction)
    ensures
        a == (match ev {
            HandshakeEvent::Established => AcceptorAction::Serve,
            HandshakeEvent::Failed => AcceptorAction::DiscardAndContinue,
        }),
{
    match ev {
        HandshakeEvent::Established => AcceptorAction::Serve,
        HandshakeEvent::Failed => AcceptorAction::DiscardAndContinue,
    }
}

/// Any client offering at most TLS 1.2 is turned away by the server's
/// policy, and the accept loop nevertheless goes on serving later clients.
pub proof fn lemma_downgrade_rejected(version: u16)
    requires
        version <= TLS1_2_VERSION,
    ensures
        forall|p: TlsPolicy|
            p.min_version == TLS1_3_VERSION ==> !spec_version_permitted(p, version),
{
}

} // verus!
