//! What the chat and clipboard relays share: the key a connection is
//! registered under, what the receive loop does with each frame, and what a
//! failed send does to the registry.
use vstd::prelude::*;
use crate::registry::{lookup, without_key, Registry};
use crate::text::{same_text, starts_with_text};

verus! {

/// An address of this host itself.
pub open spec fn is_loopback(ip: Seq<char>) -> bool {
    ip == "127.0.0.1"@ || ip == "::1"@
}

/// The key an accepted connection from `peer_ip` is registered under: a
/// loopback address is replaced by this host's LAN address where that is
/// known (`local_ip`), so that a test on one machine does not register
/// under a degenerate key.
pub fn peer_key(peer_ip: &str, local_ip: Option<String>) -> (r: String)
    ensures
        r@ == match local_ip {
            Some(l) if is_loopback(peer_ip@) => l@,
            _ => peer_ip@,
        },
{
    let loopback = same_text(peer_ip, "127.0.0.1") || same_text(peer_ip, "::1");
    match local_ip {
        Some(l) if loopback => l,
        _ => String::from_str(peer_ip),
    }
}

/// The kinds of frame a relay connection receives.
pub enum FrameKind {
    Text,
    Binary,
    Ping,
    Pong,
    Close,
    /// A raw frame below the message layer.
    Raw,
    /// Reading failed.
    Error,
}

/// What the receive loop does with a frame.
pub enum RelayAction {
    /// Parse the text as a message and surface it.
    Deliver,
    /// Answer with a pong carrying the same payload.
    ReplyPong,
    Ignore,
    /// End the loop, deregister the connection and report it gone.
    Stop,
}

pub fn relay_action(kind: FrameKind) -> (r: RelayAction)
    ensures
        r == match kind {
            FrameKind::Text => RelayAction::Deliver,
            FrameKind::Ping => RelayAction::ReplyPong,
            FrameKind::Close | FrameKind::Error => RelayAction::Stop,
            _ => RelayAction::Ignore,
        },
{
    match kind {
        FrameKind::Text => RelayAction::Deliver,
        FrameKind::Ping => RelayAction::ReplyPong,
        FrameKind::Close | FrameKind::Error => RelayAction::Stop,
        _ => RelayAction::Ignore,
    }
}

/// `p` occurs in `s`.
pub open spec fn occurs_in(p: Seq<char>, s: Seq<char>) -> bool {
    exists|i: int| 0 <= i && i + p.len() <= s.len() && #[trigger] s.subrange(i, i + p.len()) == p
}

fn occurs(p: &str, s: &str) -> (r: bool)
    ensures
        r == occurs_in(p@, s@),
{
    let n = s.unicode_len();
    let m = p.unicode_len();
    if m > n {
        return false;
    }
    if m == 0 {
        assert(s@.subrange(0, 0 + p@.len() as int) =~= p@);
        return true;
    }
    let mut i: usize = 0;
    while i <= n - m
        invariant
            n == s@.len(),
            m == p@.len(),
            1 <= m <= n,
            i <= n - m + 1,
            forall|j: int| 0 <= j < i ==> #[trigger] s@.subrange(j, j + m) != p@,
        decreases n - m + 1 - i,
    {
        let rest = s.substring_char(i, n);
        if starts_with_text(rest, p) {
            assert(rest@.subrange(0, m as int) =~= s@.subrange(i as int, i + m));
            return true;
        }
        assert(rest@.subrange(0, m as int) =~= s@.subrange(i as int, i + m));
        i += 1;
    }
    proof {
        if occurs_in(p@, s@) {
            let j = choose|j: int| 0 <= j && j + p@.len() <= s@.len() && #[trigger] s@.subrange(j, j + p@.len()) == p@;
            assert(s@.subrange(j, j + m) != p@);
        }
    }
    false
}

/// A read error that only says the peer went away, which is not worth
/// reporting: its description mentions a connection reset or a broken pipe.
pub fn is_ordinary_disconnect(description: &str) -> (r: bool)
    ensures
        r == (occurs_in("Connection reset"@, description@) || occurs_in(
            "Broken pipe"@,
            description@,
        )),
{
    occurs("Connection reset", description) || occurs("Broken pipe", description)
}

/// Why a message could not be sent to a peer.
pub enum RelayError {
    /// No connection to the peer is registered.
    NotConnected { peer: String },
    /// The send failed; the connection was dropped.
    Disconnected { reason: String },
}

impl RelayError {
    /// Text reported to the user.
    pub fn message(&self) -> (r: String)
        ensures
            r@ == match self {
                RelayError::NotConnected { peer } => "Not connected to "@ + peer@,
                RelayError::Disconnected { reason } => "Connection lost: "@ + reason@,
            },
    {
        match self {
            RelayError::NotConnected { peer } => {
                let mut m = String::from_str("Not connected to ");
                m.append(peer.as_str());
                m
            },
            RelayError::Disconnected { reason } => {
                let mut m = String::from_str("Connection lost: ");
                m.append(reason.as_str());
                m
            },
        }
    }
}

/// The sink to send a message to `peer` through.
pub fn send_target<'a, S>(registry: &'a Registry<S>, peer: &str) -> (r: Result<&'a S, RelayError>)
    requires
        registry.wf(),
    ensures
        r matches Ok(x) ==> lookup(registry.view(), peer@) == Some(*x),
        r is Err <==> lookup(registry.view(), peer@) is None,
        r matches Err(e) ==> (e matches RelayError::NotConnected { peer: p } && p@ == peer@),
{
    match registry.get(peer) {
        Some(s) => Ok(s),
        None => Err(RelayError::NotConnected { peer: String::from_str(peer) }),
    }
}

/// After sending to `peer`: a failed send drops the peer's connection and
/// is reported, with no retry.
pub fn after_send<S>(registry: &mut Registry<S>, peer: &str, sent: Result<(), String>) -> (r: Result<
    (),
    RelayError,
>)
    requires
        old(registry).wf(),
    ensures
        final(registry).wf(),
        sent is Ok ==> r is Ok && final(registry).view() == old(registry).view(),
        sent matches Err(reason) ==> final(registry).view() == without_key(old(registry).view(), peer@)
            && r == Err::<(), RelayError>(RelayError::Disconnected { reason }),
{
    match sent {
        Ok(()) => Ok(()),
        Err(reason) => {
            let _ = registry.remove(peer);
            Err(RelayError::Disconnected { reason })
        },
    }
}

} // verus!
