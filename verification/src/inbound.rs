//! Inbound message routing: which handler an arriving control message
//! belongs to, decided by its topic. The subscription topics are the
//! gateway's prefix followed by a fixed suffix each.

use vstd::prelude::*;
use vstd::string::StringSliceAdditionalSpecFns;

verus! {

/// Where an inbound message is routed.
#[derive(Clone, Copy, Debug, PartialEq, Eq, Structural)]
pub enum InboundRoute {
    /// A relay control command.
    Ctrl,
    /// A raw packet for the serial-bridge socket.
    RpcTcp,
    /// A payload to echo back.
    Echo,
    /// None of the gateway's topics.
    Other,
}

/// The bytes of the control topic's suffix.
pub open spec fn ctrl_suffix() -> Seq<u8> {
    seq![47u8, 99u8, 116u8, 114u8, 108u8]
}

/// The bytes of the serial-bridge topic's suffix.
pub open spec fn rpc_tcp_suffix() -> Seq<u8> {
    seq![47u8, 114u8, 112u8, 99u8, 47u8, 116u8, 99u8, 112u8]
}

/// The bytes of the echo topic's suffix.
pub open spec fn echo_suffix() -> Seq<u8> {
    seq![47u8, 101u8, 99u8, 104u8, 111u8]
}

/// The route a topic selects, given the gateway's topic prefix.
pub open spec fn route_spec(topic: Seq<u8>, prefix: Seq<u8>) -> InboundRoute {
    if topic == prefix + ctrl_suffix() {
        InboundRoute::Ctrl
    } else if topic == prefix + rpc_tcp_suffix() {
        InboundRoute::RpcTcp
    } else if topic == prefix + echo_suffix() {
        InboundRoute::Echo
    } else {
        InboundRoute::Other
    }
}

/// Whether `t` is exactly `p` followed by `s`.
fn is_concat_of(t: &[u8], p: &[u8], s: &[u8]) -> (r: bool)
    ensures
        r == (t@ == p@ + s@),
{
    if p.len() > t.len() || s.len() != t.len() - p.len() {
        proof {
            if t@ == p@ + s@ {
                assert(t@.len() == p@.len() + s@.len());
            }
        }
        return false;
    }
    let mut i: usize = 0;
    while i < p.len()
        invariant
            p@.len() + s@.len() == t@.len(),
            i <= p@.len(),
            forall|j: int| 0 <= j < i ==> t@[j] == p@[j],
        decreases p@.len() - i,
    {
        if t[i] != p[i] {
            proof {
                if t@ == p@ + s@ {
                    assert(t@[i as int] == (p@ + s@)[i as int]);
                }
            }
            return false;
        }
        i = i + 1;
    }
    while i < t.len()
        invariant
            p@.len() + s@.len() == t@.len(),
            p@.len() <= i <= t@.len(),
            forall|j: int| 0 <= j < p@.len() ==> t@[j] == p@[j],
            forall|j: int| p@.len() <= j < i ==> t@[j] == s@[j - p@.len()],
        decreases t@.len() - i,
    {
        if t[i] != s[i - p.len()] {
            proof {
                if t@ == p@ + s@ {
                    assert(t@[i as int] == (p@ + s@)[i as int]);
                }
            }
            return false;
        }
        i = i + 1;
    }
    proof {
        assert(t@ =~= p@ + s@);
    }
    true
}

/// Routes an inbound message by its topic: the gateway handles messages
/// on its prefix followed by `/ctrl`, `/rpc/tcp` or `/echo`, and ignores
/// every other topic.
pub fn route_inbound(topic: &str, prefix: &str) -> (r: InboundRoute)
    ensures
        r == route_spec(topic.spec_bytes(), prefix.spec_bytes()),
{
    let t = topic.as_bytes();
    let p = prefix.as_bytes();
    let ctrl: [u8; 5] = [47, 99, 116, 114, 108];
    let rpc_tcp: [u8; 8] = [47, 114, 112, 99, 47, 116, 99, 112];
    let echo: [u8; 5] = [47, 101, 99, 104, 111];
    proof {
        assert(ctrl@ =~= ctrl_suffix());
        assert(rpc_tcp@ =~= rpc_tcp_suffix());
        assert(echo@ =~= echo_suffix());
    }
    if is_concat_of(t, p, ctrl.as_slice()) {
        InboundRoute::Ctrl
    } else if is_concat_of(t, p, rpc_tcp.as_slice()) {
        InboundRoute::RpcTcp
    } else if is_concat_of(t, p, echo.as_slice()) {
        InboundRoute::Echo
    } else {
        InboundRoute::Other
    }
}

} // verus!
