pub mod neighbors;
pub mod signing;

use vstd::prelude::*;

use crate::discovery::signing::{
    ed25519_public_key, ed25519_signature, ed25519_verifies, public_key_of, sign_message,
    verify_message,
};
pub use crate::discovery::neighbors::NodeInfo;
use crate::discovery::neighbors::observation;
use crate::endpoint::EndpointId;

verus! {

/// What a node announces about itself on the gossip topic.
#[derive(Debug)]
pub struct Node {
    pub name: String,
    pub node_id: EndpointId,
    pub count: u32,
}

impl Node {
    pub fn new(name: String, node_id: EndpointId, count: u32) -> (n: Node)
        ensures
            n.name == name,
            n.node_id == node_id,
            n.count == count,
    {
        Node { name, node_id, count }
    }

    /// The same announcement with another sequence number.
    pub fn with_count(&self, count: u32) -> (n: Node)
        ensures
            n.name@ == self.name@,
            n.node_id == self.node_id,
            n.count == count,
    {
        Node { name: self.name.clone(), node_id: self.node_id, count }
    }

    /// Whether the announcement names the key that signed it as its node.
    pub fn is_signed_by(&self, signer: &[u8; 32]) -> (r: bool)
        ensures
            r == (self.node_id.bytes == *signer),
    {
        self.node_id == EndpointId::from_bytes(*signer)
    }
}

/// A payload together with the key that signed it and the signature.
#[derive(Debug)]
pub struct SignedMessage {
    pub from: [u8; 32],
    pub data: Vec<u8>,
    pub signature: [u8; 64],
}

impl SignedMessage {
    /// Whether the signature holds for the payload under the sender's key.
    pub open spec fn spec_verifies(&self) -> bool {
        ed25519_verifies(self.from, self.data@, self.signature)
    }

    /// Signs `data` with `secret_key` and names the key's public half as the
    /// sender. A message built here always verifies.
    pub fn sign(secret_key: &[u8; 32], data: Vec<u8>) -> (m: SignedMessage)
        ensures
            m.from == ed25519_public_key(*secret_key),
            m.data@ == data@,
            m.signature == ed25519_signature(*secret_key, data@),
            m.spec_verifies(),
    {
        let signature = sign_message(secret_key, data.as_slice());
        let from = public_key_of(secret_key);
        SignedMessage { from, data, signature }
    }

    /// Checks the signature against the named sender.
    pub fn verify(&self) -> (ok: bool)
        ensures
            ok == self.spec_verifies(),
    {
        verify_message(&self.from, self.data.as_slice(), &self.signature)
    }
}

/// A node that signs its announcements with the secret key of its own
/// identity (as the sender does with the endpoint's key) is never taken for a
/// spoofer: the signer that `SignedMessage::sign` names is its node id.
pub proof fn lemma_own_announcements_not_spoofed(
    m: Map<Seq<char>, NodeInfo>,
    name: Seq<char>,
    node_id: EndpointId,
    secret: [u8; 32],
)
    requires
        node_id.bytes == ed25519_public_key(secret),
    ensures
        !(observation(m, name, node_id, ed25519_public_key(secret)) is Spoofed),
{
}

/// The announcements that a node broadcasts, one after another: the node as
/// given, with the counts `start`, `start + 1`, ... up to `u32::MAX`, after
/// which the count cannot go on (where the broadcast loop's `+= 1`
/// overflows).
pub struct AnnouncementSchedule {
    node: Node,
    start: u32,
    next: u32,
    exhausted: bool,
}

impl AnnouncementSchedule {
    /// The node that is announced.
    pub closed spec fn spec_node(&self) -> Node {
        self.node
    }

    /// The count of the first announcement.
    pub closed spec fn spec_start(&self) -> u32 {
        self.start
    }

    /// How many announcements were handed out so far.
    pub closed spec fn spec_sent(&self) -> int {
        if self.exhausted {
            u32::MAX - self.start + 1
        } else {
            self.next - self.start
        }
    }

    /// Starts the schedule at the node's own count.
    pub fn new(node: Node) -> (s: AnnouncementSchedule)
        ensures
            s.spec_node() == node,
            s.spec_start() == node.count,
            s.spec_sent() == 0,
    {
        let start = node.count;
        AnnouncementSchedule { node, start, next: start, exhausted: false }
    }

    /// The next announcement to broadcast: the `k`-th call (from 0) hands
    /// out the node with count `start + k`, while that count fits in a
    /// `u32`; after that nothing.
    pub fn next_announcement(&mut self) -> (n: Option<Node>)
        ensures
            final(self).spec_node() == old(self).spec_node(),
            final(self).spec_start() == old(self).spec_start(),
            old(self).spec_start() + old(self).spec_sent() <= u32::MAX ==> {
                &&& final(self).spec_sent() == old(self).spec_sent() + 1
                &&& n matches Some(a) && a.name@ == old(self).spec_node().name@
                    && a.node_id == old(self).spec_node().node_id
                    && a.count == old(self).spec_start() + old(self).spec_sent()
            },
            old(self).spec_start() + old(self).spec_sent() > u32::MAX ==> n is None
                && final(self).spec_sent() == old(self).spec_sent(),
    {
        if self.exhausted {
            return None;
        }
        let announcement = self.node.with_count(self.next);
        if self.next == u32::MAX {
            self.exhausted = true;
        } else {
            self.next = self.next + 1;
        }
        Some(announcement)
    }
}

/// How often the table is swept for expired peers, in nanoseconds: a third
/// of the timeout, rounded down, which is what `Duration / 3` gives.
pub fn cleanup_interval(timeout_nanos: u128) -> (period: u128)
    ensures
        period == timeout_nanos / 3,
{
    timeout_nanos / 3
}

/// The expiration timeout that applies when none was set: 30 s, in
/// nanoseconds.
pub const DEFAULT_EXPIRATION_TIMEOUT_NANOS: u128 = 30_000_000_000;

/// Settings of the discovery service before it joins the gossip topic.
#[derive(Debug, Clone, Copy)]
pub struct GossipDiscoveryBuilder {
    expiration_timeout: Option<u128>,
}

impl GossipDiscoveryBuilder {
    /// The timeout that was set, in nanoseconds, if any.
    pub closed spec fn spec_expiration_timeout(&self) -> Option<u128> {
        self.expiration_timeout
    }

    pub fn new() -> (b: GossipDiscoveryBuilder)
        ensures
            b.spec_expiration_timeout() == None::<u128>,
    {
        GossipDiscoveryBuilder { expiration_timeout: None }
    }

    /// Sets how long a silent peer is kept, in nanoseconds.
    pub fn with_expiration_timeout(self, timeout_nanos: u128) -> (b: GossipDiscoveryBuilder)
        ensures
            b.spec_expiration_timeout() == Some(timeout_nanos),
    {
        let mut b = self;
        b.expiration_timeout = Some(timeout_nanos);
        b
    }

    /// The timeout in force: the one set, or 30 s.
    pub fn expiration_timeout(&self) -> (t: u128)
        ensures
            t == match self.spec_expiration_timeout() {
                Some(t) => t,
                None => DEFAULT_EXPIRATION_TIMEOUT_NANOS,
            },
    {
        match self.expiration_timeout {
            Some(t) => t,
            None => DEFAULT_EXPIRATION_TIMEOUT_NANOS,
        }
    }
}

} // verus!
