use vstd::prelude::*;

use dashmap::DashMap;

use crate::discovery::signing::ed25519_verifies;
use crate::discovery::{Node, SignedMessage};
use crate::endpoint::{endpoint_key_decodes, EndpointId};

verus! {

/// `dashmap::DashMap`, known to Verus as an opaque type.
#[verifier::external_type_specification]
#[verifier::external_body]
#[verifier::reject_recursive_types(K)]
#[verifier::reject_recursive_types(V)]
#[verifier::reject_recursive_types(S)]
pub struct ExDashMap<K, V, S>(DashMap<K, V, S>);

/// When a peer was last heard from, and under which identity.
#[derive(Debug, Clone, Copy)]
pub struct NodeInfo {
    pub node_id: EndpointId,
    /// Nanoseconds on the receiver's clock.
    pub last_seen: u128,
}

/// The map from node names to what was last heard from them.
pub type NeighborMap = DashMap<String, NodeInfo>;

/// The entries of a neighbor map, by node name.
pub uninterp spec fn neighbor_entries(map: NeighborMap) -> Map<Seq<char>, NodeInfo>;

/// Calls `DashMap::new`; the new map holds nothing.
#[verifier::external_body]
fn map_new() -> (created: NeighborMap)
    ensures
        neighbor_entries(created).dom() == Set::<Seq<char>>::empty(),
{
    DashMap::new()
}

/// Calls `DashMap::contains_key`.
#[verifier::external_body]
fn map_contains(map: &NeighborMap, name: &String) -> (r: bool)
    ensures
        r == neighbor_entries(*map).contains_key(name@),
{
    map.contains_key(name)
}

/// Calls `DashMap::insert`, which replaces any entry under the same name and
/// returns the value it replaced.
#[verifier::external_body]
fn map_insert(map: &mut NeighborMap, name: String, info: NodeInfo) -> (prev: Option<NodeInfo>)
    ensures
        neighbor_entries(*final(map)) == neighbor_entries(*old(map)).insert(name@, info),
        prev == neighbor_entries(*old(map)).get(name@),
{
    map.insert(name, info)
}

/// Calls `DashMap::remove` and keeps the removed value.
#[verifier::external_body]
fn map_remove(map: &mut NeighborMap, name: &String) -> (removed: Option<NodeInfo>)
    ensures
        neighbor_entries(*final(map)) == neighbor_entries(*old(map)).remove(name@),
        removed == neighbor_entries(*old(map)).get(name@),
{
    map.remove(name).map(|entry| entry.1)
}

/// Calls `DashMap::len`.
#[verifier::external_body]
fn map_len(map: &NeighborMap) -> (n: usize)
    ensures
        n == neighbor_entries(*map).len(),
{
    map.len()
}

/// Walks the map with `DashMap::iter` and copies each entry. Every entry comes
/// out once; the order of the walk is not stated.
#[verifier::external_body]
fn map_entries(map: &NeighborMap) -> (entries: Vec<(String, NodeInfo)>)
    ensures
        forall|i: int, j: int|
            0 <= i < entries@.len() && 0 <= j < entries@.len() && i != j ==> #[trigger] entries@[i].0@
                != #[trigger] entries@[j].0@,
        forall|i: int|
            0 <= i < entries@.len() ==> neighbor_entries(*map).contains_key(#[trigger] entries@[i].0@)
                && neighbor_entries(*map)[entries@[i].0@] == entries@[i].1,
        forall|k: Seq<char>|
            neighbor_entries(*map).contains_key(k) ==> exists|i: int|
                0 <= i < entries@.len() && #[trigger] entries@[i].0@ == k,
{
    map.iter().map(|entry| (entry.key().clone(), *entry.value())).collect()
}

/// How long ago, on the receiver's clock, a peer was last heard from; a time
/// stamp in the future counts as now (`Instant::duration_since` saturates).
pub open spec fn age(now: u128, last_seen: u128) -> int {
    if now >= last_seen {
        now - last_seen
    } else {
        0
    }
}

/// A peer expires once it has been silent for longer than the timeout.
pub open spec fn is_expired(info: NodeInfo, now: u128, timeout: u128) -> bool {
    age(now, info.last_seen) > timeout
}

/// The entries that are not expired at `now`.
pub open spec fn unexpired(m: Map<Seq<char>, NodeInfo>, now: u128, timeout: u128) -> Map<Seq<char>, NodeInfo> {
    m.restrict(m.dom().filter(|k: Seq<char>| !is_expired(m[k], now, timeout)))
}

/// What hearing an announcement of `node_id` under `name`, signed with the
/// key `signer`, at `now`, does to the entries: an announcement whose node is
/// not its signer is ignored; any other one (re)sets the entry of its name.
pub open spec fn recorded(
    m: Map<Seq<char>, NodeInfo>,
    name: Seq<char>,
    node_id: EndpointId,
    signer: [u8; 32],
    now: u128,
) -> Map<Seq<char>, NodeInfo> {
    if node_id.bytes == signer {
        m.insert(name, NodeInfo { node_id, last_seen: now })
    } else {
        m
    }
}

/// How an announcement was taken.
#[derive(Debug, Clone, Copy)]
pub enum Observation {
    /// The announced node is not the key that signed it: ignored.
    Spoofed,
    /// The name was not known yet; the node is to be joined.
    NewPeer(EndpointId),
    /// The name was known; only its entry was refreshed.
    Refreshed,
}

/// The observation that an announcement makes, given the entries before it.
pub open spec fn observation(
    m: Map<Seq<char>, NodeInfo>,
    name: Seq<char>,
    node_id: EndpointId,
    signer: [u8; 32],
) -> Observation {
    if node_id.bytes != signer {
        Observation::Spoofed
    } else if m.contains_key(name) {
        Observation::Refreshed
    } else {
        Observation::NewPeer(node_id)
    }
}

/// What an entry was last recorded from: the signer's key, the signed
/// payload and the signature.
pub type Evidence = ([u8; 32], Seq<u8>, [u8; 64]);

/// Every entry was recorded from a message whose signature verifies under
/// the entry's own node id: no entry carries an id whose key did not sign it.
pub open spec fn entries_signed(m: Map<Seq<char>, NodeInfo>, evidence: Map<Seq<char>, Evidence>) -> bool {
    forall|k: Seq<char>|
        #[trigger] m.contains_key(k) ==> evidence.contains_key(k) && evidence[k].0 == m[k].node_id.bytes
            && ed25519_verifies(evidence[k].0, evidence[k].1, evidence[k].2)
}

/// Why an announcement was not taken.
#[derive(Debug, Clone, Copy)]
pub enum Rejection {
    /// The signature does not verify under the named sender.
    BadSignature,
    /// The sender's key is not an endpoint id.
    InvalidKey,
}

/// Records in `map` an announcement `node` whose signer's key is `signer`,
/// heard at `now`.
fn record_map(map: &mut NeighborMap, node: &Node, signer: &[u8; 32], now: u128) -> (o: Observation)
    ensures
        neighbor_entries(*final(map)) == recorded(neighbor_entries(*old(map)), node.name@, node.node_id, *signer, now),
        o == observation(neighbor_entries(*old(map)), node.name@, node.node_id, *signer),
{
    if !node.is_signed_by(signer) {
        return Observation::Spoofed;
    }
    let is_new = !map_contains(&*map, &node.name);
    let info = NodeInfo { node_id: node.node_id, last_seen: now };
    let _ = map_insert(map, node.name.clone(), info);
    if is_new {
        Observation::NewPeer(node.node_id)
    } else {
        Observation::Refreshed
    }
}

/// The address book of peers heard on the gossip topic, by node name.
///
/// The map is private to the table and only changed through `&mut self`, so
/// its entries are what the table's view says; a table that several tasks
/// share is shared behind a lock. Beside the map the table keeps, as ghost
/// state, the signed message that each entry was recorded from.
pub struct NeighborTable {
    map: NeighborMap,
    evidence: Ghost<Map<Seq<char>, Evidence>>,
}

impl View for NeighborTable {
    type V = Map<Seq<char>, NodeInfo>;

    closed spec fn view(&self) -> Map<Seq<char>, NodeInfo> {
        neighbor_entries(self.map)
    }
}

impl NeighborTable {
    #[verifier::type_invariant]
    closed spec fn every_entry_signed(self) -> bool {
        entries_signed(neighbor_entries(self.map), self.evidence@)
    }

    /// The signed message that each entry was last recorded from.
    pub closed spec fn evidence(&self) -> Map<Seq<char>, Evidence> {
        self.evidence@
    }

    pub fn new() -> (t: NeighborTable)
        ensures
            t@ == Map::<Seq<char>, NodeInfo>::empty(),
            t.evidence() == Map::<Seq<char>, Evidence>::empty(),
            entries_signed(t@, t.evidence()),
    {
        let t = NeighborTable { map: map_new(), evidence: Ghost(Map::empty()) };
        assert(t@ =~= Map::<Seq<char>, NodeInfo>::empty());
        t
    }

    pub fn contains(&self, name: &String) -> (r: bool)
        ensures
            r == self@.contains_key(name@),
    {
        map_contains(&self.map, name)
    }

    pub fn len(&self) -> (n: usize)
        ensures
            n == self@.len(),
    {
        map_len(&self.map)
    }

    /// Takes an announcement `node` that came in the signed `message`, heard
    /// at `now`. The signature must verify under the message's sender, the
    /// sender's key must be an endpoint id, and the sender must be the
    /// announced node; only then is the entry of the node's name (re)set. In
    /// every case each entry of the table was recorded from a message signed
    /// by the entry's own node id.
    pub fn observe(&mut self, message: &SignedMessage, node: &Node, now: u128) -> (r: Result<Observation, Rejection>)
        ensures
            !message.spec_verifies() ==> r == Err::<Observation, Rejection>(Rejection::BadSignature)
                && final(self)@ == old(self)@ && final(self).evidence() == old(self).evidence(),
            message.spec_verifies() && !endpoint_key_decodes(message.from) ==> r == Err::<Observation, Rejection>(Rejection::InvalidKey)
                && final(self)@ == old(self)@ && final(self).evidence() == old(self).evidence(),
            message.spec_verifies() && endpoint_key_decodes(message.from) ==> r == Ok::<Observation, Rejection>(
                observation(old(self)@, node.name@, node.node_id, message.from),
            ) && final(self)@ == recorded(old(self)@, node.name@, node.node_id, message.from, now),
            entries_signed(final(self)@, final(self).evidence()),
    {
        proof {
            use_type_invariant(&*self);
        }
        if !message.verify() {
            return Err(Rejection::BadSignature);
        }
        let expected = match EndpointId::from_key(&message.from) {
            None => {
                return Err(Rejection::InvalidKey);
            },
            Some(expected) => expected,
        };
        let ghost before = self@;
        let ghost ev = self.evidence@;
        let mut map = map_new();
        std::mem::swap(&mut map, &mut self.map);
        let o = record_map(&mut map, node, &expected.to_bytes(), now);
        let ghost new_ev = if node.node_id.bytes == message.from {
            ev.insert(node.name@, (message.from, message.data@, message.signature))
        } else {
            ev
        };
        self.evidence = Ghost(new_ev);
        proof {
            assert(entries_signed(neighbor_entries(map), new_ev));
        }
        self.map = map;
        Ok(o)
    }

    /// Each known peer once, by name, in no stated order.
    pub fn neighbors(&self) -> (v: Vec<(String, EndpointId)>)
        ensures
            forall|i: int, j: int|
                0 <= i < v@.len() && 0 <= j < v@.len() && i != j ==> #[trigger] v@[i].0@ != #[trigger] v@[j].0@,
            forall|i: int|
                0 <= i < v@.len() ==> self@.contains_key(#[trigger] v@[i].0@) && self@[v@[i].0@].node_id == v@[i].1,
            forall|k: Seq<char>|
                self@.contains_key(k) ==> exists|i: int| 0 <= i < v@.len() && #[trigger] v@[i].0@ == k,
    {
        let entries = map_entries(&self.map);
        let mut v: Vec<(String, EndpointId)> = Vec::new();
        let mut i: usize = 0;
        while i < entries.len()
            invariant
                0 <= i <= entries@.len(),
                v@.len() == i,
                forall|x: int| 0 <= x < i ==> #[trigger] v@[x].0@ == entries@[x].0@ && v@[x].1 == entries@[x].1.node_id,
            decreases entries@.len() - i,
        {
            v.push((entries[i].0.clone(), entries[i].1.node_id));
            i = i + 1;
        }
        proof {
            assert forall|k: Seq<char>| self@.contains_key(k) implies exists|i: int| 0 <= i < v@.len() && #[trigger] v@[i].0@ == k by {
                let i = choose|i: int| 0 <= i < entries@.len() && #[trigger] entries@[i].0@ == k;
                assert(v@[i].0@ == k);
            }
            assert forall|i: int, j: int|
                0 <= i < v@.len() && 0 <= j < v@.len() && i != j implies #[trigger] v@[i].0@ != #[trigger] v@[j].0@ by {
                assert(entries@[i].0@ != entries@[j].0@);
            }
            assert forall|i: int| 0 <= i < v@.len() implies self@.contains_key(#[trigger] v@[i].0@) && self@[v@[i].0@].node_id == v@[i].1 by {
                assert(self@.contains_key(entries@[i].0@));
            }
        }
        v
    }

    /// Drops every peer that has been silent for longer than `timeout` at
    /// `now`, and returns the dropped peers.
    pub fn cleanup(&mut self, now: u128, timeout: u128) -> (removed: Vec<(String, EndpointId)>)
        ensures
            final(self)@ == unexpired(old(self)@, now, timeout),
            final(self).evidence() == old(self).evidence(),
            entries_signed(final(self)@, final(self).evidence()),
            forall|i: int, j: int|
                0 <= i < removed@.len() && 0 <= j < removed@.len() && i != j ==> #[trigger] removed@[i].0@
                    != #[trigger] removed@[j].0@,
            forall|i: int|
                0 <= i < removed@.len() ==> old(self)@.contains_key(#[trigger] removed@[i].0@)
                    && is_expired(old(self)@[removed@[i].0@], now, timeout)
                    && old(self)@[removed@[i].0@].node_id == removed@[i].1,
            forall|k: Seq<char>|
                old(self)@.contains_key(k) && is_expired(old(self)@[k], now, timeout) ==> exists|i: int|
                    0 <= i < removed@.len() && #[trigger] removed@[i].0@ == k,
    {
        proof {
            use_type_invariant(&*self);
        }
        let ghost before = self@;
        let mut map = map_new();
        std::mem::swap(&mut map, &mut self.map);
        let removed = cleanup_map(&mut map, now, timeout);
        proof {
            assert forall|k: Seq<char>| #[trigger] neighbor_entries(map).contains_key(k) implies before.contains_key(k)
                && neighbor_entries(map)[k] == before[k] by {
            }
        }
        self.map = map;
        removed
    }
}

/// Drops from `map` every peer that has been silent for longer than
/// `timeout` at `now`, and returns the dropped peers.
fn cleanup_map(map: &mut NeighborMap, now: u128, timeout: u128) -> (removed: Vec<(String, EndpointId)>)
    ensures
        neighbor_entries(*final(map)) == unexpired(neighbor_entries(*old(map)), now, timeout),
        forall|i: int, j: int|
            0 <= i < removed@.len() && 0 <= j < removed@.len() && i != j ==> #[trigger] removed@[i].0@
                != #[trigger] removed@[j].0@,
        forall|i: int|
            0 <= i < removed@.len() ==> neighbor_entries(*old(map)).contains_key(#[trigger] removed@[i].0@)
                && is_expired(neighbor_entries(*old(map))[removed@[i].0@], now, timeout)
                && neighbor_entries(*old(map))[removed@[i].0@].node_id == removed@[i].1,
        forall|k: Seq<char>|
            neighbor_entries(*old(map)).contains_key(k) && is_expired(neighbor_entries(*old(map))[k], now, timeout) ==> exists|i: int|
                0 <= i < removed@.len() && #[trigger] removed@[i].0@ == k,
{
    let ghost before = neighbor_entries(*map);
    let entries = map_entries(&*map);
    // the names of the expired entries, in walk order
    let mut expired: Vec<String> = Vec::new();
    let ghost mut picked: Seq<int> = Seq::empty();
    let mut i: usize = 0;
    while i < entries.len()
        invariant
            0 <= i <= entries@.len(),
            neighbor_entries(*map) == before,
            expired@.len() == picked.len(),
            forall|t: int| 0 <= t < picked.len() ==> 0 <= #[trigger] picked[t] < i,
            forall|s: int, t: int| 0 <= s < t < picked.len() ==> #[trigger] picked[s] < #[trigger] picked[t],
            forall|t: int|
                0 <= t < picked.len() ==> #[trigger] expired@[t]@ == entries@[picked[t]].0@
                    && is_expired(entries@[picked[t]].1, now, timeout),
            forall|j: int|
                0 <= j < i && is_expired(#[trigger] entries@[j].1, now, timeout) ==> exists|t: int|
                    0 <= t < picked.len() && picked[t] == j,
        decreases entries@.len() - i,
    {
        let ghost old_picked = picked;
        let info = entries[i].1;
        let expired_now = if now >= info.last_seen {
            now - info.last_seen > timeout
        } else {
            false
        };
        assert(expired_now == is_expired(entries@[i as int].1, now, timeout));
        if expired_now {
            let name = entries[i].0.clone();
            expired.push(name);
            proof {
                picked = picked.push(i as int);
                assert(expired@[expired@.len() - 1]@ == entries@[i as int].0@);
            }
        }
        proof {
            assert forall|t: int|
                0 <= t < picked.len() implies #[trigger] expired@[t]@ == entries@[picked[t]].0@
                    && is_expired(entries@[picked[t]].1, now, timeout) by {
                if t < old_picked.len() {
                    assert(picked[t] == old_picked[t]);
                }
            }
            assert forall|j: int|
                0 <= j < i + 1 && is_expired(#[trigger] entries@[j].1, now, timeout) implies exists|t: int|
                    0 <= t < picked.len() && picked[t] == j by {
                if j == i {
                    assert(picked[picked.len() - 1] == j);
                } else {
                    let t = choose|t: int| 0 <= t < old_picked.len() && old_picked[t] == j;
                    assert(picked[t] == j);
                }
            }
        }
        i = i + 1;
    }
    proof {
        assert forall|s: int, t: int|
            0 <= s < expired@.len() && 0 <= t < expired@.len() && s != t implies #[trigger] expired@[s]@
                != #[trigger] expired@[t]@ by {
            assert(picked[s] != picked[t]);
            assert(entries@[picked[s]].0@ != entries@[picked[t]].0@);
        }
    }
    let mut removed: Vec<(String, EndpointId)> = Vec::new();
    let mut t: usize = 0;
    while t < expired.len()
        invariant
            0 <= t <= expired@.len(),
            removed@.len() == t,
            forall|s: int, u: int|
                0 <= s < expired@.len() && 0 <= u < expired@.len() && s != u ==> #[trigger] expired@[s]@
                    != #[trigger] expired@[u]@,
            forall|s: int|
                0 <= s < expired@.len() ==> before.contains_key(#[trigger] expired@[s]@) && is_expired(
                    before[expired@[s]@],
                    now,
                    timeout,
                ),
            neighbor_entries(*map) == before.remove_keys(Set::new(|k: Seq<char>| exists|s: int| 0 <= s < t && expired@[s]@ == k)),
            forall|s: int|
                0 <= s < t ==> #[trigger] removed@[s].0@ == expired@[s]@ && removed@[s].1
                    == before[expired@[s]@].node_id,
        decreases expired@.len() - t,
    {
        let ghost gone = Set::new(|k: Seq<char>| exists|s: int| 0 <= s < t && expired@[s]@ == k);
        assert(!gone.contains(expired@[t as int]@)) by {
            if gone.contains(expired@[t as int]@) {
                let s = choose|s: int| 0 <= s < t && expired@[s]@ == expired@[t as int]@;
                assert(expired@[s]@ != expired@[t as int]@);
            }
        }
        let name = &expired[t];
        let old_info = map_remove(map, name);
        match old_info {
            Some(info) => {
                removed.push((name.clone(), info.node_id));
            },
            None => {
                assert(false);
            },
        }
        proof {
            let gone2 = Set::new(|k: Seq<char>| exists|s: int| 0 <= s < t + 1 && expired@[s]@ == k);
            assert(gone2 =~= gone.insert(expired@[t as int]@)) by {
                assert forall|k: Seq<char>| gone2.contains(k) implies gone.insert(expired@[t as int]@).contains(k) by {
                    let s = choose|s: int| 0 <= s < t + 1 && expired@[s]@ == k;
                    if s < t {
                        assert(gone.contains(k));
                    }
                }
                assert forall|k: Seq<char>| gone.insert(expired@[t as int]@).contains(k) implies gone2.contains(k) by {
                    if k == expired@[t as int]@ {
                        assert(0 <= t < t + 1 && expired@[t as int]@ == k);
                    } else {
                        let s = choose|s: int| 0 <= s < t && expired@[s]@ == k;
                        assert(0 <= s < t + 1 && expired@[s]@ == k);
                    }
                }
            }
            assert(neighbor_entries(*map) =~= before.remove_keys(gone2));
        }
        t = t + 1;
    }
    proof {
        let gone = Set::new(|k: Seq<char>| exists|s: int| 0 <= s < expired@.len() && expired@[s]@ == k);
        assert forall|k: Seq<char>|
            before.contains_key(k) && is_expired(before[k], now, timeout) implies gone.contains(k)
                && exists|i: int| 0 <= i < removed@.len() && #[trigger] removed@[i].0@ == k by {
            let j = choose|j: int| 0 <= j < entries@.len() && #[trigger] entries@[j].0@ == k;
            assert(is_expired(entries@[j].1, now, timeout));
            let s = choose|s: int| 0 <= s < picked.len() && picked[s] == j;
            assert(expired@[s]@ == k);
            assert(removed@[s].0@ == k);
        }
        assert(neighbor_entries(*map) =~= unexpired(before, now, timeout));
        assert forall|k: Seq<char>|
            before.contains_key(k) && is_expired(before[k], now, timeout) implies exists|i: int|
                0 <= i < removed@.len() && #[trigger] removed@[i].0@ == k by {
            assert(gone.contains(k));
        }
    }
    removed
}

/// An announcement recorded at `now` survives a cleanup at the same `now`,
/// whatever the timeout.
pub proof fn lemma_fresh_entry_survives_cleanup(
    m: Map<Seq<char>, NodeInfo>,
    name: Seq<char>,
    node_id: EndpointId,
    now: u128,
    timeout: u128,
)
    ensures
        unexpired(recorded(m, name, node_id, node_id.bytes, now), now, timeout).contains_key(name),
        unexpired(recorded(m, name, node_id, node_id.bytes, now), now, timeout)[name] == (NodeInfo {
            node_id,
            last_seen: now,
        }),
{
    let r = recorded(m, name, node_id, node_id.bytes, now);
    assert(r.dom().filter(|k: Seq<char>| !is_expired(r[k], now, timeout)).contains(name));
}

/// After a cleanup no remaining peer is expired, and a second cleanup at the
/// same time changes nothing.
pub proof fn lemma_cleanup_settles(m: Map<Seq<char>, NodeInfo>, now: u128, timeout: u128)
    ensures
        forall|k: Seq<char>| #[trigger] unexpired(m, now, timeout).contains_key(k) ==> !is_expired(
            unexpired(m, now, timeout)[k],
            now,
            timeout,
        ),
        unexpired(unexpired(m, now, timeout), now, timeout) == unexpired(m, now, timeout),
{
    let u = unexpired(m, now, timeout);
    assert(unexpired(u, now, timeout) =~= u);
}

/// A spoofed announcement changes nothing, and an announcement from a name
/// already known is never reported as a new peer.
pub proof fn lemma_spoofed_and_known(
    m: Map<Seq<char>, NodeInfo>,
    name: Seq<char>,
    node_id: EndpointId,
    signer: [u8; 32],
    now: u128,
)
    ensures
        node_id.bytes != signer ==> recorded(m, name, node_id, signer, now) == m && observation(m, name, node_id, signer) is Spoofed,
        m.contains_key(name) ==> !(observation(m, name, node_id, signer) is NewPeer),
        observation(m, name, node_id, signer) is NewPeer ==> !m.contains_key(name) && recorded(m, name, node_id, signer, now).contains_key(name),
{
}

/// Hearing a correctly signed announcement (its node id is its signer)
/// reports the node as a new peer exactly when its name is not in the table
/// before, whatever else the table holds; the name's entry becomes the node
/// id heard at `now`, and every other entry stays as it was.
pub proof fn lemma_genuine_announcement(
    m: Map<Seq<char>, NodeInfo>,
    name: Seq<char>,
    node_id: EndpointId,
    now: u128,
)
    ensures
        (observation(m, name, node_id, node_id.bytes) is NewPeer) <==> !m.contains_key(name),
        !m.contains_key(name) ==> observation(m, name, node_id, node_id.bytes) == Observation::NewPeer(node_id),
        m.contains_key(name) ==> observation(m, name, node_id, node_id.bytes) is Refreshed,
        recorded(m, name, node_id, node_id.bytes, now).contains_key(name),
        recorded(m, name, node_id, node_id.bytes, now)[name] == (NodeInfo { node_id, last_seen: now }),
        recorded(m, name, node_id, node_id.bytes, now).dom() == m.dom().insert(name),
        forall|k: Seq<char>|
            k != name && #[trigger] m.contains_key(k) ==> recorded(m, name, node_id, node_id.bytes, now)[k] == m[k],
{
    assert(recorded(m, name, node_id, node_id.bytes, now).dom() =~= m.dom().insert(name));
}

/// A sweep only takes entries away: every entry it keeps is the entry as it
/// was (its node id and the time it was last heard are untouched), it keeps
/// exactly the entries silent for at most the timeout (a time stamp in the
/// future counts as silent for no time), and it drops all others.
pub proof fn lemma_sweep_only_removes(m: Map<Seq<char>, NodeInfo>, now: u128, timeout: u128)
    ensures
        forall|k: Seq<char>| #[trigger] unexpired(m, now, timeout).contains_key(k) ==> m.contains_key(k)
            && unexpired(m, now, timeout)[k] == m[k],
        forall|k: Seq<char>|
            #[trigger] m.contains_key(k) ==> (unexpired(m, now, timeout).contains_key(k) <==> (now < m[k].last_seen
                || now - m[k].last_seen <= timeout)),
{
}


} // verus!
