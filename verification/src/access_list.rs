use vstd::prelude::*;

use std::collections::HashSet;

use crate::endpoint::{endpoint_key_decodes, EndpointId};

verus! {

/// The set of peers allowed to fetch one resource.
///
/// The members are kept in insertion order and no peer occurs twice.
#[derive(Debug)]
pub struct AccessList {
    members: Vec<EndpointId>,
}

impl View for AccessList {
    type V = Set<EndpointId>;

    closed spec fn view(&self) -> Set<EndpointId> {
        self.members@.to_set()
    }
}

/// An element-by-element copy of a list of peers.
fn copy_ids(ids: &Vec<EndpointId>) -> (out: Vec<EndpointId>)
    ensures
        out@ == ids@,
{
    let mut out: Vec<EndpointId> = Vec::new();
    let mut i: usize = 0;
    while i < ids.len()
        invariant
            0 <= i <= ids@.len(),
            out@ == ids@.subrange(0, i as int),
        decreases ids@.len() - i,
    {
        out.push(ids[i]);
        assert(out@ =~= ids@.subrange(0, i + 1));
        i = i + 1;
    }
    assert(out@ =~= ids@);
    out
}

impl Clone for AccessList {
    fn clone(&self) -> (r: AccessList)
        ensures
            r@ == self@,
            r.spec_members() == self.spec_members(),
    {
        proof {
            use_type_invariant(self);
        }
        AccessList { members: copy_ids(&self.members) }
    }
}

impl AccessList {
    #[verifier::type_invariant]
    closed spec fn members_distinct(self) -> bool {
        self.members@.no_duplicates()
    }

    /// The members in the order in which they joined.
    pub closed spec fn spec_members(self) -> Seq<EndpointId> {
        self.members@
    }

    /// What the type invariant gives: the member sequence lists each peer of
    /// the set exactly once.
    fn members_match_set(&self)
        ensures
            self.spec_members().no_duplicates(),
            self.spec_members().to_set() == self@,
            self@.finite(),
            self@.len() == self.spec_members().len(),
    {
        proof {
            use_type_invariant(self);
            self.members@.unique_seq_to_set();
            vstd::seq_lib::seq_to_set_is_finite(self.members@);
        }
    }

    /// An access list that admits nobody.
    pub fn new() -> (list: AccessList)
        ensures
            list@ == Set::<EndpointId>::empty(),
            list.spec_members() == Seq::<EndpointId>::empty(),
    {
        let list = AccessList { members: Vec::new() };
        assert(list.members@.to_set() =~= Set::<EndpointId>::empty());
        list
    }

    /// Whether `id` is admitted.
    pub fn contains(&self, id: &EndpointId) -> (r: bool)
        ensures
            r == self@.contains(*id),
    {
        let mut i: usize = 0;
        while i < self.members.len()
            invariant
                0 <= i <= self.members@.len(),
                forall|j: int| 0 <= j < i ==> self.members@[j] != *id,
            decreases self.members@.len() - i,
        {
            if self.members[i] == *id {
                assert(self.members@.to_set().contains(self.members@[i as int]));
                return true;
            }
            i = i + 1;
        }
        assert(!self.members@.contains(*id));
        false
    }

    /// Admits `id`; returns whether it was new, as `HashSet::insert` does.
    pub fn insert(&mut self, id: EndpointId) -> (added: bool)
        ensures
            added == !old(self)@.contains(id),
            final(self)@ == old(self)@.insert(id),
            added ==> final(self).spec_members() == old(self).spec_members().push(id),
            !added ==> final(self).spec_members() == old(self).spec_members(),
    {
        proof {
            use_type_invariant(&*self);
        }
        if self.contains(&id) {
            return false;
        }
        let ghost before = self.members@;
        assert(!before.contains(id));
        let mut members: Vec<EndpointId> = Vec::new();
        std::mem::swap(&mut members, &mut self.members);
        members.push(id);
        proof {
            assert(members@ == before.push(id));
            assert forall|i: int, j: int|
                0 <= i < members@.len() && 0 <= j < members@.len() && i != j
                implies members@[i] != members@[j] by {
                if i < before.len() && j < before.len() {
                } else if i == before.len() {
                    assert(before.contains(members@[j]));
                } else {
                    assert(before.contains(members@[i]));
                }
            }
        }
        self.members = members;
        proof {
            before.lemma_push_to_set_commute(id);
        }
        true
    }

    /// The number of admitted peers.
    pub fn len(&self) -> (n: usize)
        ensures
            n == self@.len(),
    {
        self.members_match_set();
        self.members.len()
    }

    /// The admitted peers, each once, in the order in which they joined.
    pub fn members(&self) -> (v: Vec<EndpointId>)
        ensures
            v@ == self.spec_members(),
            v@.no_duplicates(),
            v@.to_set() == self@,
    {
        self.members_match_set();
        copy_ids(&self.members)
    }

    /// Builds a list from peers in any order; a peer given twice is kept once.
    pub fn from_members(ids: &Vec<EndpointId>) -> (list: AccessList)
        ensures
            list@ == ids@.to_set(),
    {
        let mut list = AccessList::new();
        let mut i: usize = 0;
        while i < ids.len()
            invariant
                0 <= i <= ids@.len(),
                list@ == ids@.subrange(0, i as int).to_set(),
            decreases ids@.len() - i,
        {
            let _ = list.insert(ids[i]);
            assert(ids@.subrange(0, i + 1) =~= ids@.subrange(0, i as int).push(ids@[i as int]));
            proof {
                ids@.subrange(0, i as int).lemma_push_to_set_commute(ids@[i as int]);
            }
            i = i + 1;
        }
        assert(ids@.subrange(0, ids@.len() as int) =~= ids@);
        list
    }

    /// The list stored in `bytes` (JSON of a set of endpoint ids), or nothing
    /// when the bytes do not read as one.
    pub fn from_json(bytes: &[u8]) -> (list: Option<AccessList>)
        ensures
            list is Some <==> stored_member_keys(bytes@) is Some,
            list matches Some(l) ==> l@ == ids_of(stored_member_keys(bytes@).unwrap()),
    {
        match parse_member_keys(bytes) {
            None => None,
            Some(keys) => {
                let mut ids: Vec<EndpointId> = Vec::new();
                let mut i: usize = 0;
                while i < keys.len()
                    invariant
                        0 <= i <= keys@.len(),
                        ids@.len() == i,
                        forall|j: int| 0 <= j < i ==> #[trigger] ids@[j] == (EndpointId { bytes: keys@[j] }),
                    decreases keys@.len() - i,
                {
                    ids.push(EndpointId::from_bytes(keys[i]));
                    i = i + 1;
                }
                let list = AccessList::from_members(&ids);
                proof {
                    let stored = stored_member_keys(bytes@).unwrap();
                    assert forall|id: EndpointId| list@.contains(id) implies ids_of(stored).contains(id) by {
                        let j = choose|j: int| 0 <= j < ids@.len() && ids@[j] == id;
                        assert(keys@.to_set().contains(keys@[j]));
                    }
                    assert forall|id: EndpointId| ids_of(stored).contains(id) implies list@.contains(id) by {
                        let k = choose|k: [u8; 32]| stored.contains(k) && (EndpointId { bytes: k }) == id;
                        let j = choose|j: int| 0 <= j < keys@.len() && keys@[j] == k;
                        assert(ids@[j] == id);
                        assert(ids@.contains(id));
                    }
                    assert(list@ =~= ids_of(stored));
                }
                Some(list)
            },
        }
    }

    /// The bytes stored for this list: the JSON of the set of its members as
    /// `iroh` endpoint ids. There are none when a member's key does not
    /// decode; otherwise reading the bytes back gives this list's keys.
    pub fn to_json(&self) -> (bytes: Option<Vec<u8>>)
        ensures
            bytes is Some <==> forall|id: EndpointId| self@.contains(id) ==> endpoint_key_decodes(id.bytes),
            bytes matches Some(b) ==> stored_member_keys(b@) == Some(keys_of(self@)),
    {
        self.members_match_set();
        let ids = copy_ids(&self.members);
        let mut keys: Vec<[u8; 32]> = Vec::new();
        let mut i: usize = 0;
        while i < ids.len()
            invariant
                0 <= i <= ids@.len(),
                keys@.len() == i,
                forall|j: int| 0 <= j < i ==> #[trigger] keys@[j] == ids@[j].bytes,
            decreases ids@.len() - i,
        {
            keys.push(ids[i].to_bytes());
            i = i + 1;
        }
        let bytes = write_member_keys(&keys);
        proof {
            assert forall|id: EndpointId| self@.contains(id) implies keys@.contains(id.bytes) by {
                let j = choose|j: int| 0 <= j < ids@.len() && ids@[j] == id;
                assert(keys@[j] == id.bytes);
            }
            assert(keys@.to_set() =~= keys_of(self@)) by {
                assert forall|k: [u8; 32]| keys@.to_set().contains(k) implies keys_of(self@).contains(k) by {
                    let j = choose|j: int| 0 <= j < keys@.len() && keys@[j] == k;
                    assert(self@.contains(ids@[j]));
                }
                assert forall|k: [u8; 32]| keys_of(self@).contains(k) implies keys@.to_set().contains(k) by {
                    let id = choose|id: EndpointId| self@.contains(id) && id.bytes == k;
                    assert(keys@.contains(id.bytes));
                }
            }
            if bytes is Some {
                assert forall|id: EndpointId| self@.contains(id) implies endpoint_key_decodes(id.bytes) by {
                    let j = choose|j: int| 0 <= j < ids@.len() && ids@[j] == id;
                    assert(keys@[j] == id.bytes);
                }
            } else {
                let j = choose|j: int| 0 <= j < keys@.len() && !endpoint_key_decodes(#[trigger] keys@[j]);
                assert(self@.contains(ids@[j]));
            }
        }
        bytes
    }

    /// The list that appending `id` to the stored list yields: a resource with
    /// no stored list starts from the empty list. Returns the new list and
    /// whether `id` was added, that is whether the list must be written back.
    pub fn append_member(current: Option<AccessList>, id: EndpointId) -> (r: (AccessList, bool))
        ensures
            (r.0@, r.1) == appended(stored_members(current), id),
    {
        let mut list = match current {
            Some(l) => l,
            None => AccessList::new(),
        };
        let added = list.insert(id);
        (list, added)
    }
}

/// The key bytes of the peers that a stored access list (the JSON of a set of
/// `iroh` endpoint ids) holds, as `serde_json` reads it into a
/// `HashSet<iroh::EndpointId>`; nothing when it does not read.
pub uninterp spec fn stored_member_keys(bytes: Seq<u8>) -> Option<Set<[u8; 32]>>;

/// Calls `serde_json::from_slice::<HashSet<iroh::EndpointId>>` and copies out
/// each key's bytes. The set that comes out is named `stored_member_keys`; the
/// order in which the set is walked is not stated. Every key was read through
/// `EndpointId::from_str`, so it decodes.
#[verifier::external_body]
fn parse_member_keys(bytes: &[u8]) -> (keys: Option<Vec<[u8; 32]>>)
    ensures
        keys is Some <==> stored_member_keys(bytes@) is Some,
        keys matches Some(k) ==> k@.no_duplicates() && k@.to_set() == stored_member_keys(bytes@).unwrap()
            && forall|i: int| 0 <= i < k@.len() ==> endpoint_key_decodes(#[trigger] k@[i]),
{
    serde_json::from_slice::<HashSet<iroh::EndpointId>>(bytes)
        .ok()
        .map(|set| set.iter().map(|key| *key.as_bytes()).collect())
}

/// Turns each key into an `iroh::EndpointId` (`EndpointId::from_bytes`) and
/// writes the set as JSON with `serde_json::to_vec`. It fails exactly when a
/// key does not decode. The order of the written set is not stated; reading
/// the bytes back gives the same set of keys, since an id is written as its
/// hexadecimal text and read back through `from_str`.
#[verifier::external_body]
fn write_member_keys(keys: &Vec<[u8; 32]>) -> (bytes: Option<Vec<u8>>)
    ensures
        bytes is Some <==> forall|i: int| 0 <= i < keys@.len() ==> endpoint_key_decodes(#[trigger] keys@[i]),
        bytes matches Some(b) ==> stored_member_keys(b@) == Some(keys@.to_set()),
{
    let set: HashSet<iroh::EndpointId> = keys
        .iter()
        .map(|key| iroh::EndpointId::from_bytes(key))
        .collect::<Result<_, _>>()
        .ok()?;
    serde_json::to_vec(&set).ok()
}

/// The peers that some key bytes stand for.
pub open spec fn ids_of(keys: Set<[u8; 32]>) -> Set<EndpointId> {
    keys.map(|k: [u8; 32]| EndpointId { bytes: k })
}

/// The key bytes of some peers.
pub open spec fn keys_of(ids: Set<EndpointId>) -> Set<[u8; 32]> {
    ids.map(|id: EndpointId| id.bytes)
}

/// A peer and its key bytes stand for each other.
pub proof fn lemma_ids_keys_roundtrip(ids: Set<EndpointId>)
    ensures
        ids_of(keys_of(ids)) == ids,
{
    assert forall|id: EndpointId| ids.contains(id) implies ids_of(keys_of(ids)).contains(id) by {
        assert(keys_of(ids).contains(id.bytes));
        assert((EndpointId { bytes: id.bytes }) == id);
    }
    assert forall|id: EndpointId| ids_of(keys_of(ids)).contains(id) implies ids.contains(id) by {
        let k = choose|k: [u8; 32]| keys_of(ids).contains(k) && (EndpointId { bytes: k }) == id;
        let j = choose|j: EndpointId| ids.contains(j) && j.bytes == k;
        assert(j == id);
    }
    assert(ids_of(keys_of(ids)) =~= ids);
}

/// What is stored for an access list is read back as the same list: the
/// members written by `AccessList::to_json` are the members that
/// `AccessList::from_json` finds in those bytes.
pub proof fn lemma_stored_list_reads_back(members: Set<EndpointId>, bytes: Seq<u8>)
    requires
        stored_member_keys(bytes) == Some(keys_of(members)),
    ensures
        stored_member_keys(bytes) matches Some(k) && ids_of(k) == members,
{
    lemma_ids_keys_roundtrip(members);
}

/// The members of a stored list, if one was found.
pub open spec fn stored_members(current: Option<AccessList>) -> Option<Set<EndpointId>> {
    match current {
        Some(l) => Some(l@),
        None => None,
    }
}

/// Appending `id` to a stored member set (none: the empty set): the new set
/// and whether it differs from the stored one.
pub open spec fn appended(current: Option<Set<EndpointId>>, id: EndpointId) -> (Set<EndpointId>, bool) {
    match current {
        Some(m) => (m.insert(id), !m.contains(id)),
        None => (Set::empty().insert(id), true),
    }
}

/// After an append the peer is a member and nobody else joined or left; an
/// append reports a change exactly when the peer was not yet a member, so a
/// second append of the same peer changes nothing and writes nothing.
pub proof fn lemma_append_laws(current: Option<Set<EndpointId>>, id: EndpointId, other: EndpointId)
    ensures
        appended(current, id).0.contains(id),
        other != id ==> (appended(current, id).0.contains(other) <==> (current matches Some(m) && m.contains(other))),
        appended(Some(appended(current, id).0), id) == (appended(current, id).0, false),
        appended(current, id).1 <==> !(current matches Some(m) && m.contains(id)),
{
    let first = appended(current, id).0;
    assert(first.insert(id) =~= first);
}

} // verus!
