use vstd::prelude::*;
use vstd::string::*;

use crate::status::Status;
use crate::store::merkle::{hex_encode, merkle_root, merkle_root_hex};

verus! {

/// The name under which a file of a resource is stored: `resource/filename`.
pub open spec fn tag_name(resource: Seq<char>, filename: Seq<char>) -> Seq<char> {
    resource + seq!['/'] + filename
}

/// The leaves one after the other, 32 bytes each.
pub open spec fn concat_leaves(leaves: Seq<[u8; 32]>) -> Seq<u8>
    decreases leaves.len(),
{
    if leaves.len() == 0 {
        Seq::empty()
    } else {
        concat_leaves(leaves.drop_last()) + leaves.last()@
    }
}

/// The leaves of a list of uploaded files.
pub open spec fn leaves_of(files: Seq<(String, [u8; 32])>) -> Seq<[u8; 32]> {
    files.map_values(|f: (String, [u8; 32])| f.1)
}

/// What the store must record after the files of a directory were added:
/// the resource name (the hexadecimal Merkle root of the files' leaves), one
/// tag per file, and the blob of all leaves that is stored under the root.
#[derive(Debug)]
pub struct UploadPlan {
    pub root: String,
    pub file_tags: Vec<String>,
    pub leaves_blob: Vec<u8>,
}

/// Why an upload could not be planned.
#[derive(Debug, Clone, Copy, PartialEq, Eq, Structural)]
pub enum UploadError {
    /// The directory held no file, so the Merkle tree has no root.
    NoRootHash,
}

/// A storage front over a node's blob store `I`.
#[derive(Debug, Clone)]
pub struct StorageManager<I> {
    iroh_instance: I,
}

impl<I> StorageManager<I> {
    /// The blob store that this manager works on.
    pub closed spec fn spec_instance(&self) -> I {
        self.iroh_instance
    }

    pub fn new(iroh_instance: I) -> (m: StorageManager<I>)
        ensures
            m.spec_instance() == iroh_instance,
    {
        StorageManager { iroh_instance }
    }

    pub fn iroh_instance(&self) -> (i: &I)
        ensures
            *i == self.spec_instance(),
    {
        &self.iroh_instance
    }

    /// The tag of `filename` within `resource`.
    pub fn tag_for(resource: &str, filename: &str) -> (tag: String)
        ensures
            tag@ == tag_name(resource@, filename@),
    {
        let sep = "/";
        proof {
            reveal_strlit("/");
        }
        let tag = String::from_str(resource);
        let tag = tag.concat(sep);
        let tag = tag.concat(filename);
        assert(sep@ == seq!['/']);
        tag
    }

    /// The status byte that answers a request for a file: `Allowed` when its
    /// tag is stored, `FileNotFound` when it is not.
    pub fn reply_for_lookup(found: bool) -> (s: Status)
        ensures
            s == (if found { Status::Allowed } else { Status::FileNotFound }),
    {
        if found {
            Status::Allowed
        } else {
            Status::FileNotFound
        }
    }

    /// The leaf of a file from the bytes of its digest: the bytes taken as
    /// they are, when there are exactly 32 of them.
    pub fn leaf_from_digest(digest: &[u8]) -> (leaf: Option<[u8; 32]>)
        ensures
            leaf is Some <==> digest@.len() == 32,
            leaf matches Some(l) ==> l@ == digest@,
    {
        if digest.len() != 32 {
            return None;
        }
        let mut out: [u8; 32] = [0u8; 32];
        let mut i: usize = 0;
        while i < 32
            invariant
                0 <= i <= 32,
                digest@.len() == 32,
                forall|j: int| 0 <= j < i ==> out@[j] == digest@[j],
            decreases 32 - i,
        {
            out[i] = digest[i];
            i = i + 1;
        }
        assert(out@ =~= digest@);
        Some(out)
    }

    /// Plans the tags of an uploaded directory. `files` holds, in the order in
    /// which they were added, each file's name and leaf. The resource is named
    /// by the hexadecimal Merkle root of the leaves; each file is tagged
    /// `root/name`; the leaves, concatenated, form the blob stored under the
    /// root itself.
    pub fn plan_upload(files: &Vec<(String, [u8; 32])>) -> (r: Result<UploadPlan, UploadError>)
        ensures
            r is Err <==> files@.len() == 0,
            r matches Err(e) ==> e == UploadError::NoRootHash,
            r matches Ok(plan) ==> {
                &&& plan.root@ == hex_encode(merkle_root(leaves_of(files@))@)
                &&& plan.file_tags@.len() == files@.len()
                &&& forall|i: int|
                    0 <= i < files@.len() ==> #[trigger] plan.file_tags@[i]@ == tag_name(
                        plan.root@,
                        files@[i].0@,
                    )
                &&& plan.leaves_blob@ == concat_leaves(leaves_of(files@))
            },
    {
        let mut leaves: Vec<[u8; 32]> = Vec::new();
        let mut blob: Vec<u8> = Vec::new();
        let mut i: usize = 0;
        while i < files.len()
            invariant
                0 <= i <= files@.len(),
                leaves@ == leaves_of(files@).subrange(0, i as int),
                blob@ == concat_leaves(leaves@),
            decreases files@.len() - i,
        {
            let leaf = files[i].1;
            let ghost before = blob@;
            let mut j: usize = 0;
            while j < 32
                invariant
                    0 <= j <= 32,
                    blob@ == before + leaf@.subrange(0, j as int),
                decreases 32 - j,
            {
                blob.push(leaf[j]);
                assert(blob@ =~= before + leaf@.subrange(0, j + 1));
                j = j + 1;
            }
            let ghost prev = leaves@;
            leaves.push(leaf);
            assert(leaves@.drop_last() == prev);
            assert(leaf@.subrange(0, 32) =~= leaf@);
            assert(leaves@ =~= leaves_of(files@).subrange(0, i + 1));
            i = i + 1;
        }
        assert(leaves@ =~= leaves_of(files@));
        let root = match merkle_root_hex(&leaves) {
            Some(root) => root,
            None => {
                return Err(UploadError::NoRootHash);
            },
        };
        let mut file_tags: Vec<String> = Vec::new();
        let mut k: usize = 0;
        while k < files.len()
            invariant
                0 <= k <= files@.len(),
                file_tags@.len() == k,
                forall|x: int| 0 <= x < k ==> #[trigger] file_tags@[x]@ == tag_name(root@, files@[x].0@),
            decreases files@.len() - k,
        {
            let tag = Self::tag_for(root.as_str(), files[k].0.as_str());
            file_tags.push(tag);
            k = k + 1;
        }
        Ok(UploadPlan { root, file_tags, leaves_blob: blob })
    }
}

/// Two hexadecimal digits per byte.
pub proof fn lemma_hex_len(bytes: Seq<u8>)
    ensures
        hex_encode(bytes).len() == 2 * bytes.len(),
    decreases bytes.len(),
{
    if bytes.len() > 0 {
        lemma_hex_len(bytes.drop_first());
    }
}

/// The tags that uploads write never clash: a tag names one resource (a
/// 64-digit root) and one file within it, so files of different uploads, or
/// different files of one upload, are stored under different tags.
pub proof fn lemma_file_tags_unambiguous(root1: [u8; 32], root2: [u8; 32], name1: Seq<char>, name2: Seq<char>)
    requires
        tag_name(hex_encode(root1@), name1) == tag_name(hex_encode(root2@), name2),
    ensures
        hex_encode(root1@) == hex_encode(root2@),
        name1 == name2,
{
    let h1 = hex_encode(root1@);
    let h2 = hex_encode(root2@);
    lemma_hex_len(root1@);
    lemma_hex_len(root2@);
    let t = tag_name(h1, name1);
    assert(t.subrange(0, 64) =~= h1);
    assert(tag_name(h2, name2).subrange(0, 64) =~= h2);
    assert(t.subrange(65, t.len() as int) =~= name1);
    assert(tag_name(h2, name2).subrange(65, t.len() as int) =~= name2);
}

/// The blob of the leaves holds every leaf, in order, 32 bytes each: leaf
/// `i` is bytes `32 i .. 32 i + 32`, and appending a leaf appends its bytes.
pub proof fn lemma_concat_leaves(leaves: Seq<[u8; 32]>)
    ensures
        concat_leaves(leaves).len() == 32 * leaves.len(),
        forall|i: int|
            0 <= i < leaves.len() ==> #[trigger] concat_leaves(leaves).subrange(32 * i, 32 * i + 32) == leaves[i]@,
        forall|l: [u8; 32]| #[trigger] concat_leaves(leaves.push(l)) == concat_leaves(leaves) + l@,
    decreases leaves.len(),
{
    assert forall|l: [u8; 32]| #[trigger] concat_leaves(leaves.push(l)) == concat_leaves(leaves) + l@ by {
        assert(leaves.push(l).drop_last() =~= leaves);
    }
    if leaves.len() > 0 {
        let init = leaves.drop_last();
        lemma_concat_leaves(init);
        let c = concat_leaves(leaves);
        assert(c == concat_leaves(init) + leaves.last()@);
        assert forall|i: int| 0 <= i < leaves.len() implies #[trigger] c.subrange(32 * i, 32 * i + 32) == leaves[i]@ by {
            if i < init.len() {
                assert(concat_leaves(init).subrange(32 * i, 32 * i + 32) == init[i]@);
                assert(c.subrange(32 * i, 32 * i + 32) =~= concat_leaves(init).subrange(32 * i, 32 * i + 32));
            } else {
                assert(c.subrange(32 * i, 32 * i + 32) =~= leaves.last()@);
            }
        }
    }
}

} // verus!
