//! Merkle proofs over a chain of trees: a value (or the absence of a key)
//! is proven in the lowest tree, the root of each tree is proven as a value
//! in the tree above it, and the root of the highest tree is the commitment
//! root.

use vstd::prelude::*;
use vstd::std_specs::convert::{FromSpecImpl, TryFromSpecImpl};
use vstd::utf8::encode_utf8;
use crate::chain::{
    calculate_non_existence_root, check_root, check_shape, confirm_absence, level_key,
    membership_outcome, non_membership_outcome, verify_level, walk,
};
use crate::commitment::{prefix_text, CommitmentPrefix, CommitmentRoot};
use crate::error::CommitmentError;
use crate::fragment::{fragments_view, CommitmentProof, FragmentView, Proof};
use crate::specs::ProofSpecs;

verus! {

/// The root of the highest tree, as it travels on the wire.
#[derive(Clone, Debug, PartialEq, Eq)]
pub struct MerkleRoot {
    pub hash: Vec<u8>,
}

impl View for MerkleRoot {
    type V = Seq<u8>;

    open spec fn view(&self) -> Seq<u8> {
        self.hash@
    }
}

impl From<CommitmentRoot> for MerkleRoot {
    /// The wire form of a commitment root: the same bytes.
    fn from(root: CommitmentRoot) -> (res: MerkleRoot) {
        MerkleRoot { hash: root.into_vec() }
    }
}

impl FromSpecImpl<CommitmentRoot> for MerkleRoot {
    open spec fn obeys_from_spec() -> bool {
        true
    }

    open spec fn from_spec(root: CommitmentRoot) -> MerkleRoot {
        MerkleRoot { hash: root.bytes }
    }
}

/// The key segments of a value, one per tree, from the highest tree down to
/// the lowest.
#[derive(Clone, Debug, PartialEq, Eq)]
pub struct MerklePath {
    pub key_path: Vec<String>,
}

/// The text of each segment, in the order of the segments.
pub open spec fn segments(path: Seq<String>) -> Seq<Seq<char>> {
    Seq::new(path.len(), |i: int| path[i]@)
}

impl View for MerklePath {
    type V = Seq<Seq<char>>;

    open spec fn view(&self) -> Seq<Seq<char>> {
        segments(self.key_path@)
    }
}

/// The path that starts with the text of `prefix` and goes on with the
/// segments of `path`, in their order.
pub fn apply_prefix(prefix: &CommitmentPrefix, path: Vec<String>) -> (res: MerklePath)
    ensures
        res@ == seq![prefix_text(prefix@)] + segments(path@),
{
    let mut path = path;
    let ghost given = path@;
    let mut key_path: Vec<String> = Vec::new();
    key_path.push(prefix.text());
    key_path.append(&mut path);
    assert(segments(key_path@) =~= seq![prefix_text(prefix@)] + segments(given));
    MerklePath { key_path }
}

/// The keys that a path stands for: the bytes of each segment, in the
/// order of the segments.
pub open spec fn path_keys(path: Seq<Seq<char>>) -> Seq<Seq<u8>> {
    Seq::new(path.len(), |i: int| encode_utf8(path[i]))
}

/// The proofs of a chain of trees, one per tree, from the lowest tree up to
/// the highest.
#[derive(Clone, Debug, PartialEq)]
pub struct MerkleProof {
    pub proofs: Vec<CommitmentProof>,
}

impl View for MerkleProof {
    type V = Seq<FragmentView>;

    open spec fn view(&self) -> Seq<FragmentView> {
        fragments_view(self.proofs@)
    }
}

/// A Merkle proof as it travels on the wire: the list of its proof levels.
#[derive(Clone, Debug, PartialEq)]
pub struct RawMerkleProof {
    pub proofs: Vec<CommitmentProof>,
}

impl TryFrom<RawMerkleProof> for MerkleProof {
    type Error = CommitmentError;

    /// The proof with the levels of the wire form, in their order.
    fn try_from(proof: RawMerkleProof) -> (res: Result<MerkleProof, CommitmentError>) {
        Ok(MerkleProof { proofs: proof.proofs })
    }
}

impl TryFromSpecImpl<RawMerkleProof> for MerkleProof {
    open spec fn obeys_try_from_spec() -> bool {
        true
    }

    open spec fn try_from_spec(proof: RawMerkleProof) -> Result<MerkleProof, CommitmentError> {
        Ok(MerkleProof { proofs: proof.proofs })
    }
}

impl From<MerkleProof> for RawMerkleProof {
    /// The wire form with the levels of the proof, in their order.
    fn from(proof: MerkleProof) -> (res: RawMerkleProof) {
        RawMerkleProof { proofs: proof.proofs }
    }
}

impl FromSpecImpl<MerkleProof> for RawMerkleProof {
    open spec fn obeys_from_spec() -> bool {
        true
    }

    open spec fn from_spec(proof: MerkleProof) -> RawMerkleProof {
        RawMerkleProof { proofs: proof.proofs }
    }
}

impl MerkleProof {
    /// Verifies that the key given by `keys` holds `value` under `root`.
    ///
    /// Levels below `start_index` are taken as verified: the walk starts at
    /// level `start_index` with `value` as the value to prove there.
    pub fn verify_membership(
        &self,
        specs: &ProofSpecs,
        root: MerkleRoot,
        keys: MerklePath,
        value: Vec<u8>,
        start_index: u64,
    ) -> (res: Result<(), CommitmentError>)
        ensures
            res == membership_outcome(
                self@,
                specs@,
                root@,
                path_keys(keys@),
                value@,
                start_index as nat,
            ),
    {
        let num: usize = self.proofs.len();
        match check_shape(num, root.hash.len(), specs.specs.len(), keys.key_path.len()) {
            Err(e) => {
                return Err(e);
            },
            Ok(_) => {},
        }
        if value.len() == 0 {
            return Err(CommitmentError::EmptyVerifiedValue);
        }
        let mut current: Vec<u8> = value.clone();
        let mut level: usize = if start_index >= num as u64 {
            num
        } else {
            start_index as usize
        };
        assert(current@ == value@);
        while level < num
            invariant
                num == self.proofs@.len(),
                num == specs.specs@.len(),
                num == keys.key_path@.len(),
                root@.len() != 0,
                value@.len() != 0,
                0 < num,
                level <= num,
                walk(self@, specs@, path_keys(keys@), value@, start_index as int, num as int)
                    == walk(self@, specs@, path_keys(keys@), current@, level as int, num as int),
            decreases num - level,
        {
            let key = keys.key_path[num - 1 - level].as_str().as_bytes();
            assert(key@ == level_key(path_keys(keys@), level as int));
            assert(self@[level as int] == self.proofs@[level as int]@);
            assert(specs@[level as int] == specs.specs@[level as int]@);
            match verify_level(&self.proofs[level], &specs.specs[level], key, current.as_slice()) {
                Ok(subroot) => {
                    current = subroot;
                },
                Err(e) => {
                    return Err(e);
                },
            }
            level += 1;
        }
        check_root(root.hash.as_slice(), current.as_slice())
    }

    /// Verifies that the key given by `keys` is absent under `root`.
    ///
    /// The lowest level must show the absence of the lowest key in its
    /// tree; the root of that tree is then verified as a member of the
    /// chain from the second level up.
    pub fn verify_non_membership(
        &self,
        specs: &ProofSpecs,
        root: MerkleRoot,
        keys: MerklePath,
    ) -> (res: Result<(), CommitmentError>)
        ensures
            res == non_membership_outcome(self@, specs@, root@, path_keys(keys@)),
    {
        let num: usize = self.proofs.len();
        match check_shape(num, root.hash.len(), specs.specs.len(), keys.key_path.len()) {
            Err(e) => {
                return Err(e);
            },
            Ok(_) => {},
        }
        assert(self@[0] == self.proofs@[0]@);
        assert(specs@[0] == specs.specs@[0]@);
        let lowest = &self.proofs[0].proof;
        match lowest {
            Some(Proof::Nonexist(absence)) => {
                match calculate_non_existence_root(absence) {
                    Ok(subroot) => {
                        let key = keys.key_path[num - 1].as_str().as_bytes();
                        assert(key@ == level_key(path_keys(keys@), 0));
                        if !confirm_absence(absence, &specs.specs[0], &subroot, key) {
                            return Err(CommitmentError::VerificationFailure);
                        }
                        self.verify_membership(specs, root, keys, subroot, 1)
                    },
                    Err(e) => Err(e),
                }
            },
            _ => Err(CommitmentError::InvalidMerkleProof),
        }
    }
}

} // verus!
