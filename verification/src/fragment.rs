//! Proof fragments: the per-level pieces of a commitment proof, as plain
//! values, together with their mathematical views.
//!
//! Operation codes (`hash`, `prehash_key`, `prehash_value`, `length`) are kept
//! as the integers that travel on the wire; only the proof engine reads them.

use vstd::prelude::*;

verus! {

/// How a leaf is turned into a hash.
#[derive(Clone, Debug, PartialEq, Eq)]
pub struct LeafOperation {
    pub hash: i32,
    pub prehash_key: i32,
    pub prehash_value: i32,
    pub length: i32,
    pub prefix: Vec<u8>,
}

/// The value of a [`LeafOperation`].
pub struct LeafOperationView {
    pub hash: i32,
    pub prehash_key: i32,
    pub prehash_value: i32,
    pub length: i32,
    pub prefix: Seq<u8>,
}

impl View for LeafOperation {
    type V = LeafOperationView;

    open spec fn view(&self) -> LeafOperationView {
        LeafOperationView {
            hash: self.hash,
            prehash_key: self.prehash_key,
            prehash_value: self.prehash_value,
            length: self.length,
            prefix: self.prefix@,
        }
    }
}

/// One step from a child hash to its parent's hash.
#[derive(Clone, Debug, PartialEq, Eq)]
pub struct InnerOperation {
    pub hash: i32,
    pub prefix: Vec<u8>,
    pub suffix: Vec<u8>,
}

/// The value of an [`InnerOperation`].
pub struct InnerOperationView {
    pub hash: i32,
    pub prefix: Seq<u8>,
    pub suffix: Seq<u8>,
}

impl View for InnerOperation {
    type V = InnerOperationView;

    open spec fn view(&self) -> InnerOperationView {
        InnerOperationView { hash: self.hash, prefix: self.prefix@, suffix: self.suffix@ }
    }
}

/// The values of a list of inner steps, in order.
pub open spec fn path_view(path: Seq<InnerOperation>) -> Seq<InnerOperationView> {
    Seq::new(path.len(), |i: int| path[i]@)
}

/// The value of an optional leaf operation.
pub open spec fn leaf_view(leaf: Option<LeafOperation>) -> Option<LeafOperationView> {
    match leaf {
        Some(op) => Some(op@),
        None => None,
    }
}

/// A leaf together with the inner steps that lead from it to the root of
/// its tree.
#[derive(Clone, Debug, PartialEq, Eq)]
pub struct ExistenceFragment {
    pub key: Vec<u8>,
    pub value: Vec<u8>,
    pub leaf: Option<LeafOperation>,
    pub path: Vec<InnerOperation>,
}

/// The value of an [`ExistenceFragment`].
pub struct ExistenceFragmentView {
    pub key: Seq<u8>,
    pub value: Seq<u8>,
    pub leaf: Option<LeafOperationView>,
    pub path: Seq<InnerOperationView>,
}

impl View for ExistenceFragment {
    type V = ExistenceFragmentView;

    open spec fn view(&self) -> ExistenceFragmentView {
        ExistenceFragmentView {
            key: self.key@,
            value: self.value@,
            leaf: leaf_view(self.leaf),
            path: path_view(self.path@),
        }
    }
}

/// The value of an optional neighbour.
pub open spec fn neighbour_view(neighbour: Option<ExistenceFragment>) -> Option<
    ExistenceFragmentView,
> {
    match neighbour {
        Some(proof) => Some(proof@),
        None => None,
    }
}

/// The neighbours of an absent key: the nearest present key on each side,
/// where there is one.
#[derive(Clone, Debug, PartialEq, Eq)]
pub struct NonExistenceFragment {
    pub key: Vec<u8>,
    pub left: Option<ExistenceFragment>,
    pub right: Option<ExistenceFragment>,
}

/// The value of a [`NonExistenceFragment`].
pub struct NonExistenceFragmentView {
    pub key: Seq<u8>,
    pub left: Option<ExistenceFragmentView>,
    pub right: Option<ExistenceFragmentView>,
}

impl View for NonExistenceFragment {
    type V = NonExistenceFragmentView;

    open spec fn view(&self) -> NonExistenceFragmentView {
        NonExistenceFragmentView {
            key: self.key@,
            left: neighbour_view(self.left),
            right: neighbour_view(self.right),
        }
    }
}

/// One entry of a batch: an existence or a non-existence proof.
#[derive(Clone, Debug, PartialEq, Eq)]
pub enum BatchEntryProof {
    Exist(ExistenceFragment),
    Nonexist(NonExistenceFragment),
}

#[derive(Clone, Debug, PartialEq, Eq)]
pub struct BatchEntry {
    pub proof: Option<BatchEntryProof>,
}

/// Several proofs against one tree.
#[derive(Clone, Debug, PartialEq, Eq)]
pub struct BatchProof {
    pub entries: Vec<BatchEntry>,
}

/// An existence proof whose inner steps are indices into a shared table.
#[derive(Clone, Debug, PartialEq, Eq)]
pub struct CompressedExistenceFragment {
    pub key: Vec<u8>,
    pub value: Vec<u8>,
    pub leaf: Option<LeafOperation>,
    pub path: Vec<i32>,
}

#[derive(Clone, Debug, PartialEq, Eq)]
pub struct CompressedNonExistenceFragment {
    pub key: Vec<u8>,
    pub left: Option<CompressedExistenceFragment>,
    pub right: Option<CompressedExistenceFragment>,
}

#[derive(Clone, Debug, PartialEq, Eq)]
pub enum CompressedEntryProof {
    Exist(CompressedExistenceFragment),
    Nonexist(CompressedNonExistenceFragment),
}

#[derive(Clone, Debug, PartialEq, Eq)]
pub struct CompressedBatchEntry {
    pub proof: Option<CompressedEntryProof>,
}

/// A batch whose entries share one table of inner steps.
#[derive(Clone, Debug, PartialEq, Eq)]
pub struct CompressedBatchProof {
    pub entries: Vec<CompressedBatchEntry>,
    pub lookup_inners: Vec<InnerOperation>,
}

/// What a proof level can hold.
#[derive(Clone, Debug, PartialEq, Eq)]
pub enum Proof {
    Exist(ExistenceFragment),
    Nonexist(NonExistenceFragment),
    Batch(BatchProof),
    Compressed(CompressedBatchProof),
}

/// The proof given for one level of a chain of trees.
#[derive(Clone, Debug, PartialEq, Eq)]
pub struct CommitmentProof {
    pub proof: Option<Proof>,
}

/// What verification reads of a [`CommitmentProof`]: an existence proof, a
/// non-existence proof, or anything else.
pub enum FragmentView {
    Exist(ExistenceFragmentView),
    Nonexist(NonExistenceFragmentView),
    Other,
}

impl View for CommitmentProof {
    type V = FragmentView;

    open spec fn view(&self) -> FragmentView {
        match self.proof {
            Some(Proof::Exist(proof)) => FragmentView::Exist(proof@),
            Some(Proof::Nonexist(proof)) => FragmentView::Nonexist(proof@),
            _ => FragmentView::Other,
        }
    }
}

/// The values of a list of proof levels, in order.
pub open spec fn fragments_view(proofs: Seq<CommitmentProof>) -> Seq<FragmentView> {
    Seq::new(proofs.len(), |i: int| proofs[i]@)
}

} // verus!
