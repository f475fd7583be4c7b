//! The proof engine: the `ics23` crate, which recomputes the root that one
//! proof fragment implies and checks one fragment against a spec.
//!
//! The engine is a black box to this library. What it returns is given a
//! name here, and the functions of this module that call it say only that
//! their result is the named one, for the fragment and the spec whose
//! fields they hand over one by one.
//!
//! The engine is not asked everything. It computes the sizes of inner nodes
//! in 32-bit arithmetic, and it walks down the paths of two neighbours until
//! they part: it is asked only where [`membership_askable`] or
//! [`absence_askable`] holds, so that the sizes it computes fit and the walk
//! ends. Both follow what the engine computes for the fragment at hand: a
//! spec whose sizes the engine does not come to compute is handed on
//! whatever it holds. Where one of them fails, the engine could say yes
//! only to a spec that names more than 2^31 children.

use vstd::prelude::*;
use crate::digest::HostFunctionsManager;
use crate::fragment::{
    ExistenceFragment, ExistenceFragmentView, InnerOperationView, LeafOperation,
    NonExistenceFragment, NonExistenceFragmentView,
};
use crate::specs::{sibling_bytes, InnerNodeSpec, InnerNodeSpecView, ProofSpec, ProofSpecView};

verus! {

/// The engine's error: `anyhow::Error`.
#[verifier::external_type_specification]
#[verifier::external_body]
pub struct ExEngineError(anyhow::Error);

/// The engine's leaf operation: `ics23::LeafOp`.
#[verifier::external_type_specification]
#[verifier::external_body]
pub struct ExEngineLeafOp(ics23::LeafOp);

/// The engine's inner spec: `ics23::InnerSpec`.
#[verifier::external_type_specification]
#[verifier::external_body]
pub struct ExEngineInnerSpec(ics23::InnerSpec);

/// The engine's existence proof: `ics23::ExistenceProof`.
#[verifier::external_type_specification]
#[verifier::external_body]
pub struct ExEngineExistenceProof(ics23::ExistenceProof);

/// The root that `ics23::calculate_existence_root` computes from an
/// existence proof, with the digests of `HostFunctionsManager`; `None` where
/// it reports an error.
pub uninterp spec fn existence_root(proof: ExistenceFragmentView) -> Option<Seq<u8>>;

/// Whether `ics23::verify_membership` accepts an existence proof for `key`
/// and `value` under `spec` and `root`.
pub uninterp spec fn membership_holds(
    proof: ExistenceFragmentView,
    spec: ProofSpecView,
    root: Seq<u8>,
    key: Seq<u8>,
    value: Seq<u8>,
) -> bool;

/// Whether `ics23::verify_non_membership` accepts a non-existence proof for
/// `key` under `spec` and `root`.
pub uninterp spec fn non_membership_holds(
    proof: NonExistenceFragmentView,
    spec: ProofSpecView,
    root: Seq<u8>,
    key: Seq<u8>,
) -> bool;

/// Two inner steps look alike to the engine when they agree in prefix and
/// suffix.
pub open spec fn same_step(a: InnerOperationView, b: InnerOperationView) -> bool {
    a.prefix == b.prefix && a.suffix == b.suffix
}

/// The step of `path` that lies `depth` steps below its top.
pub open spec fn step_from_top(path: Seq<InnerOperationView>, depth: int) -> InnerOperationView {
    path[path.len() - 1 - depth]
}

/// Two paths part when, walking down from their tops, a pair of unlike steps
/// is met before either path ends.
pub open spec fn paths_part(left: Seq<InnerOperationView>, right: Seq<InnerOperationView>) -> bool {
    exists|depth: int|
        0 <= depth < left.len() && depth < right.len() && !same_step(
            #[trigger] step_from_top(left, depth),
            step_from_top(right, depth),
        )
}

impl NonExistenceFragmentView {
    /// The engine tells a left neighbour from a right one by the step at
    /// which their paths part. Where both neighbours are given, their paths
    /// must part.
    pub open spec fn neighbours_part(self) -> bool {
        match (self.left, self.right) {
            (Some(left), Some(right)) => paths_part(left.path, right.path),
            _ => true,
        }
    }
}

/// The least length of the prefix of a step that stands for the child at
/// place `child`.
pub open spec fn least_prefix(inner: InnerNodeSpecView, child: int) -> int {
    child * inner.child_size + inner.min_prefix_length
}

/// The greatest length of the prefix of a step that stands for the child at
/// place `child`.
pub open spec fn greatest_prefix(inner: InnerNodeSpecView, child: int) -> int {
    child * inner.child_size + inner.max_prefix_length
}

/// Whether a step has the lengths of the child at place `child`, as the
/// engine tests it: the suffix holds the siblings after the child, and the
/// prefix lies between the least and the greatest length. The engine
/// compares lengths as machine words, so a negative least length is met by
/// no prefix and a negative greatest length by every prefix.
pub open spec fn stands_for(step: InnerOperationView, inner: InnerNodeSpecView, child: int) -> bool {
    &&& step.suffix.len() == inner.child_size * (inner.child_order.len() - 1 - child)
    &&& 0 <= least_prefix(inner, child) <= step.prefix.len()
    &&& (greatest_prefix(inner, child) < 0 || step.prefix.len() <= greatest_prefix(inner, child))
}

/// Whether a step stands for a child whose least prefix length fits in 32
/// bits. The engine looks for the child of a step from the first child on,
/// and computes the least length of each child it comes by.
pub open spec fn is_placed(step: InnerOperationView, inner: InnerNodeSpecView) -> bool {
    exists|child: int|
        0 <= child < inner.child_order.len() && #[trigger] stands_for(step, inner, child)
            && least_prefix(inner, child) <= i32::MAX
}

/// The sizes that the engine computes for a right neighbour with inner
/// steps fit: those of every step, and those it computes to place each
/// step.
pub open spec fn right_path_askable(path: Seq<InnerOperationView>, inner: InnerNodeSpecView) -> bool {
    &&& inner.steps_fit()
    &&& inner.paddings_fit() || forall|i: int|
        0 <= i < path.len() ==> is_placed(#[trigger] path[i], inner)
}

/// The engine can be asked whether a fragment shows membership. It reads
/// the sizes of the inner spec once for each inner step: a fragment without
/// inner steps, or a spec without inner spec, can always be handed over.
pub open spec fn membership_askable(fragment: ExistenceFragmentView, spec: ProofSpecView) -> bool {
    fragment.path.len() > 0 ==> (spec.inner_spec matches Some(inner) ==> inner.steps_fit())
}

/// The engine can be asked whether a fragment shows absence. Two
/// neighbours must lie on paths that part. Of the inner spec, if there is
/// one, the engine reads the sizes that place inner steps among their
/// siblings. For a single right neighbour with inner steps it reads them
/// only up to the child that each step stands for; for a single neighbour
/// without inner steps it reads those of the last child (a left neighbour)
/// or of the first child (a right one) alone.
pub open spec fn absence_askable(fragment: NonExistenceFragmentView, spec: ProofSpecView) -> bool {
    &&& fragment.neighbours_part()
    &&& spec.inner_spec matches Some(inner) ==> match (fragment.left, fragment.right) {
        (Some(left), Some(right)) => inner.paddings_fit(),
        (Some(left), None) => if left.path.len() > 0 {
            inner.paddings_fit()
        } else {
            inner.last_padding_fits()
        },
        (None, Some(right)) => if right.path.len() > 0 {
            right_path_askable(right.path, inner)
        } else {
            inner.first_padding_fits()
        },
        (None, None) => true,
    }
}

/// An `ics23::LeafOp` with the fields of `op`.
#[verifier::external_body]
fn engine_leaf_op(op: &LeafOperation) -> ics23::LeafOp {
    ics23::LeafOp {
        hash: op.hash,
        prehash_key: op.prehash_key,
        prehash_value: op.prehash_value,
        length: op.length,
        prefix: op.prefix.clone(),
    }
}

/// An `ics23::InnerSpec` with the fields of `spec`.
#[verifier::external_body]
fn engine_inner_spec(spec: &InnerNodeSpec) -> ics23::InnerSpec {
    ics23::InnerSpec {
        child_order: spec.child_order.clone(),
        child_size: spec.child_size,
        min_prefix_length: spec.min_prefix_length,
        max_prefix_length: spec.max_prefix_length,
        empty_child: spec.empty_child.clone(),
        hash: spec.hash,
    }
}

/// An `ics23::ExistenceProof` with the fields of `proof`, its inner steps in
/// the same order.
#[verifier::external_body]
fn engine_existence_proof(proof: &ExistenceFragment) -> ics23::ExistenceProof {
    ics23::ExistenceProof {
        key: proof.key.clone(),
        value: proof.value.clone(),
        leaf: proof.leaf.as_ref().map(engine_leaf_op),
        path: proof.path.iter().map(|op| ics23::InnerOp {
            hash: op.hash,
            prefix: op.prefix.clone(),
            suffix: op.suffix.clone(),
        }).collect(),
    }
}

/// `ics23::calculate_existence_root`, with the digests of
/// `HostFunctionsManager`. The result is the named one: the root on success,
/// an error where the name is `None`.
#[verifier::external_body]
pub(crate) fn calculate_existence_root(proof: &ExistenceFragment) -> (res: Result<
    Vec<u8>,
    anyhow::Error,
>)
    ensures
        match res {
            Ok(root) => existence_root(proof@) == Some(root@),
            Err(_) => existence_root(proof@) is None,
        },
{
    ics23::calculate_existence_root::<HostFunctionsManager>(&engine_existence_proof(proof))
}

/// `ics23::verify_membership` on an existence proof, with the digests of
/// `HostFunctionsManager`. The result is the named one. The engine accepts
/// only a proof that carries the very key and value asked about. It checks
/// each inner step against sizes that it computes from the inner spec:
/// where the fragment has an inner step, those sizes must fit.
#[verifier::external_body]
pub(crate) fn verify_membership(
    proof: &ExistenceFragment,
    spec: &ProofSpec,
    root: &Vec<u8>,
    key: &[u8],
    value: &[u8],
) -> (ok: bool)
    requires
        membership_askable(proof@, spec@),
    ensures
        ok == membership_holds(proof@, spec@, root@, key@, value@),
        ok ==> proof@.key == key@ && proof@.value == value@,
{
    let fragment = ics23::CommitmentProof {
        proof: Some(ics23::commitment_proof::Proof::Exist(engine_existence_proof(proof))),
    };
    let spec = ics23::ProofSpec {
        leaf_spec: spec.leaf_spec.as_ref().map(engine_leaf_op),
        inner_spec: spec.inner_spec.as_ref().map(engine_inner_spec),
        max_depth: spec.max_depth,
        min_depth: spec.min_depth,
        prehash_key_before_comparison: spec.prehash_key_before_comparison,
    };
    ics23::verify_membership::<HostFunctionsManager>(&fragment, &spec, root, key, value)
}

/// `ics23::verify_non_membership` on a non-existence proof, with the digests
/// of `HostFunctionsManager`. The result is the named one. The engine checks
/// each neighbour as `ics23::verify_membership` does. With an inner spec it
/// then computes the sizes of the last child (for a left neighbour) or of
/// the first child (for a right neighbour), and for an inner step that is
/// not at that place the sizes of the children up to the one the step
/// stands for. Given
/// two neighbours it first takes steps off the tops of their paths until it
/// meets an unlike pair. All those sizes must fit, and the paths of two
/// neighbours must part.
#[verifier::external_body]
pub(crate) fn verify_non_membership(
    proof: &NonExistenceFragment,
    spec: &ProofSpec,
    root: &Vec<u8>,
    key: &[u8],
) -> (ok: bool)
    requires
        absence_askable(proof@, spec@),
    ensures
        ok == non_membership_holds(proof@, spec@, root@, key@),
{
    let fragment = ics23::CommitmentProof {
        proof: Some(ics23::commitment_proof::Proof::Nonexist(ics23::NonExistenceProof {
            key: proof.key.clone(),
            left: proof.left.as_ref().map(engine_existence_proof),
            right: proof.right.as_ref().map(engine_existence_proof),
        })),
    };
    let spec = ics23::ProofSpec {
        leaf_spec: spec.leaf_spec.as_ref().map(engine_leaf_op),
        inner_spec: spec.inner_spec.as_ref().map(engine_inner_spec),
        max_depth: spec.max_depth,
        min_depth: spec.min_depth,
        prehash_key_before_comparison: spec.prehash_key_before_comparison,
    };
    ics23::verify_non_membership::<HostFunctionsManager>(&fragment, &spec, root, key)
}

} // verus!
