//! The outcome of verifying a chain of proof levels, as a mathematical
//! function of the proof, the specs, the root, the keys and the value, and
//! the small decisions that the walk along the chain is made of.
//!
//! Proof levels are ordered from the lowest tree up; key segments are
//! ordered from the highest tree down. Level `i` of `n` is therefore paired
//! with key `n - 1 - i`.

use vstd::prelude::*;
use crate::engine::{
    absence_askable, calculate_existence_root, existence_root, greatest_prefix, is_placed,
    least_prefix, membership_askable, membership_holds, non_membership_holds, paths_part,
    right_path_askable, same_step, stands_for, step_from_top, verify_membership,
    verify_non_membership,
};
use crate::error::CommitmentError;
use crate::fragment::{
    path_view, CommitmentProof, ExistenceFragment, ExistenceFragmentView, FragmentView,
    InnerOperation, NonExistenceFragment, NonExistenceFragmentView, Proof,
};
use crate::specs::{sibling_bytes, InnerNodeSpec, ProofSpec, ProofSpecView};

verus! {

/// A result that carries bytes, by the value of those bytes.
pub open spec fn bytes_outcome(res: Result<Vec<u8>, CommitmentError>) -> Result<
    Seq<u8>,
    CommitmentError,
> {
    match res {
        Ok(bytes) => Ok(bytes@),
        Err(e) => Err(e),
    }
}

/// The checks on the sizes of what was handed in, in the order in which
/// they are made: the first that fails decides.
pub open spec fn shape_outcome(levels: nat, root_len: nat, specs: nat, keys: nat) -> Result<
    (),
    CommitmentError,
> {
    if levels == 0 {
        Err(CommitmentError::EmptyMerkleProof)
    } else if root_len == 0 {
        Err(CommitmentError::EmptyMerkleRoot)
    } else if specs != levels {
        Err(CommitmentError::NumberOfSpecsMismatch)
    } else if keys != levels {
        Err(CommitmentError::NumberOfKeysMismatch)
    } else {
        Ok(())
    }
}

/// The subroot that an existence fragment implies, or `InvalidMerkleProof`
/// where the engine cannot compute one.
pub open spec fn subroot_outcome(computed: Option<Seq<u8>>) -> Result<Seq<u8>, CommitmentError> {
    match computed {
        Some(subroot) => Ok(subroot),
        None => Err(CommitmentError::InvalidMerkleProof),
    }
}

/// The engine confirms that `key` holds `value` under `root`: it can be
/// asked, and it accepts the fragment. It accepts only a fragment that
/// carries this very key and value.
pub open spec fn membership_confirmed(
    fragment: ExistenceFragmentView,
    spec: ProofSpecView,
    root: Seq<u8>,
    key: Seq<u8>,
    value: Seq<u8>,
) -> bool {
    &&& membership_askable(fragment, spec)
    &&& fragment.key == key
    &&& fragment.value == value
    &&& membership_holds(fragment, spec, root, key, value)
}

/// The engine confirms that `key` is absent under `root`: it can be asked,
/// and it accepts the fragment.
pub open spec fn absence_confirmed(
    fragment: NonExistenceFragmentView,
    spec: ProofSpecView,
    root: Seq<u8>,
    key: Seq<u8>,
) -> bool {
    &&& absence_askable(fragment, spec)
    &&& non_membership_holds(fragment, spec, root, key)
}

/// One level of the walk: the fragment must be an existence fragment, its
/// subroot must be computable, and the engine must confirm `key` and `value`
/// under that subroot. The subroot is the value to prove at the next level.
pub open spec fn level_outcome(
    fragment: FragmentView,
    spec: ProofSpecView,
    key: Seq<u8>,
    value: Seq<u8>,
) -> Result<Seq<u8>, CommitmentError> {
    match fragment {
        FragmentView::Exist(existence) => match existence_root(existence) {
            Some(subroot) => if membership_confirmed(existence, spec, subroot, key, value) {
                Ok(subroot)
            } else {
                Err(CommitmentError::VerificationFailure)
            },
            None => Err(CommitmentError::InvalidMerkleProof),
        },
        _ => Err(CommitmentError::InvalidMerkleProof),
    }
}

/// The key that belongs to level `level`: keys run from the root down,
/// levels from the leaf up.
pub open spec fn level_key(keys: Seq<Seq<u8>>, level: int) -> Seq<u8> {
    keys[keys.len() - 1 - level]
}

/// The walk over the levels `from..to`, starting with `value`: the value
/// reached above level `to - 1`, or the error of the first level that fails.
pub open spec fn walk(
    levels: Seq<FragmentView>,
    specs: Seq<ProofSpecView>,
    keys: Seq<Seq<u8>>,
    value: Seq<u8>,
    from: int,
    to: int,
) -> Result<Seq<u8>, CommitmentError>
    decreases to - from,
{
    if from >= to {
        Ok(value)
    } else {
        match level_outcome(levels[from], specs[from], level_key(keys, from), value) {
            Ok(subroot) => walk(levels, specs, keys, subroot, from + 1, to),
            Err(e) => Err(e),
        }
    }
}

/// The value at the top of the chain must be the root.
pub open spec fn root_outcome(root: Seq<u8>, top: Seq<u8>) -> Result<(), CommitmentError> {
    if top == root {
        Ok(())
    } else {
        Err(CommitmentError::VerificationFailure)
    }
}

/// What membership verification returns: the size checks, then the check
/// that a value was given, then the walk from level `start` up, then the
/// comparison with the root. A `start` at or beyond the number of levels
/// leaves no level to walk.
pub open spec fn membership_outcome(
    levels: Seq<FragmentView>,
    specs: Seq<ProofSpecView>,
    root: Seq<u8>,
    keys: Seq<Seq<u8>>,
    value: Seq<u8>,
    start: nat,
) -> Result<(), CommitmentError> {
    match shape_outcome(levels.len(), root.len(), specs.len(), keys.len()) {
        Err(e) => Err(e),
        Ok(_) => if value.len() == 0 {
            Err(CommitmentError::EmptyVerifiedValue)
        } else {
            match walk(levels, specs, keys, value, start as int, levels.len() as int) {
                Ok(top) => root_outcome(root, top),
                Err(e) => Err(e),
            }
        },
    }
}

/// The subroot against which absence is checked: that of the left
/// neighbour where there is one, else that of the right one. With neither
/// neighbour the fragment is invalid.
pub open spec fn non_existence_root(fragment: NonExistenceFragmentView) -> Result<
    Seq<u8>,
    CommitmentError,
> {
    match fragment.left {
        Some(left) => subroot_outcome(existence_root(left)),
        None => match fragment.right {
            Some(right) => subroot_outcome(existence_root(right)),
            None => Err(CommitmentError::InvalidMerkleProof),
        },
    }
}

/// What non-membership verification returns: the size checks; the lowest
/// level must be a non-existence fragment with a computable subroot; the
/// engine must confirm the absence of the lowest key under that subroot;
/// and the subroot must be a member of the chain from the second level up.
pub open spec fn non_membership_outcome(
    levels: Seq<FragmentView>,
    specs: Seq<ProofSpecView>,
    root: Seq<u8>,
    keys: Seq<Seq<u8>>,
) -> Result<(), CommitmentError> {
    match shape_outcome(levels.len(), root.len(), specs.len(), keys.len()) {
        Err(e) => Err(e),
        Ok(_) => match levels[0] {
            FragmentView::Nonexist(absence) => match non_existence_root(absence) {
                Err(e) => Err(e),
                Ok(subroot) => {
                    if absence_confirmed(absence, specs[0], subroot, level_key(keys, 0)) {
                        membership_outcome(levels, specs, root, keys, subroot, 1)
                    } else {
                        Err(CommitmentError::VerificationFailure)
                    }
                },
            },
            _ => Err(CommitmentError::InvalidMerkleProof),
        },
    }
}

/// Checks the sizes of what was handed in: the number of proof levels, the
/// length of the root, the number of specs and the number of keys.
pub fn check_shape(levels: usize, root_len: usize, specs: usize, keys: usize) -> (res: Result<
    (),
    CommitmentError,
>)
    ensures
        res == shape_outcome(levels as nat, root_len as nat, specs as nat, keys as nat),
{
    if levels == 0 {
        Err(CommitmentError::EmptyMerkleProof)
    } else if root_len == 0 {
        Err(CommitmentError::EmptyMerkleRoot)
    } else if specs != levels {
        Err(CommitmentError::NumberOfSpecsMismatch)
    } else if keys != levels {
        Err(CommitmentError::NumberOfKeysMismatch)
    } else {
        Ok(())
    }
}

/// Whether two byte strings are the same.
pub fn same_bytes(a: &[u8], b: &[u8]) -> (same: bool)
    ensures
        same == (a@ == b@),
{
    if a.len() != b.len() {
        return false;
    }
    let mut i: usize = 0;
    while i < a.len()
        invariant
            a@.len() == b@.len(),
            i <= a@.len(),
            forall|j: int| 0 <= j < i ==> a@[j] == b@[j],
        decreases a@.len() - i,
    {
        if a[i] != b[i] {
            return false;
        }
        i += 1;
    }
    assert(a@ =~= b@);
    true
}

/// Takes what the engine computed from an existence fragment: its subroot,
/// or `InvalidMerkleProof` for its error.
pub fn subroot_of(computed: Result<Vec<u8>, anyhow::Error>) -> (res: Result<
    Vec<u8>,
    CommitmentError,
>)
    ensures
        computed matches Ok(subroot) ==> res == Ok::<Vec<u8>, CommitmentError>(subroot),
        computed is Err ==> res == Err::<Vec<u8>, CommitmentError>(
            CommitmentError::InvalidMerkleProof,
        ),
{
    match computed {
        Ok(subroot) => Ok(subroot),
        Err(_) => Err(CommitmentError::InvalidMerkleProof),
    }
}

/// Takes the engine's answer for one level: a confirmed subroot is the value
/// to prove at the next level, anything else is a `VerificationFailure`.
pub fn confirmed_subroot(confirmed: bool, subroot: Vec<u8>) -> (res: Result<
    Vec<u8>,
    CommitmentError,
>)
    ensures
        confirmed ==> res == Ok::<Vec<u8>, CommitmentError>(subroot),
        !confirmed ==> res == Err::<Vec<u8>, CommitmentError>(
            CommitmentError::VerificationFailure,
        ),
{
    if confirmed {
        Ok(subroot)
    } else {
        Err(CommitmentError::VerificationFailure)
    }
}

/// Compares the value reached at the top of the chain with the root.
pub fn check_root(root: &[u8], top: &[u8]) -> (res: Result<(), CommitmentError>)
    ensures
        res == root_outcome(root@, top@),
{
    if same_bytes(top, root) {
        Ok(())
    } else {
        Err(CommitmentError::VerificationFailure)
    }
}

/// The subroot that an existence fragment implies.
pub fn existence_subroot(fragment: &ExistenceFragment) -> (res: Result<Vec<u8>, CommitmentError>)
    ensures
        bytes_outcome(res) == subroot_outcome(existence_root(fragment@)),
{
    subroot_of(calculate_existence_root(fragment))
}

/// Whether the engine can be asked whether `fragment` shows membership
/// under `spec`.
pub fn can_ask_membership(fragment: &ExistenceFragment, spec: &ProofSpec) -> (ok: bool)
    ensures
        ok == membership_askable(fragment@, spec@),
{
    if fragment.path.len() == 0 {
        return true;
    }
    match &spec.inner_spec {
        Some(inner) => inner.steps_fit(),
        None => true,
    }
}

/// Asks the engine whether `fragment` shows that `key` holds `value` under
/// `root`. Where the engine cannot be asked, nothing is confirmed.
pub fn confirm_membership(
    fragment: &ExistenceFragment,
    spec: &ProofSpec,
    root: &Vec<u8>,
    key: &[u8],
    value: &[u8],
) -> (confirmed: bool)
    ensures
        confirmed == membership_confirmed(fragment@, spec@, root@, key@, value@),
{
    can_ask_membership(fragment, spec) && verify_membership(fragment, spec, root, key, value)
}

/// Whether two paths part: whether, walking down from their tops, a pair of
/// unlike steps is met before either path ends.
pub fn paths_do_part(left: &Vec<InnerOperation>, right: &Vec<InnerOperation>) -> (part: bool)
    ensures
        part == paths_part(path_view(left@), path_view(right@)),
{
    let ghost l = path_view(left@);
    let ghost r = path_view(right@);
    let mut depth: usize = 0;
    while depth < left.len() && depth < right.len()
        invariant
            l == path_view(left@),
            r == path_view(right@),
            depth <= left@.len(),
            depth <= right@.len(),
            forall|d: int|
                0 <= d < depth ==> same_step(#[trigger] step_from_top(l, d), step_from_top(r, d)),
        decreases left@.len() - depth,
    {
        let a = &left[left.len() - 1 - depth];
        let b = &right[right.len() - 1 - depth];
        assert(a@ == step_from_top(l, depth as int));
        assert(b@ == step_from_top(r, depth as int));
        if !(same_bytes(a.prefix.as_slice(), b.prefix.as_slice()) && same_bytes(
            a.suffix.as_slice(),
            b.suffix.as_slice(),
        )) {
            return true;
        }
        depth += 1;
    }
    false
}

/// Whether the neighbours of a non-existence fragment lie on paths that
/// part, where both are given.
pub fn neighbours_do_part(fragment: &NonExistenceFragment) -> (part: bool)
    ensures
        part == fragment@.neighbours_part(),
{
    match (&fragment.left, &fragment.right) {
        (Some(left), Some(right)) => paths_do_part(&left.path, &right.path),
        _ => true,
    }
}

/// Whether the sizes of every step fit and this step stands for a child
/// whose least prefix length fits in 32 bits. The length of the suffix
/// tells which child it can be.
pub fn step_is_placed(step: &InnerOperation, inner: &InnerNodeSpec) -> (placed: bool)
    ensures
        placed == (inner@.steps_fit() && is_placed(step@, inner@)),
{
    if !inner.steps_fit() {
        return false;
    }
    let children: usize = inner.child_order.len();
    let size: usize = inner.child_size as usize;
    let after: usize = step.suffix.len() / size;
    proof {
        lemma_siblings_are_few(inner@.child_order.len() as int, inner@.child_size as int);
    }
    if step.suffix.len() % size != 0 || after > children - 1 {
        assert forall|child: int| 0 <= child < children implies !stands_for(
            step@,
            inner@,
            child,
        ) by {
            if stands_for(step@, inner@, child) {
                lemma_quotient_of_a_multiple(
                    step@.suffix.len() as int,
                    size as int,
                    children - 1 - child,
                );
            }
        }
        return false;
    }
    let child: usize = children - 1 - after;
    assert forall|other: int| 0 <= other < children && stands_for(step@, inner@, other) implies other
        == child by {
        lemma_quotient_of_a_multiple(step@.suffix.len() as int, size as int, children - 1 - other);
    }
    assert(step@.suffix.len() == inner@.child_size * (children - 1 - child)) by {
        lemma_multiple_of_its_quotient(step@.suffix.len() as int, size as int);
    }
    assert(0 <= child * inner.child_size <= sibling_bytes(inner@)) by (nonlinear_arith)
        requires
            0 <= child <= children - 1,
            inner.child_size >= 1,
            sibling_bytes(inner@) == (children - 1) * inner.child_size,
    ;
    let place: i64 = (child as i64) * (inner.child_size as i64);
    let least: i64 = place + (inner.min_prefix_length as i64);
    let greatest: i64 = place + (inner.max_prefix_length as i64);
    assert(least == least_prefix(inner@, child as int));
    assert(greatest == greatest_prefix(inner@, child as int));
    let length: usize = step.prefix.len();
    let placed = 0 <= least && least <= 0x7fff_ffff && least as u64 <= length as u64 && (greatest
        < 0 || length as u64 <= greatest as u64);
    assert(placed == (stands_for(step@, inner@, child as int) && least_prefix(inner@, child as int)
        <= i32::MAX));
    placed
}

/// A number of children whose siblings fit in 32 bits fits in 32 bits.
proof fn lemma_siblings_are_few(children: int, size: int)
    requires
        children >= 1,
        size >= 1,
        (children - 1) * size <= i32::MAX,
    ensures
        children - 1 <= i32::MAX,
{
    assert(children - 1 <= (children - 1) * size) by (nonlinear_arith)
        requires
            children >= 1,
            size >= 1,
    ;
}

/// A multiple of `size` divides by `size` without rest, and into its
/// factor.
proof fn lemma_quotient_of_a_multiple(total: int, size: int, factor: int)
    requires
        size >= 1,
        total >= 0,
        total == size * factor,
    ensures
        total % size == 0,
        total / size == factor,
{
    assert(total == factor * size + 0) by (nonlinear_arith)
        requires
            total == size * factor,
    ;
    vstd::arithmetic::div_mod::lemma_fundamental_div_mod_converse(total, size, factor, 0);
}

/// A number that divides by `size` without rest is `size` times the
/// quotient.
proof fn lemma_multiple_of_its_quotient(total: int, size: int)
    requires
        size >= 1,
        total >= 0,
        total % size == 0,
    ensures
        total == size * (total / size),
{
    vstd::arithmetic::div_mod::lemma_fundamental_div_mod(total, size);
}

/// Whether the sizes that the engine computes for a right neighbour with
/// inner steps fit.
pub fn can_ask_about_right_path(path: &Vec<InnerOperation>, inner: &InnerNodeSpec) -> (ok: bool)
    ensures
        ok == right_path_askable(path_view(path@), inner@),
{
    if !inner.steps_fit() {
        return false;
    }
    if inner.paddings_fit() {
        return true;
    }
    let ghost steps = path_view(path@);
    let mut i: usize = 0;
    while i < path.len()
        invariant
            i <= path@.len(),
            steps == path_view(path@),
            inner@.steps_fit(),
            !inner@.paddings_fit(),
            forall|j: int| 0 <= j < i ==> is_placed(#[trigger] steps[j], inner@),
        decreases path@.len() - i,
    {
        assert(steps[i as int] == path@[i as int]@);
        if !step_is_placed(&path[i], inner) {
            assert(!is_placed(steps[i as int], inner@));
            return false;
        }
        i += 1;
    }
    true
}

/// Whether the engine can be asked whether `fragment` shows absence under
/// `spec`.
pub fn can_ask_absence(fragment: &NonExistenceFragment, spec: &ProofSpec) -> (ok: bool)
    ensures
        ok == absence_askable(fragment@, spec@),
{
    if !neighbours_do_part(fragment) {
        return false;
    }
    match &spec.inner_spec {
        None => true,
        Some(inner) => match (&fragment.left, &fragment.right) {
            (Some(_), Some(_)) => inner.paddings_fit(),
            (Some(left), None) => {
                if left.path.len() > 0 {
                    inner.paddings_fit()
                } else {
                    inner.last_padding_fits()
                }
            },
            (None, Some(right)) => {
                if right.path.len() > 0 {
                    can_ask_about_right_path(&right.path, inner)
                } else {
                    inner.first_padding_fits()
                }
            },
            (None, None) => true,
        },
    }
}

/// Asks the engine whether `fragment` shows that `key` is absent under
/// `root`. Where the engine cannot be asked, nothing is confirmed.
pub fn confirm_absence(
    fragment: &NonExistenceFragment,
    spec: &ProofSpec,
    root: &Vec<u8>,
    key: &[u8],
) -> (confirmed: bool)
    ensures
        confirmed == absence_confirmed(fragment@, spec@, root@, key@),
{
    can_ask_absence(fragment, spec) && verify_non_membership(fragment, spec, root, key)
}

/// Verifies one level: `fragment` must show that `key` holds `value` in a
/// tree, and the root of that tree is returned.
pub fn verify_level(fragment: &CommitmentProof, spec: &ProofSpec, key: &[u8], value: &[u8]) -> (res:
    Result<Vec<u8>, CommitmentError>)
    ensures
        bytes_outcome(res) == level_outcome(fragment@, spec@, key@, value@),
{
    match &fragment.proof {
        Some(Proof::Exist(existence)) => {
            match existence_subroot(existence) {
                Ok(subroot) => {
                    let confirmed = confirm_membership(existence, spec, &subroot, key, value);
                    confirmed_subroot(confirmed, subroot)
                },
                Err(e) => Err(e),
            }
        },
        _ => Err(CommitmentError::InvalidMerkleProof),
    }
}

/// The subroot against which the absence of a key is checked: that of the
/// left neighbour where there is one, else that of the right one.
pub fn calculate_non_existence_root(fragment: &NonExistenceFragment) -> (res: Result<
    Vec<u8>,
    CommitmentError,
>)
    ensures
        bytes_outcome(res) == non_existence_root(fragment@),
{
    if let Some(left) = &fragment.left {
        existence_subroot(left)
    } else if let Some(right) = &fragment.right {
        existence_subroot(right)
    } else {
        Err(CommitmentError::InvalidMerkleProof)
    }
}

} // verus!
