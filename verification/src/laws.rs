//! What holds of verification for all inputs, stated over the outcome
//! functions of [`crate::chain`] and proved from their definitions.

use vstd::prelude::*;
use vstd::std_specs::convert::{FromSpec, TryFromSpec};
use vstd::utf8::{encode_utf8, encode_utf8_decode_utf8};
use crate::chain::{
    absence_confirmed, level_key, level_outcome, membership_confirmed, membership_outcome,
    non_existence_root, non_membership_outcome, root_outcome, shape_outcome, walk,
};
use crate::engine::existence_root;
use crate::error::CommitmentError;
use crate::fragment::{ExistenceFragmentView, FragmentView};
use crate::merkle::{MerkleProof, RawMerkleProof};
use crate::specs::ProofSpecView;

verus! {

/// The subroot that a proof level implies: that of an existence fragment
/// from which the engine can compute one, and none otherwise.
pub open spec fn implied_subroot(fragment: FragmentView) -> Option<Seq<u8>> {
    match fragment {
        FragmentView::Exist(existence) => existence_root(existence),
        _ => None,
    }
}

/// The value that a proof level claims to hold: that of an existence
/// fragment, and none otherwise.
pub open spec fn claimed_value(fragment: FragmentView) -> Option<Seq<u8>> {
    match fragment {
        FragmentView::Exist(existence) => Some(existence.value),
        _ => None,
    }
}

/// A walk over `from..to` is the walk over `from..mid` followed by the walk
/// over `mid..to`.
pub proof fn lemma_walk_splits(
    levels: Seq<FragmentView>,
    specs: Seq<ProofSpecView>,
    keys: Seq<Seq<u8>>,
    value: Seq<u8>,
    from: int,
    mid: int,
    to: int,
)
    requires
        from <= mid <= to,
    ensures
        walk(levels, specs, keys, value, from, to) == match walk(
            levels,
            specs,
            keys,
            value,
            from,
            mid,
        ) {
            Ok(reached) => walk(levels, specs, keys, reached, mid, to),
            Err(e) => Err(e),
        },
    decreases mid - from,
{
    if from < mid {
        match level_outcome(levels[from], specs[from], level_key(keys, from), value) {
            Ok(subroot) => {
                lemma_walk_splits(levels, specs, keys, subroot, from + 1, mid, to);
            },
            Err(_) => {},
        }
    }
}

/// A walk reads only the levels it walks over.
pub proof fn lemma_walk_reads_its_levels(
    levels: Seq<FragmentView>,
    others: Seq<FragmentView>,
    specs: Seq<ProofSpecView>,
    keys: Seq<Seq<u8>>,
    value: Seq<u8>,
    from: int,
    to: int,
)
    requires
        forall|i: int| from <= i < to ==> levels[i] == others[i],
    ensures
        walk(levels, specs, keys, value, from, to) == walk(others, specs, keys, value, from, to),
    decreases to - from,
{
    if from < to {
        match level_outcome(levels[from], specs[from], level_key(keys, from), value) {
            Ok(subroot) => {
                lemma_walk_reads_its_levels(levels, others, specs, keys, subroot, from + 1, to);
            },
            Err(_) => {},
        }
    }
}

/// Level and key are paired in reverse: the key of level `level` is the
/// element at `level` of the keys read backwards, for every number of
/// levels.
pub proof fn law_keys_pair_in_reverse(keys: Seq<Seq<u8>>, level: int)
    requires
        0 <= level < keys.len(),
    ensures
        level_key(keys, level) == keys.reverse()[level],
        level_key(keys, keys.len() - 1 - level) == keys[level],
{
}

/// Different key segments stand for different keys.
pub proof fn law_segments_are_told_apart(a: Seq<char>, b: Seq<char>)
    requires
        a != b,
    ensures
        encode_utf8(a) != encode_utf8(b),
{
    encode_utf8_decode_utf8(a);
    encode_utf8_decode_utf8(b);
}

/// A proof of one level is accepted exactly when the engine computes the
/// given root from its fragment and confirms key and value under it.
pub proof fn law_single_level_membership(
    fragment: ExistenceFragmentView,
    spec: ProofSpecView,
    root: Seq<u8>,
    key: Seq<u8>,
    value: Seq<u8>,
)
    requires
        root.len() > 0,
        value.len() > 0,
    ensures
        membership_outcome(
            seq![FragmentView::Exist(fragment)],
            seq![spec],
            root,
            seq![key],
            value,
            0,
        ) is Ok <==> existence_root(fragment) == Some(root) && membership_confirmed(
            fragment,
            spec,
            root,
            key,
            value,
        ),
{
    assert(level_key(seq![key], 0) == key);
    reveal_with_fuel(walk, 2);
}

/// Where a proof of one level is accepted for a root, a key and a value, it
/// is rejected for every other root, key or value.
pub proof fn law_single_level_rejects_any_change(
    fragment: ExistenceFragmentView,
    spec: ProofSpecView,
    root: Seq<u8>,
    key: Seq<u8>,
    value: Seq<u8>,
    other_root: Seq<u8>,
    other_key: Seq<u8>,
    other_value: Seq<u8>,
)
    requires
        membership_outcome(
            seq![FragmentView::Exist(fragment)],
            seq![spec],
            root,
            seq![key],
            value,
            0,
        ) is Ok,
        other_root != root || other_key != key || other_value != value,
    ensures
        membership_outcome(
            seq![FragmentView::Exist(fragment)],
            seq![spec],
            other_root,
            seq![other_key],
            other_value,
            0,
        ) is Err,
{
    assert(level_key(seq![key], 0) == key);
    assert(level_key(seq![other_key], 0) == other_key);
    reveal_with_fuel(walk, 2);
}

/// In an accepted chain every level that was walked is an existence
/// fragment with a subroot, each level above the first one walked claims as
/// its value the subroot of the level below it, and the subroot of the
/// highest level is the root.
pub proof fn law_accepted_chain_links(
    levels: Seq<FragmentView>,
    specs: Seq<ProofSpecView>,
    root: Seq<u8>,
    keys: Seq<Seq<u8>>,
    value: Seq<u8>,
    start: nat,
    level: int,
)
    requires
        membership_outcome(levels, specs, root, keys, value, start) is Ok,
        start <= level < levels.len(),
    ensures
        implied_subroot(levels[level]) is Some,
        level == start ==> claimed_value(levels[level]) == Some(value),
        level > start ==> claimed_value(levels[level]) == implied_subroot(levels[level - 1]),
        level == levels.len() - 1 ==> implied_subroot(levels[level]) == Some(root),
{
    let n = levels.len() as int;
    let s = start as int;
    lemma_walk_splits(levels, specs, keys, value, s, level, n);
    let reached = walk(levels, specs, keys, value, s, level)->Ok_0;
    // The level itself, walked from the value reached below it.
    assert(walk(levels, specs, keys, reached, level, n) is Ok);
    let here = level_outcome(levels[level], specs[level], level_key(keys, level), reached);
    assert(here is Ok);
    if level > s {
        lemma_walk_splits(levels, specs, keys, value, s, level - 1, level);
        let below = walk(levels, specs, keys, value, s, level - 1)->Ok_0;
        assert(walk(levels, specs, keys, below, level - 1, level) == Ok::<
            Seq<u8>,
            CommitmentError,
        >(reached)) by {
            reveal_with_fuel(walk, 2);
        }
        reveal_with_fuel(walk, 2);
    }
    if level == n - 1 {
        reveal_with_fuel(walk, 2);
    }
}

/// Where a chain is accepted and one walked level is replaced by a fragment
/// that implies another subroot, or none, the chain is rejected. Where the
/// replacement is an existence fragment that implies a subroot, the
/// rejection is a `VerificationFailure`.
pub proof fn law_tampered_level_is_rejected(
    levels: Seq<FragmentView>,
    specs: Seq<ProofSpecView>,
    root: Seq<u8>,
    keys: Seq<Seq<u8>>,
    value: Seq<u8>,
    start: nat,
    level: int,
    forged: FragmentView,
)
    requires
        membership_outcome(levels, specs, root, keys, value, start) is Ok,
        start <= level < levels.len(),
        implied_subroot(forged) != implied_subroot(levels[level]),
    ensures
        membership_outcome(levels.update(level, forged), specs, root, keys, value, start) is Err,
        implied_subroot(forged) is Some ==> membership_outcome(
            levels.update(level, forged),
            specs,
            root,
            keys,
            value,
            start,
        ) == Err::<(), CommitmentError>(CommitmentError::VerificationFailure),
{
    let n = levels.len() as int;
    let s = start as int;
    let tampered = levels.update(level, forged);
    // Below the replaced level nothing has changed.
    lemma_walk_splits(levels, specs, keys, value, s, level, n);
    lemma_walk_splits(tampered, specs, keys, value, s, level, n);
    lemma_walk_reads_its_levels(levels, tampered, specs, keys, value, s, level);
    let reached = walk(levels, specs, keys, value, s, level)->Ok_0;
    let genuine = level_outcome(levels[level], specs[level], level_key(keys, level), reached);
    let altered = level_outcome(forged, specs[level], level_key(keys, level), reached);
    assert(genuine is Ok);
    if altered is Ok {
        let subroot = genuine->Ok_0;
        let other = altered->Ok_0;
        assert(other != subroot);
        if level + 1 < n {
            // The level above still claims the genuine subroot as its value.
            law_accepted_chain_links(levels, specs, root, keys, value, start, level + 1);
            assert(tampered[level + 1] == levels[level + 1]);
            assert(walk(tampered, specs, keys, other, level + 1, n) == Err::<
                Seq<u8>,
                CommitmentError,
            >(CommitmentError::VerificationFailure));
        } else {
            law_accepted_chain_links(levels, specs, root, keys, value, start, level);
            assert(walk(tampered, specs, keys, other, level + 1, n) == Ok::<
                Seq<u8>,
                CommitmentError,
            >(other));
        }
    }
}

/// A walk that starts at or beyond the number of levels walks no level:
/// once the sizes fit and a value is given, the value is accepted if it is
/// the root and rejected with `VerificationFailure` if it is not.
pub proof fn law_start_beyond_levels(
    levels: Seq<FragmentView>,
    specs: Seq<ProofSpecView>,
    root: Seq<u8>,
    keys: Seq<Seq<u8>>,
    value: Seq<u8>,
    start: nat,
)
    requires
        shape_outcome(levels.len(), root.len(), specs.len(), keys.len()) is Ok,
        start >= levels.len(),
    ensures
        value == root ==> membership_outcome(levels, specs, root, keys, value, start) is Ok,
        value != root ==> membership_outcome(levels, specs, root, keys, value, start) is Err,
        value != root && value.len() > 0 ==> membership_outcome(
            levels,
            specs,
            root,
            keys,
            value,
            start,
        ) == Err::<(), CommitmentError>(CommitmentError::VerificationFailure),
{
}

/// With a proof that has levels and a root that has bytes, a number of
/// specs other than the number of levels gives `NumberOfSpecsMismatch`, and
/// with as many specs as levels a number of keys other than the number of
/// levels gives `NumberOfKeysMismatch`, whatever the proof, the specs and
/// the keys hold.
pub proof fn law_size_mismatch_is_reported(
    levels: Seq<FragmentView>,
    specs: Seq<ProofSpecView>,
    root: Seq<u8>,
    keys: Seq<Seq<u8>>,
    value: Seq<u8>,
    start: nat,
)
    requires
        levels.len() > 0,
        root.len() > 0,
    ensures
        specs.len() != levels.len() ==> membership_outcome(levels, specs, root, keys, value, start)
            == Err::<(), CommitmentError>(CommitmentError::NumberOfSpecsMismatch)
            && non_membership_outcome(levels, specs, root, keys) == Err::<(), CommitmentError>(
            CommitmentError::NumberOfSpecsMismatch,
        ),
        specs.len() == levels.len() && keys.len() != levels.len() ==> membership_outcome(
            levels,
            specs,
            root,
            keys,
            value,
            start,
        ) == Err::<(), CommitmentError>(CommitmentError::NumberOfKeysMismatch)
            && non_membership_outcome(levels, specs, root, keys) == Err::<(), CommitmentError>(
            CommitmentError::NumberOfKeysMismatch,
        ),
{
}

/// The value to prove at a level: the value given, at the level where the
/// walk starts, and the subroot of the level below, at the levels above it.
pub open spec fn value_below(
    levels: Seq<FragmentView>,
    value: Seq<u8>,
    start: int,
    level: int,
) -> Seq<u8> {
    if level <= start {
        value
    } else {
        implied_subroot(levels[level - 1])->Some_0
    }
}

/// A level is good when it is an existence fragment with a subroot, and
/// the engine confirms the key of the level and the value to prove there
/// under that subroot.
pub open spec fn level_is_good(
    levels: Seq<FragmentView>,
    specs: Seq<ProofSpecView>,
    keys: Seq<Seq<u8>>,
    value: Seq<u8>,
    start: int,
    level: int,
) -> bool {
    level_outcome(
        levels[level],
        specs[level],
        level_key(keys, level),
        value_below(levels, value, start, level),
    ) is Ok
}

/// A level that is good in terms of the engine: an existence fragment whose
/// subroot the engine computes and under which it confirms key and value.
pub proof fn law_good_level_in_terms_of_the_engine(
    fragment: FragmentView,
    spec: ProofSpecView,
    key: Seq<u8>,
    value: Seq<u8>,
)
    ensures
        level_outcome(fragment, spec, key, value) is Ok <==> (fragment matches FragmentView::Exist(
            existence,
        ) && existence_root(existence) matches Some(subroot) && membership_confirmed(
            existence,
            spec,
            subroot,
            key,
            value,
        )),
        level_outcome(fragment, spec, key, value) is Ok ==> level_outcome(
            fragment,
            spec,
            key,
            value,
        )->Ok_0 == implied_subroot(fragment)->Some_0,
        level_outcome(fragment, spec, key, value) is Err ==> (level_outcome(
            fragment,
            spec,
            key,
            value,
        )->Err_0 == if implied_subroot(fragment) is Some {
            CommitmentError::VerificationFailure
        } else {
            CommitmentError::InvalidMerkleProof
        }),
{
}

/// The walk over levels that are all good reaches the value to prove above
/// the last of them.
pub proof fn lemma_walk_of_good_levels(
    levels: Seq<FragmentView>,
    specs: Seq<ProofSpecView>,
    keys: Seq<Seq<u8>>,
    value: Seq<u8>,
    start: int,
    to: int,
)
    requires
        start <= to,
        forall|i: int| start <= i < to ==> level_is_good(levels, specs, keys, value, start, i),
    ensures
        walk(levels, specs, keys, value, start, to) == Ok::<Seq<u8>, CommitmentError>(
            value_below(levels, value, start, to),
        ),
    decreases to - start,
{
    if start < to {
        lemma_walk_of_good_levels(levels, specs, keys, value, start, to - 1);
        lemma_walk_splits(levels, specs, keys, value, start, to - 1, to);
        assert(level_is_good(levels, specs, keys, value, start, to - 1));
        reveal_with_fuel(walk, 2);
    }
}

/// Where the walk over some levels succeeds, all of them are good.
pub proof fn lemma_walked_levels_are_good(
    levels: Seq<FragmentView>,
    specs: Seq<ProofSpecView>,
    keys: Seq<Seq<u8>>,
    value: Seq<u8>,
    start: int,
    to: int,
)
    requires
        start <= to,
        walk(levels, specs, keys, value, start, to) is Ok,
    ensures
        forall|i: int| start <= i < to ==> level_is_good(levels, specs, keys, value, start, i),
    decreases to - start,
{
    if start < to {
        lemma_walk_splits(levels, specs, keys, value, start, to - 1, to);
        lemma_walked_levels_are_good(levels, specs, keys, value, start, to - 1);
        lemma_walk_of_good_levels(levels, specs, keys, value, start, to - 1);
        reveal_with_fuel(walk, 2);
        assert(level_is_good(levels, specs, keys, value, start, to - 1));
    }
}

/// Once the sizes fit and a value is given, membership is accepted exactly
/// when every level from the start on is good and the value reached above
/// the last level is the root: the subroot of the last level, or the value
/// itself where no level is walked. With every level good and another root
/// the rejection is a `VerificationFailure`.
pub proof fn law_membership_is_accepted_exactly_for_good_chains(
    levels: Seq<FragmentView>,
    specs: Seq<ProofSpecView>,
    root: Seq<u8>,
    keys: Seq<Seq<u8>>,
    value: Seq<u8>,
    start: nat,
)
    requires
        shape_outcome(levels.len(), root.len(), specs.len(), keys.len()) is Ok,
        value.len() > 0,
    ensures
        membership_outcome(levels, specs, root, keys, value, start) is Ok <==> (forall|i: int|
            start <= i < levels.len() ==> level_is_good(
                levels,
                specs,
                keys,
                value,
                start as int,
                i,
            )) && value_below(
            levels,
            value,
            start as int,
            if start < levels.len() {
                levels.len() as int
            } else {
                start as int
            },
        ) == root,
        (forall|i: int|
            start <= i < levels.len() ==> level_is_good(
                levels,
                specs,
                keys,
                value,
                start as int,
                i,
            )) ==> membership_outcome(levels, specs, root, keys, value, start) == root_outcome(
            root,
            value_below(
                levels,
                value,
                start as int,
                if start < levels.len() {
                    levels.len() as int
                } else {
                    start as int
                },
            ),
        ),
{
    let n = levels.len() as int;
    let s = start as int;
    if s < n {
        if walk(levels, specs, keys, value, s, n) is Ok {
            lemma_walked_levels_are_good(levels, specs, keys, value, s, n);
        }
        if forall|i: int| s <= i < n ==> level_is_good(levels, specs, keys, value, s, i) {
            lemma_walk_of_good_levels(levels, specs, keys, value, s, n);
        }
    }
}

/// Where the levels below one level are good and that level is not, the
/// rejection is that of this level: `InvalidMerkleProof` where it is no
/// existence fragment with a subroot, `VerificationFailure` where the
/// engine does not confirm its key and value.
pub proof fn law_first_bad_level_decides(
    levels: Seq<FragmentView>,
    specs: Seq<ProofSpecView>,
    root: Seq<u8>,
    keys: Seq<Seq<u8>>,
    value: Seq<u8>,
    start: nat,
    level: int,
)
    requires
        shape_outcome(levels.len(), root.len(), specs.len(), keys.len()) is Ok,
        value.len() > 0,
        start <= level < levels.len(),
        forall|i: int|
            start <= i < level ==> level_is_good(levels, specs, keys, value, start as int, i),
        !level_is_good(levels, specs, keys, value, start as int, level),
    ensures
        membership_outcome(levels, specs, root, keys, value, start) == Err::<(), CommitmentError>(
            if implied_subroot(levels[level]) is Some {
                CommitmentError::VerificationFailure
            } else {
                CommitmentError::InvalidMerkleProof
            },
        ),
{
    let n = levels.len() as int;
    let s = start as int;
    lemma_walk_of_good_levels(levels, specs, keys, value, s, level);
    lemma_walk_splits(levels, specs, keys, value, s, level, n);
    reveal_with_fuel(walk, 2);
}

/// Where the lowest level is a non-existence fragment with a subroot and
/// the engine confirms the absence of the lowest key under that subroot,
/// the absence is accepted or rejected as the membership of that subroot
/// from the second level up is.
pub proof fn law_confirmed_absence_is_decided_by_membership(
    levels: Seq<FragmentView>,
    specs: Seq<ProofSpecView>,
    root: Seq<u8>,
    keys: Seq<Seq<u8>>,
    subroot: Seq<u8>,
)
    requires
        shape_outcome(levels.len(), root.len(), specs.len(), keys.len()) is Ok,
        levels[0] is Nonexist,
        non_existence_root(levels[0]->Nonexist_0) == Ok::<Seq<u8>, CommitmentError>(subroot),
        absence_confirmed(levels[0]->Nonexist_0, specs[0], subroot, level_key(keys, 0)),
    ensures
        non_membership_outcome(levels, specs, root, keys) == membership_outcome(
            levels,
            specs,
            root,
            keys,
            subroot,
            1,
        ),
        membership_outcome(levels, specs, root, keys, subroot, 1) is Ok
            ==> non_membership_outcome(levels, specs, root, keys) is Ok,
        levels.len() == 1 && subroot.len() > 0 ==> non_membership_outcome(
            levels,
            specs,
            root,
            keys,
        ) == root_outcome(root, subroot),
{
}

/// Where the absence is not confirmed, or the lowest level is no
/// non-existence fragment with a subroot, the absence is rejected:
/// with `VerificationFailure` in the first case, with `InvalidMerkleProof`
/// in the second.
pub proof fn law_unconfirmed_absence_is_rejected(
    levels: Seq<FragmentView>,
    specs: Seq<ProofSpecView>,
    root: Seq<u8>,
    keys: Seq<Seq<u8>>,
)
    requires
        shape_outcome(levels.len(), root.len(), specs.len(), keys.len()) is Ok,
    ensures
        !(levels[0] is Nonexist) || non_existence_root(levels[0]->Nonexist_0) is Err
            ==> non_membership_outcome(levels, specs, root, keys) == Err::<(), CommitmentError>(
            CommitmentError::InvalidMerkleProof,
        ),
        levels[0] is Nonexist && non_existence_root(levels[0]->Nonexist_0) is Ok
            && !absence_confirmed(
            levels[0]->Nonexist_0,
            specs[0],
            non_existence_root(levels[0]->Nonexist_0)->Ok_0,
            level_key(keys, 0),
        ) ==> non_membership_outcome(levels, specs, root, keys) == Err::<(), CommitmentError>(
            CommitmentError::VerificationFailure,
        ),
{
}

/// Where the absence of a key is accepted, the lowest level is a
/// non-existence fragment with a neighbour, the engine confirms the absence
/// of the lowest key under the subroot of that fragment, and that subroot
/// is accepted as a member of the chain from the second level up.
pub proof fn law_absence_rests_on_membership(
    levels: Seq<FragmentView>,
    specs: Seq<ProofSpecView>,
    root: Seq<u8>,
    keys: Seq<Seq<u8>>,
)
    requires
        non_membership_outcome(levels, specs, root, keys) is Ok,
    ensures
        levels[0] is Nonexist,
        levels[0]->Nonexist_0.left is Some || levels[0]->Nonexist_0.right is Some,
        non_existence_root(levels[0]->Nonexist_0) is Ok,
        absence_confirmed(
            levels[0]->Nonexist_0,
            specs[0],
            non_existence_root(levels[0]->Nonexist_0)->Ok_0,
            level_key(keys, 0),
        ),
        membership_outcome(
            levels,
            specs,
            root,
            keys,
            non_existence_root(levels[0]->Nonexist_0)->Ok_0,
            1,
        ) is Ok,
{
}

/// A proof that goes to its wire form and back is the proof it was, and a
/// wire form that goes to a proof and back is the wire form it was: the
/// levels and their order are kept.
pub proof fn law_wire_round_trip(proof: MerkleProof, raw: RawMerkleProof)
    ensures
        <RawMerkleProof as FromSpec<MerkleProof>>::from_spec(proof).proofs == proof.proofs,
        <MerkleProof as TryFromSpec<RawMerkleProof>>::try_from_spec(
            <RawMerkleProof as FromSpec<MerkleProof>>::from_spec(proof),
        ) == Ok::<MerkleProof, CommitmentError>(proof),
        <MerkleProof as TryFromSpec<RawMerkleProof>>::try_from_spec(raw) is Ok,
        <RawMerkleProof as FromSpec<MerkleProof>>::from_spec(
            <MerkleProof as TryFromSpec<RawMerkleProof>>::try_from_spec(raw)->Ok_0,
        ) == raw,
{
}

} // verus!
