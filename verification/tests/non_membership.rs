use commitment_types::chain::{
    calculate_non_existence_root, confirm_absence, neighbours_do_part, paths_do_part,
};
use commitment_types::error::CommitmentError;
use commitment_types::fragment::{
    CommitmentProof, ExistenceFragment, InnerOperation, LeafOperation, NonExistenceFragment, Proof,
};
use commitment_types::merkle::{MerklePath, MerkleProof, MerkleRoot};
use commitment_types::specs::{InnerNodeSpec, ProofSpec, ProofSpecs};
use sha2::{Digest, Sha256};

fn absent_leaf_op() -> LeafOperation {
    LeafOperation { hash: 1, prehash_key: 0, prehash_value: 1, length: 1, prefix: vec![0] }
}

fn absent_spec() -> ProofSpec {
    ProofSpec {
        leaf_spec: Some(absent_leaf_op()),
        inner_spec: Some(InnerNodeSpec {
            child_order: vec![0, 1],
            child_size: 32,
            min_prefix_length: 1,
            max_prefix_length: 1,
            empty_child: vec![],
            hash: 1,
        }),
        max_depth: 0,
        min_depth: 0,
        prehash_key_before_comparison: false,
    }
}

fn absent_specs(levels: usize) -> ProofSpecs {
    ProofSpecs::new(vec![absent_spec(); levels])
}

fn hash_of_leaf(key: &[u8], value: &[u8]) -> Vec<u8> {
    let mut image = vec![0u8, key.len() as u8];
    image.extend_from_slice(key);
    image.push(32);
    image.extend_from_slice(&Sha256::digest(value));
    Sha256::digest(&image).to_vec()
}

fn hash_of_inner(left: &[u8], right: &[u8]) -> Vec<u8> {
    let mut image = vec![1u8];
    image.extend_from_slice(left);
    image.extend_from_slice(right);
    Sha256::digest(&image).to_vec()
}

fn as_left_child(sibling: &[u8]) -> InnerOperation {
    InnerOperation { hash: 1, prefix: vec![1], suffix: sibling.to_vec() }
}

fn as_right_child(sibling: &[u8]) -> InnerOperation {
    let mut prefix = vec![1u8];
    prefix.extend_from_slice(sibling);
    InnerOperation { hash: 1, prefix, suffix: vec![] }
}

fn neighbour(key: &[u8], value: &[u8], path: Vec<InnerOperation>) -> ExistenceFragment {
    ExistenceFragment { key: key.to_vec(), value: value.to_vec(), leaf: Some(absent_leaf_op()), path }
}

fn path_of(segments: &[&str]) -> MerklePath {
    MerklePath { key_path: segments.iter().map(|s| s.to_string()).collect() }
}

/// A tree with the two leaves `a -> 1` and `c -> 3`, the fragments that show
/// each of them, and its root.
fn two_leaves() -> (ExistenceFragment, ExistenceFragment, Vec<u8>) {
    let a = hash_of_leaf(b"a", b"1");
    let c = hash_of_leaf(b"c", b"3");
    let left = neighbour(b"a", b"1", vec![as_left_child(&c)]);
    let right = neighbour(b"c", b"3", vec![as_right_child(&a)]);
    (left, right, hash_of_inner(&a, &c))
}

/// The tree of `two_leaves` stored under `store` in a tree with one leaf:
/// the proof that `key` is absent, and the root of the upper tree.
fn absence_chain(key: &[u8]) -> (MerkleProof, Vec<u8>) {
    let (left, right, lower_root) = two_leaves();
    let upper_root = hash_of_leaf(b"store", &lower_root);
    let absence = NonExistenceFragment { key: key.to_vec(), left: Some(left), right: Some(right) };
    let proof = MerkleProof {
        proofs: vec![
            CommitmentProof { proof: Some(Proof::Nonexist(absence)) },
            CommitmentProof { proof: Some(Proof::Exist(neighbour(b"store", &lower_root, vec![]))) },
        ],
    };
    (proof, upper_root)
}

#[test]
fn key_between_its_neighbours_is_absent() {
    let (proof, upper_root) = absence_chain(b"b");
    assert_eq!(
        proof.verify_non_membership(
            &absent_specs(2),
            MerkleRoot { hash: upper_root },
            path_of(&["store", "b"])
        ),
        Ok(())
    );
}

#[test]
fn key_equal_to_a_neighbour_is_not_absent() {
    for key in ["a", "c"] {
        let (proof, upper_root) = absence_chain(key.as_bytes());
        assert_eq!(
            proof.verify_non_membership(
                &absent_specs(2),
                MerkleRoot { hash: upper_root },
                path_of(&["store", key])
            ),
            Err(CommitmentError::VerificationFailure)
        );
    }
}

#[test]
fn key_outside_its_neighbours_is_not_absent() {
    for key in ["0", "d"] {
        let (proof, upper_root) = absence_chain(key.as_bytes());
        assert_eq!(
            proof.verify_non_membership(
                &absent_specs(2),
                MerkleRoot { hash: upper_root },
                path_of(&["store", key])
            ),
            Err(CommitmentError::VerificationFailure)
        );
    }
}

#[test]
fn key_beyond_the_last_leaf_is_absent_with_a_left_neighbour_only() {
    let (_, right, lower_root) = two_leaves();
    let absence = NonExistenceFragment { key: b"d".to_vec(), left: Some(right), right: None };
    let proof = MerkleProof { proofs: vec![CommitmentProof { proof: Some(Proof::Nonexist(absence)) }] };
    assert_eq!(
        proof.verify_non_membership(&absent_specs(1), MerkleRoot { hash: lower_root }, path_of(&["d"])),
        Ok(())
    );
}

#[test]
fn key_before_the_first_leaf_is_absent_with_a_right_neighbour_only() {
    let (left, _, lower_root) = two_leaves();
    let absence = NonExistenceFragment { key: b"0".to_vec(), left: None, right: Some(left) };
    let proof = MerkleProof { proofs: vec![CommitmentProof { proof: Some(Proof::Nonexist(absence)) }] };
    assert_eq!(
        proof.verify_non_membership(&absent_specs(1), MerkleRoot { hash: lower_root }, path_of(&["0"])),
        Ok(())
    );
}

#[test]
fn neighbour_that_is_not_the_nearest_does_not_show_absence() {
    let (left, _, lower_root) = two_leaves();
    let absence = NonExistenceFragment { key: b"d".to_vec(), left: Some(left), right: None };
    let proof = MerkleProof { proofs: vec![CommitmentProof { proof: Some(Proof::Nonexist(absence)) }] };
    assert_eq!(
        proof.verify_non_membership(&absent_specs(1), MerkleRoot { hash: lower_root }, path_of(&["d"])),
        Err(CommitmentError::VerificationFailure)
    );
}

#[test]
fn absence_is_checked_for_the_last_key_of_the_path() {
    let (proof, upper_root) = absence_chain(b"b");
    assert_eq!(
        proof.verify_non_membership(
            &absent_specs(2),
            MerkleRoot { hash: upper_root },
            path_of(&["b", "store"])
        ),
        Err(CommitmentError::VerificationFailure)
    );
}

#[test]
fn absence_under_another_root_fails_verification() {
    let (proof, mut upper_root) = absence_chain(b"b");
    upper_root[5] ^= 4;
    assert_eq!(
        proof.verify_non_membership(
            &absent_specs(2),
            MerkleRoot { hash: upper_root },
            path_of(&["store", "b"])
        ),
        Err(CommitmentError::VerificationFailure)
    );
}

#[test]
fn absence_with_a_broken_upper_level_fails() {
    let (genuine, upper_root) = absence_chain(b"b");
    let forged = MerkleProof {
        proofs: vec![
            genuine.proofs[0].clone(),
            CommitmentProof { proof: Some(Proof::Exist(neighbour(b"store", b"other", vec![]))) },
        ],
    };
    assert_eq!(
        forged.verify_non_membership(
            &absent_specs(2),
            MerkleRoot { hash: upper_root.clone() },
            path_of(&["store", "b"])
        ),
        Err(CommitmentError::VerificationFailure)
    );
    let misplaced = MerkleProof { proofs: vec![genuine.proofs[0].clone(), genuine.proofs[0].clone()] };
    assert_eq!(
        misplaced.verify_non_membership(
            &absent_specs(2),
            MerkleRoot { hash: upper_root },
            path_of(&["store", "b"])
        ),
        Err(CommitmentError::InvalidMerkleProof)
    );
}

#[test]
fn lowest_level_that_is_no_absence_fragment_is_invalid() {
    let (genuine, upper_root) = absence_chain(b"b");
    let lowest = vec![
        CommitmentProof { proof: None },
        CommitmentProof { proof: Some(Proof::Exist(neighbour(b"a", b"1", vec![]))) },
    ];
    for other in lowest {
        let proof = MerkleProof { proofs: vec![other, genuine.proofs[1].clone()] };
        assert_eq!(
            proof.verify_non_membership(
                &absent_specs(2),
                MerkleRoot { hash: upper_root.clone() },
                path_of(&["store", "b"])
            ),
            Err(CommitmentError::InvalidMerkleProof)
        );
    }
}

#[test]
fn absence_without_neighbours_is_invalid() {
    let absence = NonExistenceFragment { key: b"b".to_vec(), left: None, right: None };
    assert_eq!(calculate_non_existence_root(&absence), Err(CommitmentError::InvalidMerkleProof));
    let proof = MerkleProof { proofs: vec![CommitmentProof { proof: Some(Proof::Nonexist(absence)) }] };
    assert_eq!(
        proof.verify_non_membership(&absent_specs(1), MerkleRoot { hash: vec![1] }, path_of(&["b"])),
        Err(CommitmentError::InvalidMerkleProof)
    );
}

#[test]
fn absence_with_a_neighbour_without_subroot_is_invalid() {
    let (_, right, lower_root) = two_leaves();
    let broken = ExistenceFragment { key: b"a".to_vec(), value: b"1".to_vec(), leaf: None, path: vec![] };
    let absence = NonExistenceFragment { key: b"b".to_vec(), left: Some(broken), right: Some(right) };
    assert_eq!(calculate_non_existence_root(&absence), Err(CommitmentError::InvalidMerkleProof));
    let proof = MerkleProof { proofs: vec![CommitmentProof { proof: Some(Proof::Nonexist(absence)) }] };
    assert_eq!(
        proof.verify_non_membership(&absent_specs(1), MerkleRoot { hash: lower_root }, path_of(&["b"])),
        Err(CommitmentError::InvalidMerkleProof)
    );
}

#[test]
fn subroot_of_absence_is_that_of_the_left_neighbour_first() {
    let (left, right, lower_root) = two_leaves();
    let stray = neighbour(b"x", b"y", vec![]);
    let both = NonExistenceFragment { key: b"b".to_vec(), left: Some(left.clone()), right: Some(stray.clone()) };
    assert_eq!(calculate_non_existence_root(&both), Ok(lower_root.clone()));
    let swapped = NonExistenceFragment { key: b"b".to_vec(), left: Some(stray), right: Some(left) };
    assert_eq!(calculate_non_existence_root(&swapped), Ok(hash_of_leaf(b"x", b"y")));
    let right_only = NonExistenceFragment { key: b"b".to_vec(), left: None, right: Some(right) };
    assert_eq!(calculate_non_existence_root(&right_only), Ok(lower_root));
}

#[test]
fn size_checks_come_before_the_absence_check() {
    let (proof, upper_root) = absence_chain(b"b");
    let empty = MerkleProof { proofs: vec![] };
    assert_eq!(
        empty.verify_non_membership(&absent_specs(0), MerkleRoot { hash: vec![] }, path_of(&[])),
        Err(CommitmentError::EmptyMerkleProof)
    );
    assert_eq!(
        proof.verify_non_membership(&absent_specs(1), MerkleRoot { hash: vec![] }, path_of(&["b"])),
        Err(CommitmentError::EmptyMerkleRoot)
    );
    assert_eq!(
        proof.verify_non_membership(
            &absent_specs(3),
            MerkleRoot { hash: upper_root.clone() },
            path_of(&["b"])
        ),
        Err(CommitmentError::NumberOfSpecsMismatch)
    );
    assert_eq!(
        proof.verify_non_membership(&absent_specs(2), MerkleRoot { hash: upper_root }, path_of(&["b"])),
        Err(CommitmentError::NumberOfKeysMismatch)
    );
}

#[test]
fn neighbours_whose_paths_never_part_confirm_nothing() {
    let plain = LeafOperation { hash: 0, prehash_key: 0, prehash_value: 0, length: 0, prefix: vec![] };
    let left = ExistenceFragment { key: b"a".to_vec(), value: b"bc".to_vec(), leaf: Some(plain.clone()), path: vec![] };
    let right = ExistenceFragment { key: b"ab".to_vec(), value: b"c".to_vec(), leaf: Some(plain.clone()), path: vec![] };
    let absence = NonExistenceFragment { key: b"aa".to_vec(), left: Some(left), right: Some(right) };
    let mut spec = absent_spec();
    spec.leaf_spec = Some(plain);
    assert!(!neighbours_do_part(&absence));
    assert!(!confirm_absence(&absence, &spec, &b"abc".to_vec(), b"aa"));
    let proof = MerkleProof { proofs: vec![CommitmentProof { proof: Some(Proof::Nonexist(absence)) }] };
    assert_eq!(
        proof.verify_non_membership(
            &ProofSpecs::new(vec![spec]),
            MerkleRoot { hash: b"abc".to_vec() },
            path_of(&["aa"])
        ),
        Err(CommitmentError::VerificationFailure)
    );
}

#[test]
fn absence_is_confirmed_only_with_a_spec_the_engine_can_compute_with() {
    let (left, right, lower_root) = two_leaves();
    let absence = NonExistenceFragment { key: b"b".to_vec(), left: Some(left), right: Some(right) };
    assert!(confirm_absence(&absence, &absent_spec(), &lower_root, b"b"));
    assert!(!confirm_absence(&absence, &absent_spec(), &lower_root, b"a"));
    let mut other_root = lower_root.clone();
    other_root[0] ^= 1;
    assert!(!confirm_absence(&absence, &absent_spec(), &other_root, b"b"));
    let mut no_children = absent_spec();
    no_children.inner_spec.as_mut().unwrap().child_order = vec![];
    assert!(!confirm_absence(&absence, &no_children, &lower_root, b"b"));
}

fn one_leaf_absence(
    left: Option<&[u8]>,
    right: Option<&[u8]>,
    key: &str,
    children: Vec<i32>,
    size: i32,
    min: i32,
    max: i32,
) -> Result<(), CommitmentError> {
    let present = left.or(right).unwrap();
    let absence = NonExistenceFragment {
        key: key.as_bytes().to_vec(),
        left: left.map(|k| neighbour(k, b"v", vec![])),
        right: right.map(|k| neighbour(k, b"v", vec![])),
    };
    let mut spec = absent_spec();
    spec.inner_spec = Some(InnerNodeSpec {
        child_order: children,
        child_size: size,
        min_prefix_length: min,
        max_prefix_length: max,
        empty_child: vec![],
        hash: 1,
    });
    let proof = MerkleProof { proofs: vec![CommitmentProof { proof: Some(Proof::Nonexist(absence)) }] };
    proof.verify_non_membership(
        &ProofSpecs::new(vec![spec]),
        MerkleRoot { hash: hash_of_leaf(present, b"v") },
        path_of(&[key]),
    )
}

#[test]
fn absence_beside_a_single_leaf_is_accepted_under_sizes_the_engine_does_not_compute() {
    assert_eq!(one_leaf_absence(Some(b"a"), None, "b", vec![0], 0, 1, 1), Ok(()));
    assert_eq!(one_leaf_absence(Some(b"a"), None, "b", vec![0], -1, 1, 1), Ok(()));
    assert_eq!(one_leaf_absence(Some(b"a"), None, "b", vec![0, 1], -5, 1, 1), Ok(()));
    assert_eq!(one_leaf_absence(Some(b"a"), None, "b", vec![0, 1], 32, 1, 1), Ok(()));
    assert_eq!(one_leaf_absence(None, Some(b"c"), "b", vec![0], 0, 1, 1), Ok(()));
    assert_eq!(one_leaf_absence(None, Some(b"c"), "b", vec![0, 1], -5, 1, 1), Ok(()));
    assert_eq!(
        one_leaf_absence(None, Some(b"c"), "b", vec![0, 1], i32::MAX, i32::MAX, i32::MAX),
        Ok(())
    );
}

#[test]
fn absence_before_a_single_leaf_is_accepted_where_the_siblings_fit_in_a_machine_word() {
    let accepted = one_leaf_absence(None, Some(b"c"), "b", vec![0, 1, 2, 3], i32::MAX, 1, 1);
    if 3 * 0x7fff_ffffu128 <= usize::MAX as u128 {
        assert_eq!(accepted, Ok(()));
    } else {
        assert_eq!(accepted, Err(CommitmentError::VerificationFailure));
    }
}

#[test]
fn absence_beside_a_single_leaf_is_not_confirmed_where_a_size_does_not_fit() {
    let failure = Err(CommitmentError::VerificationFailure);
    assert_eq!(one_leaf_absence(Some(b"a"), None, "b", vec![], 32, 1, 1), failure);
    assert_eq!(one_leaf_absence(Some(b"a"), None, "b", vec![0, 1], i32::MAX, 1, 1), failure);
    assert_eq!(one_leaf_absence(Some(b"a"), None, "b", vec![0, 1], 32, 1, i32::MAX), failure);
    assert_eq!(one_leaf_absence(None, Some(b"c"), "b", vec![0, 1, 2], -5, 1, 1), failure);
    assert_eq!(one_leaf_absence(None, Some(b"c"), "b", vec![], 32, 1, 1), failure);
}

#[test]
fn absence_beside_a_single_leaf_needs_the_child_that_the_neighbour_stands_for() {
    let failure = Err(CommitmentError::VerificationFailure);
    assert_eq!(one_leaf_absence(None, Some(b"c"), "b", vec![1, 2], 32, 1, 1), failure);
    assert_eq!(one_leaf_absence(Some(b"a"), None, "b", vec![0, 5], 32, 1, 1), failure);
    assert_eq!(one_leaf_absence(Some(b"a"), None, "a", vec![0], 32, 1, 1), failure);
}

#[test]
fn paths_part_where_steps_from_the_top_differ() {
    let step = |prefix: &[u8], suffix: &[u8]| InnerOperation { hash: 1, prefix: prefix.to_vec(), suffix: suffix.to_vec() };
    let top = step(&[9], &[9]);
    assert!(!paths_do_part(&vec![], &vec![]));
    assert!(!paths_do_part(&vec![top.clone()], &vec![]));
    assert!(!paths_do_part(&vec![top.clone()], &vec![top.clone()]));
    assert!(!paths_do_part(&vec![step(&[1], &[]), top.clone()], &vec![top.clone()]));
    assert!(paths_do_part(&vec![step(&[1], &[]), top.clone()], &vec![step(&[2], &[]), top.clone()]));
    assert!(paths_do_part(&vec![step(&[1], &[2])], &vec![step(&[1], &[3])]));
    assert!(paths_do_part(&vec![step(&[1], &[2])], &vec![step(&[], &[2])]));
    assert!(paths_do_part(&vec![top.clone(), step(&[1], &[])], &vec![top.clone(), step(&[2], &[])]));
    let other_hash = InnerOperation { hash: 2, prefix: vec![9], suffix: vec![9] };
    assert!(!paths_do_part(&vec![top], &vec![other_hash]));
}

#[test]
fn neighbours_part_where_one_of_them_is_missing() {
    let only_left = NonExistenceFragment { key: vec![], left: Some(neighbour(b"a", b"1", vec![])), right: None };
    let none = NonExistenceFragment { key: vec![], left: None, right: None };
    assert!(neighbours_do_part(&only_left));
    assert!(neighbours_do_part(&none));
    let (left, right, _) = two_leaves();
    let both = NonExistenceFragment { key: vec![], left: Some(left), right: Some(right) };
    assert!(neighbours_do_part(&both));
}
