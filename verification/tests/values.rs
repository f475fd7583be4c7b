use commitment_types::commitment::{show_undecodable, CommitmentPrefix, CommitmentRoot};
use commitment_types::error::CommitmentError;
use commitment_types::fragment::{
    BatchEntry, BatchEntryProof, BatchProof, CommitmentProof, CompressedBatchEntry,
    CompressedBatchProof, CompressedEntryProof, CompressedExistenceFragment, ExistenceFragment,
    InnerOperation, LeafOperation, NonExistenceFragment, Proof,
};
use commitment_types::merkle::{apply_prefix, MerklePath, MerkleProof, MerkleRoot, RawMerkleProof};

fn words(items: &[&str]) -> Vec<String> {
    items.iter().map(|s| s.to_string()).collect()
}

fn sample_levels() -> Vec<CommitmentProof> {
    let leaf = LeafOperation { hash: 1, prehash_key: 0, prehash_value: 1, length: 1, prefix: vec![0] };
    let step = InnerOperation { hash: 1, prefix: vec![1, 2], suffix: vec![3] };
    let existence = ExistenceFragment {
        key: b"k".to_vec(),
        value: b"v".to_vec(),
        leaf: Some(leaf.clone()),
        path: vec![step.clone()],
    };
    let absence = NonExistenceFragment { key: b"m".to_vec(), left: Some(existence.clone()), right: None };
    let batch = BatchProof {
        entries: vec![
            BatchEntry { proof: Some(BatchEntryProof::Exist(existence.clone())) },
            BatchEntry { proof: Some(BatchEntryProof::Nonexist(absence.clone())) },
            BatchEntry { proof: None },
        ],
    };
    let compressed = CompressedBatchProof {
        entries: vec![CompressedBatchEntry {
            proof: Some(CompressedEntryProof::Exist(CompressedExistenceFragment {
                key: b"k".to_vec(),
                value: b"v".to_vec(),
                leaf: Some(leaf),
                path: vec![0],
            })),
        }],
        lookup_inners: vec![step],
    };
    vec![
        CommitmentProof { proof: Some(Proof::Nonexist(absence)) },
        CommitmentProof { proof: Some(Proof::Exist(existence)) },
        CommitmentProof { proof: None },
        CommitmentProof { proof: Some(Proof::Batch(batch)) },
        CommitmentProof { proof: Some(Proof::Compressed(compressed)) },
    ]
}

#[test]
fn prefix_goes_in_front_of_the_path() {
    let prefix = CommitmentPrefix::from_bytes(b"ibc".to_vec());
    assert_eq!(
        apply_prefix(&prefix, words(&["clients", "07-tendermint-0", "clientState"])),
        MerklePath { key_path: words(&["ibc", "clients", "07-tendermint-0", "clientState"]) }
    );
}

#[test]
fn prefix_alone_is_a_path_of_one_segment() {
    let prefix = CommitmentPrefix::from_bytes(b"store".to_vec());
    assert_eq!(apply_prefix(&prefix, vec![]), MerklePath { key_path: words(&["store"]) });
}

#[test]
fn prefix_keeps_the_order_and_the_repeats_of_the_path() {
    let prefix = CommitmentPrefix::from_bytes(b"p".to_vec());
    assert_eq!(
        apply_prefix(&prefix, words(&["b", "a", "", "b", "p"])).key_path,
        words(&["p", "b", "a", "", "b", "p"])
    );
}

#[test]
fn prefix_without_bytes_stands_for_the_empty_text() {
    let prefix = CommitmentPrefix::from_bytes(vec![]);
    assert!(prefix.is_empty());
    assert_eq!(prefix.text(), "");
    assert_eq!(apply_prefix(&prefix, words(&["a"])).key_path, words(&["", "a"]));
}

#[test]
fn prefix_of_text_in_several_bytes_per_character_is_decoded() {
    let prefix = CommitmentPrefix::from_bytes("préfixe/日本".as_bytes().to_vec());
    assert_eq!(prefix.text(), "préfixe/日本");
    assert!(!prefix.is_empty());
}

#[test]
fn prefix_that_is_no_text_is_shown_as_numbers() {
    let prefix = CommitmentPrefix::from_bytes(vec![0xff, 0, 7, 10, 99, 100, 255]);
    assert_eq!(prefix.text(), "<not valid UTF8: [255, 0, 7, 10, 99, 100, 255]>");
    assert_eq!(
        apply_prefix(&prefix, words(&["a"])).key_path,
        words(&["<not valid UTF8: [255, 0, 7, 10, 99, 100, 255]>", "a"])
    );
    let truncated = CommitmentPrefix::from_bytes(vec![b'a', 0xe6, 0x97]);
    assert_eq!(truncated.text(), "<not valid UTF8: [97, 230, 151]>");
}

#[test]
fn shown_bytes_read_like_a_list_of_every_byte() {
    assert_eq!(show_undecodable(&[]), "<not valid UTF8: []>");
    assert_eq!(show_undecodable(&[5]), "<not valid UTF8: [5]>");
    let all: Vec<u8> = (0..=255).collect();
    assert_eq!(show_undecodable(&all), format!("<not valid UTF8: {:?}>", all));
}

#[test]
fn prefix_hands_its_bytes_back() {
    let prefix = CommitmentPrefix::from_bytes(vec![1, 2, 3]);
    assert_eq!(prefix.as_bytes(), &[1, 2, 3]);
    assert_eq!(prefix.into_vec(), vec![1, 2, 3]);
}

#[test]
fn root_hands_its_bytes_back() {
    let root = CommitmentRoot::from_bytes(&[9, 8, 7]);
    assert_eq!(root.as_bytes(), &[9, 8, 7]);
    assert_eq!(root.clone().into_vec(), vec![9, 8, 7]);
    assert_eq!(CommitmentRoot::from_bytes(&[]).into_vec(), Vec::<u8>::new());
}

#[test]
fn wire_root_has_the_bytes_of_the_commitment_root() {
    let root = CommitmentRoot::from_bytes(&[0xde, 0xad, 0xbe, 0xef]);
    assert_eq!(MerkleRoot::from(root), MerkleRoot { hash: vec![0xde, 0xad, 0xbe, 0xef] });
    let wire: MerkleRoot = CommitmentRoot::from_bytes(&[]).into();
    assert_eq!(wire.hash, Vec::<u8>::new());
}

#[test]
fn proof_goes_to_the_wire_and_back_unchanged() {
    let proof = MerkleProof { proofs: sample_levels() };
    let raw = RawMerkleProof::from(proof.clone());
    assert_eq!(raw.proofs, sample_levels());
    assert_eq!(MerkleProof::try_from(raw), Ok::<MerkleProof, CommitmentError>(proof));
}

#[test]
fn wire_form_goes_to_a_proof_and_back_unchanged() {
    let raw = RawMerkleProof { proofs: sample_levels() };
    let proof = MerkleProof::try_from(raw.clone()).unwrap();
    assert_eq!(proof.proofs, sample_levels());
    assert_eq!(RawMerkleProof::from(proof), raw);
    let empty = RawMerkleProof { proofs: vec![] };
    assert_eq!(MerkleProof::try_from(empty), Ok(MerkleProof { proofs: vec![] }));
}

#[test]
fn wire_round_trip_keeps_the_order_of_the_levels() {
    let mut levels = sample_levels();
    levels.reverse();
    let back = MerkleProof::try_from(RawMerkleProof::from(MerkleProof { proofs: levels.clone() })).unwrap();
    assert_eq!(back.proofs, levels);
    assert_ne!(back.proofs, sample_levels());
}
