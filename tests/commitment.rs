use native_commit::felt::Felt;
use native_commit::hash_chain::HashChain;
use native_commit::receipt_commitment::{
    calculate_messages_sent_hash, calculate_receipt_commitment, calculate_receipt_hash,
    calculate_root, get_revert_reason_hash, starknet_keccak_hash, GasVector, MessageToL1,
    ReceiptElement, TransactionExecutionStatus, TransactionOutputForHash, TreeHash,
};
use sha3::Digest;
use starknet_types_core::hash::{Pedersen, Poseidon, StarkHash};

type SFelt = starknet_types_core::felt::Felt;

fn s(f: &Felt) -> SFelt {
    SFelt::from_bytes_be(&f.bytes)
}

fn receipt(hash: u128, fee: u128, status: TransactionExecutionStatus, l1: u64, l1_data: u64) -> ReceiptElement {
    ReceiptElement {
        transaction_hash: Felt::from_u128(hash),
        transaction_output: TransactionOutputForHash {
            actual_fee: fee,
            messages_sent: vec![],
            execution_status: status,
            gas_consumed: GasVector { l1_gas: l1, l1_data_gas: l1_data, l2_gas: 0 },
        },
    }
}

#[test]
fn scenario_single_succeeded_transaction() {
    let r = receipt(0x1234, 100, TransactionExecutionStatus::Succeeded, 21000, 0);
    let leaf = calculate_receipt_hash(&r);
    let no_messages = Poseidon::hash_array(&[SFelt::ZERO]);
    let expected = Poseidon::hash_array(&[
        SFelt::from(0x1234u64),
        SFelt::from(100u64),
        no_messages,
        SFelt::ZERO,
        SFelt::ZERO,
        SFelt::from(21000u64),
        SFelt::ZERO,
    ]);
    assert_eq!(s(&leaf), expected);
    let root = calculate_receipt_commitment(TreeHash::Poseidon, &[r]);
    assert_eq!(root.bytes, leaf.bytes);
}

#[test]
fn scenario_reverted_transaction() {
    let digest = get_revert_reason_hash(&TransactionExecutionStatus::Reverted("out of gas".to_string()));
    let mut k: [u8; 32] = sha3::Keccak256::digest(b"out of gas").into();
    k[0] &= 0x03;
    assert_eq!(digest.bytes, k);
    assert_ne!(digest.bytes, [0u8; 32]);
    let ok = receipt(7, 100, TransactionExecutionStatus::Succeeded, 21000, 0);
    let reverted = receipt(7, 100, TransactionExecutionStatus::Reverted("out of gas".to_string()), 21000, 0);
    assert_ne!(calculate_receipt_hash(&ok).bytes, calculate_receipt_hash(&reverted).bytes);
}

#[test]
fn succeeded_status_digest_is_zero() {
    assert_eq!(get_revert_reason_hash(&TransactionExecutionStatus::Succeeded).bytes, [0u8; 32]);
}

#[test]
fn keccak_clears_top_bits() {
    let f = starknet_keccak_hash(b"abc");
    assert!(f.bytes[0] < 4);
    let full: [u8; 32] = sha3::Keccak256::digest(b"abc").into();
    assert_eq!(&f.bytes[1..], &full[1..]);
}

#[test]
fn messages_hash_chains_count_then_fields() {
    let m = MessageToL1 {
        from_address: Felt::from_u128(1),
        to_address: Felt::from_u128(2),
        payload: vec![Felt::from_u128(3), Felt::from_u128(4)],
    };
    let h = calculate_messages_sent_hash(&vec![m]);
    let expected = Poseidon::hash_array(&[
        SFelt::from(1u64),
        SFelt::from(1u64),
        SFelt::from(2u64),
        SFelt::from(2u64),
        SFelt::from(3u64),
        SFelt::from(4u64),
    ]);
    assert_eq!(s(&h), expected);
}

#[test]
fn changing_any_field_changes_the_leaf() {
    let base = calculate_receipt_hash(&receipt(5, 100, TransactionExecutionStatus::Succeeded, 10, 20));
    let variants = [
        receipt(6, 100, TransactionExecutionStatus::Succeeded, 10, 20),
        receipt(5, 101, TransactionExecutionStatus::Succeeded, 10, 20),
        receipt(5, 100, TransactionExecutionStatus::Reverted("x".to_string()), 10, 20),
        receipt(5, 100, TransactionExecutionStatus::Succeeded, 11, 20),
        receipt(5, 100, TransactionExecutionStatus::Succeeded, 10, 21),
    ];
    for v in variants.iter() {
        assert_ne!(calculate_receipt_hash(v).bytes, base.bytes);
    }
    let mut with_msg = receipt(5, 100, TransactionExecutionStatus::Succeeded, 10, 20);
    with_msg.transaction_output.messages_sent.push(MessageToL1 {
        from_address: Felt::from_u128(1),
        to_address: Felt::from_u128(2),
        payload: vec![Felt::from_u128(3)],
    });
    let h1 = calculate_receipt_hash(&with_msg);
    assert_ne!(h1.bytes, base.bytes);
    with_msg.transaction_output.messages_sent[0].payload[0] = Felt::from_u128(4);
    assert_ne!(calculate_receipt_hash(&with_msg).bytes, h1.bytes);
}

#[test]
fn permuting_receipts_changes_the_root() {
    let a = || receipt(1, 10, TransactionExecutionStatus::Succeeded, 1, 0);
    let b = || receipt(2, 20, TransactionExecutionStatus::Succeeded, 2, 0);
    let ab = calculate_receipt_commitment(TreeHash::Poseidon, &[a(), b()]);
    let ba = calculate_receipt_commitment(TreeHash::Poseidon, &[b(), a()]);
    assert_ne!(ab.bytes, ba.bytes);
    let again = calculate_receipt_commitment(TreeHash::Poseidon, &[a(), b()]);
    assert_eq!(ab.bytes, again.bytes);
}

#[test]
fn root_of_two_leaves_is_their_pair_hash() {
    let x = Felt::from_u128(11);
    let y = Felt::from_u128(12);
    let r = calculate_root(TreeHash::Pedersen, vec![x, y]);
    assert_eq!(s(&r), Pedersen::hash(&s(&x), &s(&y)));
    let r = calculate_root(TreeHash::Poseidon, vec![x, y]);
    assert_eq!(s(&r), Poseidon::hash(&s(&x), &s(&y)));
}

#[test]
fn root_of_three_leaves_pads_with_zero() {
    let l: Vec<Felt> = (1..=3).map(Felt::from_u128).collect();
    let r = calculate_root(TreeHash::Poseidon, l.clone());
    let left = Poseidon::hash(&s(&l[0]), &s(&l[1]));
    let right = Poseidon::hash(&s(&l[2]), &SFelt::ZERO);
    assert_eq!(s(&r), Poseidon::hash(&left, &right));
}

#[test]
fn root_of_no_leaves_is_zero() {
    assert_eq!(calculate_root(TreeHash::Poseidon, vec![]).bytes, [0u8; 32]);
}

#[test]
fn hash_chain_groups_are_length_prefixed() {
    let items = [Felt::from_u128(8), Felt::from_u128(9)];
    let c = HashChain::new().chain(&Felt::from_u128(1)).chain_size_and_elements(&items);
    assert_eq!(c.elements.len(), 4);
    assert_eq!(s(&c.elements[1]), SFelt::from(2u64));
    let expected = Poseidon::hash_array(&[SFelt::from(1u64), SFelt::from(2u64), SFelt::from(8u64), SFelt::from(9u64)]);
    assert_eq!(s(&c.get_poseidon_hash()), expected);
}
