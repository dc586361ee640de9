use vstd::prelude::*;
use vstd::string::*;
use vstd::utf8::*;

use crate::codec::felt_views;
use crate::felt::{byte_at, u128_be_bytes, zero_bytes, Felt};
use crate::hash_chain::{poseidon_hash_of, HashChain};
use sha3::Digest;
use starknet_types_core::hash::{Pedersen, Poseidon, StarkHash};

verus! {

/// The Keccak-256 digest of a byte string.
pub uninterp spec fn keccak256_of(data: Seq<u8>) -> Seq<u8>;

/// The Pedersen hash of two elements, each given by its bytes.
pub uninterp spec fn pedersen_pair_of(a: Seq<u8>, b: Seq<u8>) -> Seq<u8>;

/// The Poseidon hash of two elements, each given by its bytes.
pub uninterp spec fn poseidon_pair_of(a: Seq<u8>, b: Seq<u8>) -> Seq<u8>;

/// Relies on sha3's `Keccak256`: the 32-byte digest of `data`.
#[verifier::external_body]
fn keccak256(data: &[u8]) -> (r: [u8; 32])
    ensures
        r@ == keccak256_of(data@),
{
    sha3::Keccak256::digest(data).into()
}

/// Relies on starknet_types_core's `Pedersen::hash`: the hash of the pair, in
/// canonical form.
#[verifier::external_body]
fn pedersen_pair(a: &Felt, b: &Felt) -> (r: Felt)
    ensures
        r@ == pedersen_pair_of(a@, b@),
        r.wf(),
{
    let x = starknet_types_core::felt::Felt::from_bytes_be(&a.bytes);
    let y = starknet_types_core::felt::Felt::from_bytes_be(&b.bytes);
    Felt { bytes: <Pedersen as StarkHash>::hash(&x, &y).to_bytes_be() }
}

/// Relies on starknet_types_core's `Poseidon::hash`: the hash of the pair, in
/// canonical form.
#[verifier::external_body]
fn poseidon_pair(a: &Felt, b: &Felt) -> (r: Felt)
    ensures
        r@ == poseidon_pair_of(a@, b@),
        r.wf(),
{
    let x = starknet_types_core::felt::Felt::from_bytes_be(&a.bytes);
    let y = starknet_types_core::felt::Felt::from_bytes_be(&b.bytes);
    Felt { bytes: <Poseidon as StarkHash>::hash(&x, &y).to_bytes_be() }
}

/// The hash function that combines two nodes of the commitment tree.
#[derive(Clone, Copy, Debug, PartialEq, Eq, Structural)]
pub enum TreeHash {
    Pedersen,
    Poseidon,
}

pub open spec fn pair_of(kind: TreeHash, a: Seq<u8>, b: Seq<u8>) -> Seq<u8> {
    match kind {
        TreeHash::Pedersen => pedersen_pair_of(a, b),
        TreeHash::Poseidon => poseidon_pair_of(a, b),
    }
}

/// Combines two nodes with the chosen hash function.
pub fn hash_pair(kind: TreeHash, a: &Felt, b: &Felt) -> (r: Felt)
    ensures
        r@ == pair_of(kind, a@, b@),
        r.wf(),
{
    match kind {
        TreeHash::Pedersen => pedersen_pair(a, b),
        TreeHash::Poseidon => poseidon_pair(a, b),
    }
}

/// The level above `l`: node `i` combines nodes `2 i` and `2 i + 1` of `l`, the
/// missing right node of an odd level being zero.
pub open spec fn next_level(kind: TreeHash, l: Seq<Seq<u8>>) -> Seq<Seq<u8>> {
    Seq::new(
        ((l.len() + 1) / 2) as nat,
        |i: int|
            pair_of(kind, l[2 * i], if 2 * i + 1 < l.len() { l[2 * i + 1] } else { zero_bytes() }),
    )
}

/// The root of the binary tree over `l`, whose height is the number of halvings
/// that bring `l` to one node; zero for no leaves, the leaf itself for one.
pub open spec fn merkle_root(kind: TreeHash, l: Seq<Seq<u8>>) -> Seq<u8>
    decreases l.len(),
{
    if l.len() == 0 {
        zero_bytes()
    } else if l.len() == 1 {
        l[0]
    } else {
        merkle_root(kind, next_level(kind, l))
    }
}

/// Computes the root of the binary tree over `leaves`, in order.
pub fn calculate_root(kind: TreeHash, leaves: Vec<Felt>) -> (r: Felt)
    ensures
        r@ == merkle_root(kind, felt_views(leaves@)),
{
    if leaves.len() == 0 {
        return Felt::zero();
    }
    let mut level = leaves;
    while level.len() > 1
        invariant
            level@.len() >= 1,
            merkle_root(kind, felt_views(level@)) == merkle_root(kind, felt_views(leaves@)),
        decreases level@.len(),
    {
        let n = level.len();
        let m = n / 2 + n % 2;
        assert(m == (n + 1) / 2);
        let ghost lv = felt_views(level@);
        let mut next: Vec<Felt> = Vec::new();
        let mut i: usize = 0;
        while i < m
            invariant
                n == level@.len(),
                n > 1,
                m == (n + 1) / 2,
                i <= m,
                lv == felt_views(level@),
                next@.len() == i,
                forall|k: int| 0 <= k < i ==> (#[trigger] next@[k])@ == next_level(kind, lv)[k],
            decreases m - i,
        {
            let right = if 2 * i + 1 < n {
                level[2 * i + 1]
            } else {
                Felt::zero()
            };
            next.push(hash_pair(kind, &level[2 * i], &right));
            i = i + 1;
        }
        assert(felt_views(next@) =~= next_level(kind, lv));
        level = next;
    }
    level[0]
}

/// A message sent from the chain to L1.
pub struct MessageToL1 {
    pub from_address: Felt,
    pub to_address: Felt,
    pub payload: Vec<Felt>,
}

/// Gas consumed by a transaction, per resource.
#[derive(Clone, Copy, Debug, PartialEq, Eq, Structural)]
pub struct GasVector {
    pub l1_gas: u64,
    pub l1_data_gas: u64,
    pub l2_gas: u64,
}

/// Whether a transaction succeeded, or reverted with a reason.
pub enum TransactionExecutionStatus {
    Succeeded,
    Reverted(String),
}

/// What of a transaction's execution enters its receipt.
pub struct TransactionOutputForHash {
    pub actual_fee: u128,
    pub messages_sent: Vec<MessageToL1>,
    pub execution_status: TransactionExecutionStatus,
    pub gas_consumed: GasVector,
}

/// The elements used to calculate a leaf of the receipt tree.
pub struct ReceiptElement {
    pub transaction_hash: Felt,
    pub transaction_output: TransactionOutputForHash,
}

/// The elements chained for one message: sender, recipient, payload length, payload.
pub open spec fn message_chain(m: MessageToL1) -> Seq<Seq<u8>> {
    seq![m.from_address@, m.to_address@, u128_be_bytes(m.payload@.len() as u128)] + felt_views(
        m.payload@,
    )
}

pub open spec fn messages_body(ms: Seq<MessageToL1>) -> Seq<Seq<u8>>
    decreases ms.len(),
{
    if ms.len() == 0 {
        seq![]
    } else {
        message_chain(ms[0]) + messages_body(ms.drop_first())
    }
}

proof fn lemma_messages_body_push(ms: Seq<MessageToL1>, m: MessageToL1)
    ensures
        messages_body(ms.push(m)) == messages_body(ms) + message_chain(m),
    decreases ms.len(),
{
    if ms.len() == 0 {
        assert(ms.push(m).drop_first() =~= Seq::<MessageToL1>::empty());
        assert(ms.push(m)[0] == m);
        assert(messages_body(Seq::<MessageToL1>::empty()) == Seq::<Seq<u8>>::empty());
        assert(messages_body(ms.push(m)) =~= messages_body(ms) + message_chain(m));
    } else {
        lemma_messages_body_push(ms.drop_first(), m);
        assert(ms.push(m).drop_first() =~= ms.drop_first().push(m));
        assert(ms.push(m)[0] == ms[0]);
        assert(messages_body(ms.push(m)) =~= messages_body(ms) + message_chain(m));
    }
}

proof fn lemma_message_chain_injective(x: MessageToL1, y: MessageToL1, rx: Seq<Seq<u8>>, ry: Seq<Seq<u8>>)
    requires
        message_chain(x) + rx == message_chain(y) + ry,
        x.payload@.len() <= usize::MAX,
        y.payload@.len() <= usize::MAX,
    ensures
        x.from_address@ == y.from_address@,
        x.to_address@ == y.to_address@,
        felt_views(x.payload@) == felt_views(y.payload@),
        rx == ry,
{
    let cx = message_chain(x);
    let cy = message_chain(y);
    assert((cx + rx)[0] == (cy + ry)[0]);
    assert((cx + rx)[1] == (cy + ry)[1]);
    assert((cx + rx)[2] == (cy + ry)[2]);
    lemma_u128_be_bytes_injective(x.payload@.len() as u128, y.payload@.len() as u128);
    assert(cx.len() == cy.len());
    assert(cx =~= (cx + rx).take(cx.len() as int));
    assert(cy =~= (cy + ry).take(cy.len() as int));
    assert(rx =~= (cx + rx).skip(cx.len() as int));
    assert(ry =~= (cy + ry).skip(cy.len() as int));
    assert(felt_views(x.payload@) =~= cx.skip(3));
    assert(felt_views(y.payload@) =~= cy.skip(3));
}

proof fn lemma_messages_body_injective(a: Seq<MessageToL1>, b: Seq<MessageToL1>)
    requires
        a.len() == b.len(),
        messages_body(a) == messages_body(b),
        forall|i: int| 0 <= i < a.len() ==> (#[trigger] a[i]).payload@.len() <= usize::MAX,
        forall|i: int| 0 <= i < b.len() ==> (#[trigger] b[i]).payload@.len() <= usize::MAX,
    ensures
        forall|i: int|
            0 <= i < a.len() ==> {
                &&& (#[trigger] a[i]).from_address@ == b[i].from_address@
                &&& a[i].to_address@ == b[i].to_address@
                &&& felt_views(a[i].payload@) == felt_views(b[i].payload@)
            },
    decreases a.len(),
{
    if a.len() > 0 {
        lemma_message_chain_injective(a[0], b[0], messages_body(a.drop_first()), messages_body(b.drop_first()));
        assert forall|i: int| 0 <= i < a.len() - 1 implies (#[trigger] a.drop_first()[i]).payload@.len()
            <= usize::MAX by {
            assert(a.drop_first()[i] == a[i + 1]);
        }
        assert forall|i: int| 0 <= i < b.len() - 1 implies (#[trigger] b.drop_first()[i]).payload@.len()
            <= usize::MAX by {
            assert(b.drop_first()[i] == b[i + 1]);
        }
        lemma_messages_body_injective(a.drop_first(), b.drop_first());
        assert forall|i: int| 0 <= i < a.len() implies {
            &&& (#[trigger] a[i]).from_address@ == b[i].from_address@
            &&& a[i].to_address@ == b[i].to_address@
            &&& felt_views(a[i].payload@) == felt_views(b[i].payload@)
        } by {
            if i > 0 {
                assert(a[i] == a.drop_first()[i - 1]);
                assert(b[i] == b.drop_first()[i - 1]);
            }
        }
    }
}

/// Two message lists whose chained elements agree have the same messages, field
/// by field: a change to any message field changes what is hashed into the
/// messages digest.
pub proof fn lemma_messages_chain_determines_messages(a: Seq<MessageToL1>, b: Seq<MessageToL1>)
    requires
        messages_chain(a) == messages_chain(b),
        a.len() <= usize::MAX,
        b.len() <= usize::MAX,
        forall|i: int| 0 <= i < a.len() ==> (#[trigger] a[i]).payload@.len() <= usize::MAX,
        forall|i: int| 0 <= i < b.len() ==> (#[trigger] b[i]).payload@.len() <= usize::MAX,
    ensures
        a.len() == b.len(),
        forall|i: int|
            0 <= i < a.len() ==> {
                &&& (#[trigger] a[i]).from_address@ == b[i].from_address@
                &&& a[i].to_address@ == b[i].to_address@
                &&& felt_views(a[i].payload@) == felt_views(b[i].payload@)
            },
{
    assert(messages_chain(a)[0] == messages_chain(b)[0]);
    lemma_u128_be_bytes_injective(a.len() as u128, b.len() as u128);
    assert(messages_body(a) =~= messages_chain(a).skip(1));
    assert(messages_body(b) =~= messages_chain(b).skip(1));
    lemma_messages_body_injective(a, b);
}

/// The elements chained for a list of messages: their number, then each message.
pub open spec fn messages_chain(ms: Seq<MessageToL1>) -> Seq<Seq<u8>> {
    seq![u128_be_bytes(ms.len() as u128)] + messages_body(ms)
}

/// Keccak-256 of `data` with the top six bits cleared, which makes it a field element.
pub open spec fn starknet_keccak_of(data: Seq<u8>) -> Seq<u8> {
    let d = keccak256_of(data);
    d.update(0, d[0] & 3)
}

/// The revert-reason digest: zero for success, the keccak of the reason's
/// UTF-8 bytes otherwise.
pub open spec fn revert_digest(s: TransactionExecutionStatus) -> Seq<u8> {
    match s {
        TransactionExecutionStatus::Succeeded => zero_bytes(),
        TransactionExecutionStatus::Reverted(reason) => starknet_keccak_of(encode_utf8(reason@)),
    }
}

/// The elements chained for one receipt, in order.
pub open spec fn receipt_chain(r: ReceiptElement) -> Seq<Seq<u8>> {
    let o = r.transaction_output;
    seq![
        r.transaction_hash@,
        u128_be_bytes(o.actual_fee),
        poseidon_hash_of(messages_chain(o.messages_sent@)),
        revert_digest(o.execution_status),
        zero_bytes(),
        u128_be_bytes(o.gas_consumed.l1_gas as u128),
        u128_be_bytes(o.gas_consumed.l1_data_gas as u128),
    ]
}

/// The leaf of one receipt.
pub open spec fn receipt_hash_spec(r: ReceiptElement) -> Seq<u8> {
    poseidon_hash_of(receipt_chain(r))
}

/// The leaves of a block's receipts, in block order.
pub open spec fn receipt_leaves(rs: Seq<ReceiptElement>) -> Seq<Seq<u8>> {
    Seq::new(rs.len(), |i: int| receipt_hash_spec(rs[i]))
}

proof fn lemma_bytes_eq(x: u128, y: u128)
    requires
            byte_at(x, 0) == byte_at(y, 0),
            byte_at(x, 1) == byte_at(y, 1),
            byte_at(x, 2) == byte_at(y, 2),
            byte_at(x, 3) == byte_at(y, 3),
            byte_at(x, 4) == byte_at(y, 4),
            byte_at(x, 5) == byte_at(y, 5),
            byte_at(x, 6) == byte_at(y, 6),
            byte_at(x, 7) == byte_at(y, 7),
            byte_at(x, 8) == byte_at(y, 8),
            byte_at(x, 9) == byte_at(y, 9),
            byte_at(x, 10) == byte_at(y, 10),
            byte_at(x, 11) == byte_at(y, 11),
            byte_at(x, 12) == byte_at(y, 12),
            byte_at(x, 13) == byte_at(y, 13),
            byte_at(x, 14) == byte_at(y, 14),
            byte_at(x, 15) == byte_at(y, 15),
    ensures
        x == y,
{
    assert(x == y) by (bit_vector)
        requires
            ((x >> 0u128) & 0xffu128) as u8 == ((y >> 0u128) & 0xffu128) as u8,
            ((x >> 8u128) & 0xffu128) as u8 == ((y >> 8u128) & 0xffu128) as u8,
            ((x >> 16u128) & 0xffu128) as u8 == ((y >> 16u128) & 0xffu128) as u8,
            ((x >> 24u128) & 0xffu128) as u8 == ((y >> 24u128) & 0xffu128) as u8,
            ((x >> 32u128) & 0xffu128) as u8 == ((y >> 32u128) & 0xffu128) as u8,
            ((x >> 40u128) & 0xffu128) as u8 == ((y >> 40u128) & 0xffu128) as u8,
            ((x >> 48u128) & 0xffu128) as u8 == ((y >> 48u128) & 0xffu128) as u8,
            ((x >> 56u128) & 0xffu128) as u8 == ((y >> 56u128) & 0xffu128) as u8,
            ((x >> 64u128) & 0xffu128) as u8 == ((y >> 64u128) & 0xffu128) as u8,
            ((x >> 72u128) & 0xffu128) as u8 == ((y >> 72u128) & 0xffu128) as u8,
            ((x >> 80u128) & 0xffu128) as u8 == ((y >> 80u128) & 0xffu128) as u8,
            ((x >> 88u128) & 0xffu128) as u8 == ((y >> 88u128) & 0xffu128) as u8,
            ((x >> 96u128) & 0xffu128) as u8 == ((y >> 96u128) & 0xffu128) as u8,
            ((x >> 104u128) & 0xffu128) as u8 == ((y >> 104u128) & 0xffu128) as u8,
            ((x >> 112u128) & 0xffu128) as u8 == ((y >> 112u128) & 0xffu128) as u8,
            ((x >> 120u128) & 0xffu128) as u8 == ((y >> 120u128) & 0xffu128) as u8,
    ;
}

/// Distinct 128-bit values have distinct bytes.
pub proof fn lemma_u128_be_bytes_injective(x: u128, y: u128)
    requires
        u128_be_bytes(x) == u128_be_bytes(y),
    ensures
        x == y,
{
    assert forall|k: int| 0 <= k < 16 implies #[trigger] byte_at(x, k) == byte_at(y, k) by {
        assert(31 - (31 - k) == k);
        assert(u128_be_bytes(x)[31 - k] == byte_at(x, k));
        assert(u128_be_bytes(y)[31 - k] == byte_at(y, k));
    }
    lemma_bytes_eq(x, y);
}

/// The elements hashed into a receipt's leaf determine its transaction hash,
/// fee, L1 gas, L1 data gas, messages digest and revert digest: two receipts
/// that differ in any of them hash different element sequences.
pub proof fn lemma_receipt_chain_determines_fields(a: ReceiptElement, b: ReceiptElement)
    requires
        receipt_chain(a) == receipt_chain(b),
    ensures
        a.transaction_hash@ == b.transaction_hash@,
        a.transaction_output.actual_fee == b.transaction_output.actual_fee,
        a.transaction_output.gas_consumed.l1_gas == b.transaction_output.gas_consumed.l1_gas,
        a.transaction_output.gas_consumed.l1_data_gas == b.transaction_output.gas_consumed.l1_data_gas,
        poseidon_hash_of(messages_chain(a.transaction_output.messages_sent@)) == poseidon_hash_of(
            messages_chain(b.transaction_output.messages_sent@),
        ),
        revert_digest(a.transaction_output.execution_status) == revert_digest(
            b.transaction_output.execution_status,
        ),
{
    let ca = receipt_chain(a);
    let cb = receipt_chain(b);
    assert(ca[0] == cb[0]);
    assert(ca[1] == cb[1]);
    assert(ca[2] == cb[2]);
    assert(ca[3] == cb[3]);
    assert(ca[5] == cb[5]);
    assert(ca[6] == cb[6]);
    lemma_u128_be_bytes_injective(a.transaction_output.actual_fee, b.transaction_output.actual_fee);
    lemma_u128_be_bytes_injective(
        a.transaction_output.gas_consumed.l1_gas as u128,
        b.transaction_output.gas_consumed.l1_gas as u128,
    );
    lemma_u128_be_bytes_injective(
        a.transaction_output.gas_consumed.l1_data_gas as u128,
        b.transaction_output.gas_consumed.l1_data_gas as u128,
    );
}

/// The root over one leaf is that leaf.
pub proof fn lemma_single_leaf_root(kind: TreeHash, leaf: Seq<u8>)
    ensures
        merkle_root(kind, seq![leaf]) == leaf,
{
}

/// The root over two leaves is the pair hash of the first and the second, in
/// that order: swapping them swaps the arguments of the hash.
pub proof fn lemma_two_leaf_root(kind: TreeHash, a: Seq<u8>, b: Seq<u8>)
    ensures
        merkle_root(kind, seq![a, b]) == pair_of(kind, a, b),
        merkle_root(kind, seq![b, a]) == pair_of(kind, b, a),
{
    assert(next_level(kind, seq![a, b]) =~= seq![pair_of(kind, a, b)]);
    assert(next_level(kind, seq![b, a]) =~= seq![pair_of(kind, b, a)]);
    assert(merkle_root(kind, seq![pair_of(kind, a, b)]) == pair_of(kind, a, b));
    assert(merkle_root(kind, seq![pair_of(kind, b, a)]) == pair_of(kind, b, a));
}

/// The commitment is a function of the ordered leaves alone: equal leaf
/// sequences give equal roots, whichever receipts produced them.
pub proof fn lemma_commitment_depends_on_leaves(
    kind: TreeHash,
    a: Seq<ReceiptElement>,
    b: Seq<ReceiptElement>,
)
    requires
        a.len() == b.len(),
        forall|i: int| 0 <= i < a.len() ==> receipt_hash_spec(a[i]) == receipt_hash_spec(b[i]),
    ensures
        merkle_root(kind, receipt_leaves(a)) == merkle_root(kind, receipt_leaves(b)),
{
    assert(receipt_leaves(a) =~= receipt_leaves(b));
}

/// Keccak-256 of `data` with the top six bits cleared.
pub fn starknet_keccak_hash(data: &[u8]) -> (r: Felt)
    ensures
        r@ == starknet_keccak_of(data@),
        r.wf(),
{
    let mut d = keccak256(data);
    let d0 = d[0];
    let top = d0 & 3;
    assert(top < 8) by (bit_vector)
        requires
            top == d0 & 3,
    ;
    d[0] = top;
    Felt { bytes: d }
}

/// The Poseidon digest of the messages sent: their number, then per message
/// the sender, the recipient, the payload length and the payload.
pub fn calculate_messages_sent_hash(messages_sent: &Vec<MessageToL1>) -> (r: Felt)
    ensures
        r@ == poseidon_hash_of(messages_chain(messages_sent@)),
{
    let mut c = HashChain::new().chain(&Felt::from_u128(messages_sent.len() as u128));
    let mut i: usize = 0;
    while i < messages_sent.len()
        invariant
            i <= messages_sent@.len(),
            c@ == seq![u128_be_bytes(messages_sent@.len() as u128)] + messages_body(
                messages_sent@.take(i as int),
            ),
        decreases messages_sent@.len() - i,
    {
        let m = &messages_sent[i];
        let ghost before = c@;
        c = c.chain(&m.from_address).chain(&m.to_address).chain_size_and_elements(
            m.payload.as_slice(),
        );
        assert(messages_sent@.take(i as int + 1) =~= messages_sent@.take(i as int).push(*m));
        proof { lemma_messages_body_push(messages_sent@.take(i as int), *m); }
        assert(c@ =~= before + message_chain(*m));
        i = i + 1;
    }
    assert(messages_sent@.take(i as int) =~= messages_sent@);
    c.get_poseidon_hash()
}

/// The revert-reason digest of an execution status.
pub fn get_revert_reason_hash(execution_status: &TransactionExecutionStatus) -> (r: Felt)
    ensures
        r@ == revert_digest(*execution_status),
        r.wf(),
{
    match execution_status {
        TransactionExecutionStatus::Succeeded => Felt::zero(),
        TransactionExecutionStatus::Reverted(reason) => starknet_keccak_hash(reason.as_str().as_bytes()),
    }
}

/// Appends the gas consumed: L2 gas (always zero here), L1 gas, L1 data gas.
pub fn chain_gas_consumed(hash_chain: HashChain, gas_consumed: &GasVector) -> (r: HashChain)
    ensures
        r@ == hash_chain@ + seq![
            zero_bytes(),
            u128_be_bytes(gas_consumed.l1_gas as u128),
            u128_be_bytes(gas_consumed.l1_data_gas as u128),
        ],
{
    let r = hash_chain.chain(&Felt::zero()).chain(&Felt::from_u128(gas_consumed.l1_gas as u128)).chain(
        &Felt::from_u128(gas_consumed.l1_data_gas as u128),
    );
    assert(r@ =~= hash_chain@ + seq![
        zero_bytes(),
        u128_be_bytes(gas_consumed.l1_gas as u128),
        u128_be_bytes(gas_consumed.l1_data_gas as u128),
    ]);
    r
}

/// The leaf of one receipt: the Poseidon digest of the transaction hash, the
/// fee, the messages digest, the revert-reason digest and the gas consumed.
pub fn calculate_receipt_hash(receipt_element: &ReceiptElement) -> (r: Felt)
    ensures
        r@ == receipt_hash_spec(*receipt_element),
{
    let o = &receipt_element.transaction_output;
    let c = HashChain::new().chain(&receipt_element.transaction_hash).chain(
        &Felt::from_u128(o.actual_fee),
    ).chain(&calculate_messages_sent_hash(&o.messages_sent)).chain(
        &get_revert_reason_hash(&o.execution_status),
    );
    let c = chain_gas_consumed(c, &o.gas_consumed);
    assert(c@ =~= receipt_chain(*receipt_element));
    c.get_poseidon_hash()
}

/// The root of the tree whose leaves are the receipts' hashes, in block order.
pub fn calculate_receipt_commitment(kind: TreeHash, receipt_elements: &[ReceiptElement]) -> (r: Felt)
    ensures
        r@ == merkle_root(kind, receipt_leaves(receipt_elements@)),
{
    let mut leaves: Vec<Felt> = Vec::new();
    let mut i: usize = 0;
    while i < receipt_elements.len()
        invariant
            i <= receipt_elements@.len(),
            leaves@.len() == i,
            forall|k: int|
                0 <= k < i ==> (#[trigger] leaves@[k])@ == receipt_hash_spec(receipt_elements@[k]),
        decreases receipt_elements@.len() - i,
    {
        leaves.push(calculate_receipt_hash(&receipt_elements[i]));
        i = i + 1;
    }
    assert(felt_views(leaves@) =~= receipt_leaves(receipt_elements@));
    calculate_root(kind, leaves)
}

} // verus!
