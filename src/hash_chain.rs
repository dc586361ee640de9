use vstd::prelude::*;

use crate::codec::felt_views;
use crate::felt::{u128_be_bytes, Felt};
use starknet_types_core::hash::{Poseidon, StarkHash};

verus! {

/// The Poseidon digest of a sequence of elements, each given by its bytes.
pub uninterp spec fn poseidon_hash_of(elems: Seq<Seq<u8>>) -> Seq<u8>;

/// Relies on starknet_types_core's `Poseidon::hash_array`: the digest of the
/// sequence, returned in canonical form by `Felt::to_bytes_be`.
#[verifier::external_body]
fn poseidon_hash_many(elems: &Vec<Felt>) -> (r: Felt)
    ensures
        r@ == poseidon_hash_of(felt_views(elems@)),
        r.wf(),
{
    let v: Vec<starknet_types_core::felt::Felt> = elems.iter().map(
        |f| starknet_types_core::felt::Felt::from_bytes_be(&f.bytes),
    ).collect();
    Felt { bytes: <Poseidon as StarkHash>::hash_array(&v).to_bytes_be() }
}

/// An ordered accumulator of field elements, finalized into one digest.
pub struct HashChain {
    pub elements: Vec<Felt>,
}

impl View for HashChain {
    type V = Seq<Seq<u8>>;

    open spec fn view(&self) -> Seq<Seq<u8>> {
        felt_views(self.elements@)
    }
}

impl HashChain {
    /// An empty chain.
    pub fn new() -> (r: HashChain)
        ensures
            r@ == Seq::<Seq<u8>>::empty(),
    {
        let r = HashChain { elements: Vec::new() };
        assert(r@ =~= Seq::<Seq<u8>>::empty());
        r
    }

    /// The chain with `felt` appended.
    pub fn chain(self, felt: &Felt) -> (r: HashChain)
        ensures
            r@ == self@.push(felt@),
    {
        let mut elements = self.elements;
        let ghost before = elements@;
        elements.push(*felt);
        let r = HashChain { elements };
        assert(r@ =~= felt_views(before).push(felt@));
        r
    }

    /// The chain with the number of `felts` appended, then each of them in order.
    pub fn chain_size_and_elements(self, felts: &[Felt]) -> (r: HashChain)
        ensures
            r@ == self@.push(u128_be_bytes(felts@.len() as u128)) + felt_views(felts@),
    {
        let mut c = self.chain(&Felt::from_u128(felts.len() as u128));
        let ghost start = c@;
        let mut i: usize = 0;
        while i < felts.len()
            invariant
                i <= felts@.len(),
                c@ == start + felt_views(felts@).take(i as int),
            decreases felts@.len() - i,
        {
            c = c.chain(&felts[i]);
            assert(felt_views(felts@).take(i as int + 1) =~= felt_views(felts@).take(i as int).push(
                felts@[i as int]@,
            ));
            assert(start + felt_views(felts@).take(i as int + 1) =~= (start + felt_views(
                felts@,
            ).take(i as int)).push(felts@[i as int]@));
            i = i + 1;
        }
        assert(felt_views(felts@).take(i as int) =~= felt_views(felts@));
        c
    }

    /// The Poseidon digest of the accumulated elements.
    pub fn get_poseidon_hash(&self) -> (r: Felt)
        ensures
            r@ == poseidon_hash_of(self@),
            r.wf(),
    {
        poseidon_hash_many(&self.elements)
    }
}

} // verus!
