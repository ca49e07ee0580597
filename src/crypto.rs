use vstd::prelude::*;

use crate::felt::{be_value, felt_values, field_prime, Felt};

verus! {

/// The Pedersen hash of an array of field elements, by their values.
pub uninterp spec fn pedersen_array_of(felts: Seq<nat>) -> nat;

/// The Poseidon hash of an array of field elements, by their values.
pub uninterp spec fn poseidon_array_of(felts: Seq<nat>) -> nat;

/// Relies on starknet_types_core's `Pedersen::hash_array`: the hash of the elements, which is
/// itself an element of the field.
#[verifier::external_body]
fn pedersen_hash_array(felts: &Vec<Felt>) -> (r: [u8; 32])
    ensures
        be_value(r@) == pedersen_array_of(felt_values(felts@)),
        be_value(r@) < field_prime(),
{
    let v: Vec<starknet_types_core::felt::Felt> = felts.iter().map(
        |f| starknet_types_core::felt::Felt::from_bytes_be(&f.to_be_bytes()),
    ).collect();
    <starknet_types_core::hash::Pedersen as starknet_types_core::hash::StarkHash>::hash_array(
        &v,
    ).to_bytes_be()
}

/// Relies on starknet_types_core's `Poseidon::hash_array`: the hash of the elements, which is
/// itself an element of the field.
#[verifier::external_body]
fn poseidon_hash_array(felts: &Vec<Felt>) -> (r: [u8; 32])
    ensures
        be_value(r@) == poseidon_array_of(felt_values(felts@)),
        be_value(r@) < field_prime(),
{
    let v: Vec<starknet_types_core::felt::Felt> = felts.iter().map(
        |f| starknet_types_core::felt::Felt::from_bytes_be(&f.to_be_bytes()),
    ).collect();
    <starknet_types_core::hash::Poseidon as starknet_types_core::hash::StarkHash>::hash_array(
        &v,
    ).to_bytes_be()
}

/// A public key.
#[derive(Clone, Copy, Debug, PartialEq, Eq)]
pub struct PublicKey(pub Felt);

/// A signature.
#[derive(Clone, Copy, Debug, PartialEq, Eq)]
pub struct Signature {
    pub r: Felt,
    pub s: Felt,
}

/// Field elements collected to be hashed as one chain.
pub struct HashChain {
    elements: Vec<Felt>,
}

impl View for HashChain {
    type V = Seq<Felt>;

    closed spec fn view(&self) -> Seq<Felt> {
        self.elements@
    }
}

impl HashChain {
    /// An empty chain.
    pub fn new() -> (r: HashChain)
        ensures
            r@ == Seq::<Felt>::empty(),
    {
        HashChain { elements: Vec::new() }
    }

    /// The chain with `felt` added at its end.
    pub fn chain(self, felt: &Felt) -> (r: HashChain)
        ensures
            r@ == self@.push(*felt),
    {
        let mut elements = self.elements;
        elements.push(*felt);
        HashChain { elements }
    }

    /// The chain with what `f` returns added at its end, if it returns an element.
    pub fn chain_if_fn<F: Fn() -> Option<Felt>>(self, f: F) -> (r: HashChain)
        requires
            f.requires(()),
        ensures
            exists|o: Option<Felt>|
                f.ensures((), o) && r@ == match o {
                    Some(x) => self@.push(x),
                    None => self@,
                },
    {
        let o = f();
        match o {
            Some(felt) => self.chain(&felt),
            None => self,
        }
    }

    /// The chain with the elements of `felts` added at its end, in order.
    pub fn chain_iter(self, felts: &[Felt]) -> (r: HashChain)
        ensures
            r@ == self@ + felts@,
    {
        let mut elements = self.elements;
        let ghost start = elements@;
        let mut i: usize = 0;
        while i < felts.len()
            invariant
                i <= felts@.len(),
                elements@ == start + felts@.take(i as int),
            decreases felts@.len() - i,
        {
            elements.push(felts[i]);
            proof {
                assert(felts@.take(i + 1) =~= felts@.take(i as int).push(felts@[i as int]));
                assert(start + felts@.take(i + 1) =~= (start + felts@.take(i as int)).push(
                    felts@[i as int],
                ));
            }
            i = i + 1;
        }
        proof {
            assert(felts@.take(i as int) =~= felts@);
        }
        HashChain { elements }
    }

    /// The chain with the number of `felts`, then the elements of `felts`, added at its end.
    pub fn chain_size_and_elements(self, felts: &[Felt]) -> (r: HashChain)
        ensures
            r@.len() == self@.len() + 1 + felts@.len(),
            r@[self@.len() as int]@ == felts@.len(),
            r@ == self@.push(r@[self@.len() as int]) + felts@,
    {
        let size = Felt::from_u128(felts.len() as u128);
        self.chain(&size).chain_iter(felts)
    }

    /// The chain with the elements of `chain` added at its end.
    pub fn extend(self, chain: HashChain) -> (r: HashChain)
        ensures
            r@ == self@ + chain@,
    {
        self.chain_iter(chain.elements.as_slice())
    }

    /// The Pedersen hash of the chained elements, which takes their number into account.
    pub fn get_pedersen_hash(&self) -> (r: Felt)
        ensures
            r@ == pedersen_array_of(felt_values(self@)),
    {
        Felt::from_canonical_bytes(pedersen_hash_array(&self.elements))
    }

    /// The Poseidon hash of the chained elements.
    pub fn get_poseidon_hash(&self) -> (r: Felt)
        ensures
            r@ == poseidon_array_of(felt_values(self@)),
    {
        Felt::from_canonical_bytes(poseidon_hash_array(&self.elements))
    }
}

} // verus!
