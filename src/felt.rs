use vstd::prelude::*;

verus! {

/// The number that a big-endian byte string denotes.
pub open spec fn be_value(b: Seq<u8>) -> nat
    decreases b.len(),
{
    if b.len() == 0 {
        0
    } else {
        be_value(b.drop_last()) * 256 + b.last() as nat
    }
}

/// The modulus of the Stark field, 2^251 + 17 * 2^192 + 1.
pub open spec fn field_prime() -> nat {
    3618502788666131213697322783095070105623107215331596699973092056135872020481nat
}

/// Two byte strings of one length with one value are equal.
pub proof fn lemma_be_value_injective(a: Seq<u8>, b: Seq<u8>)
    requires
        a.len() == b.len(),
        be_value(a) == be_value(b),
    ensures
        a == b,
    decreases a.len(),
{
    if a.len() > 0 {
        let (x, y) = (be_value(a.drop_last()), be_value(b.drop_last()));
        let (p, q) = (a.last() as nat, b.last() as nat);
        assert(x * 256 + p == y * 256 + q);
        assert(x == y && p == q) by (nonlinear_arith)
            requires
                x * 256 + p == y * 256 + q,
                p < 256,
                q < 256,
        ;
        lemma_be_value_injective(a.drop_last(), b.drop_last());
        assert(a =~= a.drop_last().push(a.last()));
        assert(b =~= b.drop_last().push(b.last()));
    }
}

/// The values of a sequence of field elements.
pub open spec fn felt_values(d: Seq<Felt>) -> Seq<nat> {
    Seq::new(d.len(), |i: int| d[i]@)
}

/// An element of the Stark field, held as the 32 big-endian bytes of its canonical value.
#[derive(Clone, Copy, Debug, Hash)]
pub struct Felt {
    bytes: [u8; 32],
}

impl View for Felt {
    type V = nat;

    closed spec fn view(&self) -> nat {
        be_value(self.bytes@)
    }
}

impl Felt {
    #[verifier::type_invariant]
    closed spec fn inv(self) -> bool {
        be_value(self.bytes@) < field_prime()
    }

    /// The element whose canonical big-endian bytes are `bytes`.
    pub(crate) fn from_canonical_bytes(bytes: [u8; 32]) -> (r: Felt)
        requires
            be_value(bytes@) < field_prime(),
        ensures
            r@ == be_value(bytes@),
    {
        Felt { bytes }
    }

    /// The element whose value is `n`.
    pub fn from_u128(n: u128) -> (r: Felt)
        ensures
            r@ == n as nat,
    {
        let bytes = felt_bytes_from_u128(n);
        Felt { bytes }
    }

    /// The element of the field that the big-endian number `b` denotes, reduced modulo the prime.
    pub fn from_be_bytes(b: &[u8]) -> (r: Felt)
        ensures
            r@ == be_value(b@) % field_prime(),
    {
        Felt { bytes: felt_bytes_from_be_slice(b) }
    }

    /// The 32 big-endian bytes of the value, as a vector.
    pub fn to_be_vec(&self) -> (r: Vec<u8>)
        ensures
            be_value(r@) == self@,
            r@.len() == 32,
    {
        let bytes = self.bytes;
        let mut r: Vec<u8> = Vec::new();
        let mut i: usize = 0;
        while i < 32
            invariant
                i <= 32,
                bytes@.len() == 32,
                r@ == bytes@.take(i as int),
            decreases 32 - i,
        {
            r.push(bytes[i]);
            proof {
                assert(bytes@.take(i + 1) =~= bytes@.take(i as int).push(bytes@[i as int]));
            }
            i = i + 1;
        }
        proof {
            assert(bytes@.take(32) =~= bytes@);
        }
        r
    }

    /// The 32 big-endian bytes of the value.
    pub fn to_be_bytes(&self) -> (r: [u8; 32])
        ensures
            be_value(r@) == self@,
    {
        self.bytes
    }
}

impl PartialEq for Felt {
    fn eq(&self, o: &Felt) -> (r: bool) {
        let mut i: usize = 0;
        while i < 32
            invariant
                i <= 32,
                self.bytes@.subrange(0, i as int) == o.bytes@.subrange(0, i as int),
            decreases 32 - i,
        {
            if self.bytes[i] != o.bytes[i] {
                proof {
                    if be_value(self.bytes@) == be_value(o.bytes@) {
                        lemma_be_value_injective(self.bytes@, o.bytes@);
                    }
                }
                return false;
            }
            proof {
                assert(self.bytes@.subrange(0, i + 1) =~= self.bytes@.subrange(0, i as int).push(
                    self.bytes@[i as int],
                ));
                assert(o.bytes@.subrange(0, i + 1) =~= o.bytes@.subrange(0, i as int).push(
                    o.bytes@[i as int],
                ));
            }
            i = i + 1;
        }
        proof {
            assert(self.bytes@ =~= self.bytes@.subrange(0, 32));
            assert(o.bytes@ =~= o.bytes@.subrange(0, 32));
        }
        true
    }
}

impl vstd::std_specs::cmp::PartialEqSpecImpl for Felt {
    open spec fn obeys_eq_spec() -> bool {
        true
    }

    open spec fn eq_spec(&self, o: &Felt) -> bool {
        self@ == o@
    }
}

impl Eq for Felt {
}

/// Relies on starknet_types_core's `Felt::from(u128)` and `Felt::to_bytes_be`: the element
/// whose value is `n`, as its canonical 32 big-endian bytes.
#[verifier::external_body]
fn felt_bytes_from_u128(n: u128) -> (r: [u8; 32])
    ensures
        be_value(r@) == n as nat,
{
    starknet_types_core::felt::Felt::from(n).to_bytes_be()
}

/// Relies on starknet_types_core's `Felt::from_bytes_be_slice` and `Felt::to_bytes_be`: the
/// bytes are read as one big-endian number, which is reduced modulo the prime.
#[verifier::external_body]
fn felt_bytes_from_be_slice(b: &[u8]) -> (r: [u8; 32])
    ensures
        be_value(r@) == be_value(b@) % field_prime(),
{
    starknet_types_core::felt::Felt::from_bytes_be_slice(b).to_bytes_be()
}

} // verus!
