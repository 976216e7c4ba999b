//! Field elements, held by their big-endian byte encoding.

use vstd::prelude::*;

verus! {

/// The order of the scalar field that constants live in.
pub open spec fn field_modulus() -> nat {
    21888242871839275222246405745257275088548364400416034343698204186575808495617nat
}

/// The number that a big-endian byte string denotes.
pub open spec fn be_nat(bytes: Seq<u8>) -> nat
    decreases bytes.len(),
{
    if bytes.len() == 0 {
        0
    } else {
        256 * be_nat(bytes.drop_last()) + bytes.last() as nat
    }
}

/// The big-endian encoding of `n` in `len` bytes; the digits above them are
/// cut off.
pub open spec fn be_encoding(n: nat, len: nat) -> Seq<u8>
    decreases len,
{
    if len == 0 {
        Seq::empty()
    } else {
        be_encoding(n / 256, (len - 1) as nat).push((n % 256) as u8)
    }
}

/// The length in bytes of a canonical encoding.
pub const FIELD_BYTES: usize = 32;

/// The canonical encoding of `n`, which is below the field order.
pub open spec fn canonical(n: nat) -> Seq<u8> {
    be_encoding(n, FIELD_BYTES as nat)
}

/// 256 to the power of `len`: the number of byte strings of that length.
pub open spec fn pow256(len: nat) -> nat
    decreases len,
{
    if len == 0 {
        1
    } else {
        256 * pow256((len - 1) as nat)
    }
}

/// The encoding of a number that fits into `len` bytes denotes that number.
pub proof fn lemma_be_nat_of_encoding(n: nat, len: nat)
    requires
        n < pow256(len),
    ensures
        be_encoding(n, len).len() == len,
        be_nat(be_encoding(n, len)) == n,
    decreases len,
{
    if len > 0 {
        let shorter = be_encoding(n / 256, (len - 1) as nat);
        lemma_be_nat_of_encoding(n / 256, (len - 1) as nat);
        assert(be_encoding(n, len).drop_last() =~= shorter);
    }
}

/// The canonical encoding of a number below 2 to the power of 128, which is
/// below the field order, denotes that number, also as a residue.
pub proof fn lemma_canonical_value(n: nat)
    requires
        n < 0x1_0000_0000_0000_0000_0000_0000_0000_0000,
    ensures
        canonical(n).len() == FIELD_BYTES,
        be_nat(canonical(n)) == n,
        be_nat(canonical(n)) % field_modulus() == n,
{
    assert(pow256(16) == 0x1_0000_0000_0000_0000_0000_0000_0000_0000) by {
        reveal_with_fuel(pow256, 17);
    }
    assert(pow256(32) >= pow256(16)) by {
        reveal_with_fuel(pow256, 17);
    }
    lemma_be_nat_of_encoding(n, FIELD_BYTES as nat);
}

/// An element of the scalar field, kept as a big-endian byte string. Any
/// byte string stands for the residue of its number modulo the field order.
#[derive(Clone, Debug, PartialEq, Eq)]
pub struct FieldElement {
    bytes: Vec<u8>,
}

impl View for FieldElement {
    type V = Seq<u8>;

    closed spec fn view(&self) -> Seq<u8> {
        self.bytes@
    }
}

/// Calls acvm's `FieldElement::one` and reads the result off with
/// `FieldElement::to_be_bytes`. Believed of them: the bytes are the 32-byte
/// big-endian encoding of 1.
#[verifier::external_body]
fn one_field_bytes() -> (bytes: Vec<u8>)
    ensures
        bytes@ == canonical(1),
{
    acvm::FieldElement::one().to_be_bytes()
}

/// Calls acvm's `FieldElement::is_one` on the element that
/// `FieldElement::from_be_bytes_reduce` reads from `bytes`. Believed of
/// them: the bytes are read big-endian and reduced modulo the field order,
/// and the answer is whether what is left is 1.
#[verifier::external_body]
fn field_bytes_is_one(bytes: &Vec<u8>) -> (b: bool)
    ensures
        b == (be_nat(bytes@) % field_modulus() == 1),
{
    acvm::FieldElement::from_be_bytes_reduce(bytes).is_one()
}

impl FieldElement {
    /// The residue that this element stands for.
    pub open spec fn value(&self) -> nat {
        be_nat(self@) % field_modulus()
    }

    /// The element that `bytes` denotes, read big-endian.
    pub fn from_be_bytes(bytes: Vec<u8>) -> (r: Self)
        ensures
            r@ == bytes@,
    {
        FieldElement { bytes }
    }

    /// The bytes that this element is kept as.
    pub fn to_be_bytes(&self) -> (bytes: &Vec<u8>)
        ensures
            bytes@ == self@,
    {
        &self.bytes
    }

    /// The unit of the field, in canonical encoding.
    pub fn one() -> (r: Self)
        ensures
            r@ == canonical(1),
            r.value() == 1,
    {
        proof {
            lemma_canonical_value(1);
        }
        FieldElement { bytes: one_field_bytes() }
    }

    /// Whether this element is the unit of the field.
    pub fn is_one(&self) -> (b: bool)
        ensures
            b == (self.value() == 1),
    {
        field_bytes_is_one(&self.bytes)
    }
}

} // verus!
