//! Constants that the bytecode loads into registers.

use crate::field::{canonical, FieldElement};
use vstd::prelude::*;

verus! {

/// A value of the machine: a field element.
#[derive(Clone, Debug, PartialEq, Eq)]
pub struct Value {
    inner: FieldElement,
}

impl View for Value {
    type V = Seq<u8>;

    closed spec fn view(&self) -> Seq<u8> {
        self.inner@
    }
}

/// Calls `Value::from(u128)` of acvm's `brillig_vm` and reads the result off
/// with `Value::to_field` and `FieldElement::to_be_bytes`. Believed of them:
/// the bytes are the 32-byte big-endian encoding of `a`.
#[verifier::external_body]
fn u128_value_bytes(a: u128) -> (bytes: Vec<u8>)
    ensures
        bytes@ == canonical(a as nat),
{
    acvm::acir::brillig_vm::Value::from(a).to_field().to_be_bytes()
}

/// Calls `Value::from(usize)` of acvm's `brillig_vm` and reads the result
/// off with `Value::to_field` and `FieldElement::to_be_bytes`. Believed of
/// them: the bytes are the 32-byte big-endian encoding of `a`.
#[verifier::external_body]
fn usize_value_bytes(a: usize) -> (bytes: Vec<u8>)
    ensures
        bytes@ == canonical(a as nat),
{
    acvm::acir::brillig_vm::Value::from(a).to_field().to_be_bytes()
}

impl Value {
    /// The value that holds `inner`.
    pub fn from_field(inner: FieldElement) -> (r: Self)
        ensures
            r@ == inner@,
    {
        Value { inner }
    }

    /// The field element that this value holds.
    pub fn to_field(&self) -> (inner: &FieldElement)
        ensures
            inner@ == self@,
    {
        &self.inner
    }

    /// The value `a`, in canonical encoding.
    pub fn from_u128(a: u128) -> (r: Self)
        ensures
            r@ == canonical(a as nat),
    {
        Value { inner: FieldElement::from_be_bytes(u128_value_bytes(a)) }
    }

    /// The value `a`, in canonical encoding.
    pub fn from_usize(a: usize) -> (r: Self)
        ensures
            r@ == canonical(a as nat),
    {
        Value { inner: FieldElement::from_be_bytes(usize_value_bytes(a)) }
    }
}

} // verus!
