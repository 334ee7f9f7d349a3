//! Fixed-width values: addresses, 32-byte words and 256-bit integers.

use vstd::prelude::*;

verus! {

/// Whether every byte of `s` is zero.
pub open spec fn all_zero(s: Seq<u8>) -> bool {
    forall|i: int| 0 <= i < s.len() ==> s[i] == 0u8
}

/// Compares two byte arrays of the same length.
pub fn bytes_equal<const N: usize>(a: &[u8; N], b: &[u8; N]) -> (same: bool)
    ensures
        same == (a@ == b@),
{
    let mut i: usize = 0;
    while i < N
        invariant
            i <= N,
            forall|j: int| 0 <= j < i ==> a@[j] == b@[j],
        decreases N - i,
    {
        if a[i] != b[i] {
            return false;
        }
        i += 1;
    }
    assert(a@ =~= b@);
    true
}

/// Tells whether a byte array holds only zeros.
pub fn bytes_all_zero<const N: usize>(a: &[u8; N]) -> (zero: bool)
    ensures
        zero == all_zero(a@),
{
    let mut i: usize = 0;
    while i < N
        invariant
            i <= N,
            forall|j: int| 0 <= j < i ==> a@[j] == 0u8,
        decreases N - i,
    {
        if a[i] != 0 {
            return false;
        }
        i += 1;
    }
    true
}

/// A 20-byte account address. The address of all zeros is the null address.
#[derive(Clone, Copy, Debug, PartialEq, Eq)]
pub struct Address {
    pub bytes: [u8; 20],
}

impl View for Address {
    type V = Seq<u8>;

    open spec fn view(&self) -> Seq<u8> {
        self.bytes@
    }
}

impl Address {
    /// The null address.
    pub fn zero() -> (a: Address)
        ensures
            all_zero(a@),
            a@.len() == 20,
    {
        Address { bytes: [0u8; 20] }
    }

    /// Whether this is the null address.
    pub fn is_zero(&self) -> (zero: bool)
        ensures
            zero == all_zero(self@),
    {
        bytes_all_zero(&self.bytes)
    }

    /// Whether two addresses are the same.
    pub fn same(&self, other: &Address) -> (same: bool)
        ensures
            same == (self@ == other@),
    {
        bytes_equal(&self.bytes, &other.bytes)
    }
}

/// A 32-byte word: a hash, a digest, or a claim code.
#[derive(Clone, Copy, Debug, PartialEq, Eq)]
pub struct FixedBytes32 {
    pub bytes: [u8; 32],
}

impl View for FixedBytes32 {
    type V = Seq<u8>;

    open spec fn view(&self) -> Seq<u8> {
        self.bytes@
    }
}

impl FixedBytes32 {
    /// Whether two words are the same.
    pub fn same(&self, other: &FixedBytes32) -> (same: bool)
        ensures
            same == (self@ == other@),
    {
        bytes_equal(&self.bytes, &other.bytes)
    }
}

/// An unsigned 256-bit integer, held as its 32 big-endian bytes.
#[derive(Clone, Copy, Debug, PartialEq, Eq)]
pub struct U256 {
    pub bytes: [u8; 32],
}

impl View for U256 {
    type V = Seq<u8>;

    open spec fn view(&self) -> Seq<u8> {
        self.bytes@
    }
}

} // verus!
