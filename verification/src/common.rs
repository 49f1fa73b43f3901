//! Helpers shared by the contracts: addresses and percentage checks.

use vstd::prelude::*;
use crate::error::{ContractError, RatioField};
use crate::math::{Decimal, DECIMAL_FRACTIONAL};

verus! {

/// The empty canonical address, which stands for "not set".
pub fn default_addr() -> (r: Vec<u8>)
    ensures
        r@ == Seq::<u8>::empty(),
{
    Vec::new()
}

/// Byte-wise equality of two canonical addresses.
pub fn addr_eq(a: &Vec<u8>, b: &Vec<u8>) -> (r: bool)
    ensures
        r == (a@ == b@),
{
    if a.len() != b.len() {
        return false;
    }
    let mut i: usize = 0;
    while i < a.len()
        invariant
            a.len() == b.len(),
            0 <= i <= a.len(),
            forall|j: int| 0 <= j < i ==> a@[j] == b@[j],
        decreases a.len() - i,
    {
        if a[i] != b[i] {
            return false;
        }
        i += 1;
    }
    proof {
        assert(a@ =~= b@);
    }
    true
}

/// A copy of an address.
pub fn copy_addr(a: &Vec<u8>) -> (r: Vec<u8>)
    ensures
        r@ == a@,
{
    let mut r: Vec<u8> = Vec::new();
    let mut i: usize = 0;
    while i < a.len()
        invariant
            0 <= i <= a.len(),
            r@ == a@.take(i as int),
        decreases a.len() - i,
    {
        r.push(a[i]);
        i += 1;
        proof {
            assert(r@ =~= a@.take(i as int));
        }
    }
    proof {
        assert(a@.take(i as int) =~= a@);
    }
    r
}

/// A copy of a vector of plain values.
pub fn copy_vec<T: Copy>(v: &Vec<T>) -> (r: Vec<T>)
    ensures
        r@ == v@,
{
    let mut r: Vec<T> = Vec::new();
    let mut i: usize = 0;
    while i < v.len()
        invariant
            0 <= i <= v.len(),
            r@ == v@.take(i as int),
        decreases v.len() - i,
    {
        r.push(v[i]);
        i += 1;
        proof {
            assert(r@ =~= v@.take(i as int));
        }
    }
    proof {
        assert(v@.take(i as int) =~= v@);
    }
    r
}

/// Refuses a ratio above one, naming the setting it is for.
pub fn validate_percentage(value: Decimal, field: RatioField) -> (r: Result<(), ContractError>)
    ensures
        r == if value.atomics > DECIMAL_FRACTIONAL {
            Err::<(), ContractError>(ContractError::PercentageOutOfRange(field))
        } else {
            Ok(())
        },
{
    if value.atomics > DECIMAL_FRACTIONAL {
        Err(ContractError::PercentageOutOfRange(field))
    } else {
        Ok(())
    }
}

} // verus!
