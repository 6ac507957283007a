use vstd::prelude::*;

verus! {

/// The order of the Goldilocks field, 2^64 - 2^32 + 1.
pub const GOLDILOCKS_ORDER: u64 = 0xFFFF_FFFF_0000_0001;

/// A field element is held as its canonical representative.
pub open spec fn is_canonical(x: u64) -> bool {
    x < GOLDILOCKS_ORDER
}

/// The canonical representative of `x` in the Goldilocks field.
pub fn canonical(x: u64) -> (r: u64)
    ensures
        r as int == x as int % GOLDILOCKS_ORDER as int,
        is_canonical(r),
{
    if x >= GOLDILOCKS_ORDER {
        x - GOLDILOCKS_ORDER
    } else {
        x
    }
}

/// Field subtraction on canonical representatives.
pub open spec fn sub_spec(a: u64, b: u64) -> int {
    (a as int - b as int + GOLDILOCKS_ORDER as int) % GOLDILOCKS_ORDER as int
}

/// Field subtraction, as the circuit's arithmetic gates compute it.
pub fn field_sub(a: u64, b: u64) -> (r: u64)
    requires
        is_canonical(a),
        is_canonical(b),
    ensures
        r as int == sub_spec(a, b),
        is_canonical(r),
{
    if a >= b {
        a - b
    } else {
        GOLDILOCKS_ORDER - (b - a)
    }
}

/// A difference of canonical elements vanishes exactly when they are equal.
pub proof fn lemma_sub_zero_iff_equal(a: u64, b: u64)
    requires
        is_canonical(a),
        is_canonical(b),
    ensures
        (sub_spec(a, b) == 0) <==> (a == b),
{
}

} // verus!
