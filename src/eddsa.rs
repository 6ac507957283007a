use vstd::prelude::*;

verus! {

/// The 32-bit limbs of a sequence of 64-bit words, least significant first:
/// each word gives its low half, then its high half.
pub open spec fn limbs_of(words: Seq<u64>) -> Seq<u32>
    decreases words.len(),
{
    if words.len() == 0 {
        Seq::empty()
    } else {
        limbs_of(words.drop_last()).push((words.last() % 0x1_0000_0000) as u32).push(
            (words.last() / 0x1_0000_0000) as u32,
        )
    }
}

/// Splits 64-bit words into the 32-bit limbs of a big-integer target.
pub fn u64_to_u32(words: &Vec<u64>) -> (r: Vec<u32>)
    requires
        words@.len() <= usize::MAX / 2,
    ensures
        r@ == limbs_of(words@),
        r@.len() == 2 * words@.len(),
{
    let mut r: Vec<u32> = Vec::new();
    let mut i: usize = 0;
    while i < words.len()
        invariant
            i <= words@.len(),
            r@ == limbs_of(words@.take(i as int)),
            r@.len() == 2 * i,
        decreases words@.len() - i,
    {
        let w = words[i];
        r.push((w % 0x1_0000_0000) as u32);
        r.push((w / 0x1_0000_0000) as u32);
        proof {
            assert(words@.take(i as int + 1).drop_last() =~= words@.take(i as int));
        }
        i = i + 1;
    }
    proof {
        assert(words@.take(i as int) =~= words@);
    }
    r
}

/// A point of the twisted Edwards curve, each coordinate as 32-bit limbs.
pub struct JubjubPoint {
    pub x: Vec<u32>,
    pub y: Vec<u32>,
}

/// The hashed message that a signature covers.
pub struct MessageHashTarget {
    pub m: Vec<u32>,
}

/// The Poseidon digest that enters the verification equation.
pub struct PoseidonOutputTarget {
    pub h: Vec<u32>,
}

/// A signature: the commitment point `r` and the scalar `s`.
pub struct EddsaSignatureTarget {
    pub r: JubjubPoint,
    pub s: Vec<u32>,
}

/// A public key: the curve point `a`.
pub struct EddsaPublicKeyTarget {
    pub a: JubjubPoint,
}

} // verus!
