use vstd::prelude::*;

verus! {

/// `b` to the power `e`.
pub open spec fn power(b: nat, e: nat) -> nat
    decreases e,
{
    if e == 0 { 1 } else { b * power(b, (e - 1) as nat) }
}

/// The shape of a recursion tree whose nodes each fold up to `N` proofs of
/// the level below into one.
pub struct RecursionTree<const N: usize>;

impl<const N: usize> RecursionTree<N> {
    /// How many nodes the next level needs to fold `count` proofs: the
    /// smallest number of groups of at most `N`.
    pub fn next_level_count(count: usize) -> (r: usize)
        requires
            N >= 1,
        ensures
            r * N >= count,
            r == 0 || (r - 1) * N < count,
    {
        let q = count / N;
        let rem = count % N;
        proof {
            assert(count == q * N + rem) by (nonlinear_arith)
                requires q == count / N, rem == count % N, N >= 1;
        }
        if rem == 0 {
            proof {
                assert(q * N >= count);
                if q > 0 {
                    assert((q - 1) * N == q * N - N) by (nonlinear_arith);
                }
            }
            q
        } else {
            proof {
                assert((q + 1) * N == q * N + N) by (nonlinear_arith);
                assert(q <= q * N) by (nonlinear_arith)
                    requires N >= 1;
                assert(q * N < count);
            }
            q + 1
        }
    }

    /// How many levels of folding bring `count` proofs down to one: the
    /// smallest `d` with `N` to the `d` at least `count`.
    pub fn depth(count: usize) -> (r: usize)
        requires
            N >= 2,
            count >= 1,
        ensures
            power(N as nat, r as nat) >= count,
            r == 0 || power(N as nat, (r - 1) as nat) < count,
    {
        let mut d: usize = 0;
        let mut cap: usize = 1;
        while cap < count
            invariant
                N >= 2,
                cap as nat == power(N as nat, d as nat),
                d == 0 || power(N as nat, (d - 1) as nat) < count,
                d <= cap,
                cap >= 1,
            decreases count - d,
        {
            proof {
                assert(power(N as nat, (d + 1) as nat) == N * power(N as nat, d as nat));
                assert(N * cap == cap * N) by (nonlinear_arith);
            }
            if cap > usize::MAX / N {
                proof {
                    assert(cap * N > usize::MAX) by (nonlinear_arith)
                        requires cap > usize::MAX / N, N >= 2;
                }
                return d + 1;
            }
            proof {
                assert(cap * N >= cap + cap) by (nonlinear_arith)
                    requires N >= 2;
                assert(cap * N <= usize::MAX) by (nonlinear_arith)
                    requires cap <= usize::MAX / N, N >= 2;
            }
            cap = cap * N;
            d = d + 1;
        }
        d
    }
}

} // verus!
