use vstd::prelude::*;
use crate::text::{decimal, push_decimal};

verus! {

/// The attestation counter shown to a user.
pub struct Podcount {
    pub count: usize,
}

impl Podcount {
    pub fn new(count: usize) -> (r: Podcount)
        ensures
            r.count == count,
    {
        Podcount { count }
    }

    /// The text displayed: the count in decimal, then " pods".
    pub fn label(&self) -> (r: String)
        ensures
            r@ == decimal(self.count as nat) + " pods"@,
    {
        let mut s = String::new();
        push_decimal(&mut s, self.count);
        s.append(" pods");
        proof {
            assert(Seq::<char>::empty() + decimal(self.count as nat) =~= decimal(self.count as nat));
        }
        s
    }
}

} // verus!
