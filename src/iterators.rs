//! Filtering shoes by size, and a counter that counts to five.
use vstd::prelude::*;

verus! {

/// A shoe of some size and style.
#[derive(Debug, PartialEq)]
pub struct Shoe {
    pub size: u32,
    pub style: String,
}

/// The shoes of size `shoe_size`, in their order.
pub fn shoes_in_my_size(shoes: Vec<Shoe>, shoe_size: u32) -> (r: Vec<Shoe>)
    ensures
        r@ == shoes@.filter(|s: Shoe| s.size == shoe_size),
{
    let ghost all = shoes@;
    let mut rest = shoes;
    let mut kept: Vec<Shoe> = Vec::new();
    let ghost mut i: int = 0;
    while rest.len() > 0
        invariant
            0 <= i <= all.len(),
            rest@ == all.subrange(i, all.len() as int),
            kept@ == all.subrange(0, i).filter(|s: Shoe| s.size == shoe_size),
        decreases rest@.len(),
    {
        let shoe = rest.remove(0);
        proof {
            assert(all.subrange(0, i + 1) =~= all.subrange(0, i).push(shoe));
            all.subrange(0, i).lemma_filter_push(shoe, |s: Shoe| s.size == shoe_size);
            i = i + 1;
        }
        if shoe.size == shoe_size {
            kept.push(shoe);
        }
        assert(rest@ =~= all.subrange(i, all.len() as int));
    }
    assert(all.subrange(0, i) =~= all);
    kept
}

/// Counts from 1 to 5, one step per call of `next`.
pub struct Counter {
    count: u32,
}

impl Counter {
    /// How far the counter has counted.
    pub closed spec fn spec_count(&self) -> u32 {
        self.count
    }

    /// A counter that has not counted yet.
    pub fn new() -> (r: Counter)
        ensures
            r.spec_count() == 0,
    {
        Counter { count: 0 }
    }

    /// The next number up to 5, then `None` for good.
    pub fn next(&mut self) -> (r: Option<u32>)
        ensures
            old(self).spec_count() < 5 ==> final(self).spec_count() == old(self).spec_count() + 1
                && r == Some(final(self).spec_count()),
            old(self).spec_count() >= 5 ==> final(self).spec_count() == old(self).spec_count()
                && r is None,
    {
        if self.count < 5 {
            self.count = self.count + 1;
            Some(self.count)
        } else {
            None
        }
    }
}

} // verus!
