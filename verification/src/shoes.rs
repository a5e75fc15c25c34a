//! Filtering a collection of shoes by size, keeping the original order.

use vstd::prelude::*;

verus! {

/// A shoe with a size and a style name.
#[derive(Debug, PartialEq)]
pub struct Shoe {
    pub size: u32,
    pub style: String,
}

/// Keep exactly the shoes of the given size, in their original order.
pub fn shoes_in_my_size(shoes: Vec<Shoe>, shoe_size: u32) -> (in_my_size: Vec<Shoe>)
    ensures
        in_my_size@ == shoes@.filter(|s: Shoe| s.size == shoe_size),
{
    let ghost orig = shoes@;
    let mut remaining = shoes;
    let mut in_my_size: Vec<Shoe> = Vec::new();
    let ghost mut seen: Seq<Shoe> = Seq::empty();
    proof {
        assert(seen + remaining@ =~= orig);
        assert(seen.filter(|s: Shoe| s.size == shoe_size) =~= in_my_size@);
    }
    while remaining.len() > 0
        invariant
            orig == seen + remaining@,
            in_my_size@ == seen.filter(|s: Shoe| s.size == shoe_size),
        decreases remaining@.len(),
    {
        let shoe = remaining.remove(0);
        let ghost prev_seen = seen;
        proof {
            seen = seen.push(shoe);
        }
        if shoe.size == shoe_size {
            in_my_size.push(shoe);
        }
        proof {
            prev_seen.lemma_filter_push(shoe, |s: Shoe| s.size == shoe_size);
            assert(seen + remaining@ =~= orig);
        }
    }
    proof {
        assert(seen =~= orig);
    }
    in_my_size
}

} // verus!
