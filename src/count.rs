use vstd::prelude::*;

verus! {

/// How many times `x` occurs in `s`.
pub open spec fn count<A>(s: Seq<A>, x: A) -> nat
    decreases s.len(),
{
    if s.len() == 0 {
        0
    } else {
        count(s.drop_last(), x) + if s.last() == x { 1nat } else { 0nat }
    }
}

/// Counting distributes over concatenation.
pub proof fn lemma_count_concat<A>(a: Seq<A>, b: Seq<A>, x: A)
    ensures
        count(a + b, x) == count(a, x) + count(b, x),
    decreases b.len(),
{
    if b.len() == 0 {
        assert(a + b =~= a);
    } else {
        assert((a + b).drop_last() =~= a + b.drop_last());
        lemma_count_concat(a, b.drop_last(), x);
    }
}

/// Appending one element adds one occurrence of it and of nothing else.
pub proof fn lemma_count_push<A>(s: Seq<A>, y: A, x: A)
    ensures
        count(s.push(y), x) == count(s, x) + if y == x { 1nat } else { 0nat },
{
    assert(s.push(y).drop_last() =~= s);
}

} // verus!
