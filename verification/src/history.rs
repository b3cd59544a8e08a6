//! Histories: what was said one by one is what was said in a row.
use vstd::prelude::*;

verus! {

/// Up to three things said one by one are the same things said in a row.
pub proof fn lemma_said<A>(s: Seq<A>, x: A, y: A, z: A)
    ensures
        s + seq![] == s,
        s + seq![x] == s.push(x),
        s + seq![x].push(y) == s.push(x).push(y),
        s + seq![x].push(y).push(z) == s.push(x).push(y).push(z),
        seq![x, y] == seq![x].push(y),
        seq![x, y, z] == seq![x].push(y).push(z),
{
    assert(s + seq![] =~= s);
    assert(s + seq![x] =~= s.push(x));
    assert(s + seq![x].push(y) =~= s.push(x).push(y));
    assert(s + seq![x].push(y).push(z) =~= s.push(x).push(y).push(z));
    assert(seq![x, y] =~= seq![x].push(y));
    assert(seq![x, y, z] =~= seq![x].push(y).push(z));
}

/// It does not matter how what was said is grouped.
pub proof fn lemma_grouped<A>(a: Seq<A>, b: Seq<A>, c: Seq<A>)
    ensures
        (a + b) + c == a + (b + c),
{
    assert((a + b) + c =~= a + (b + c));
}

/// A word said after others is said after what was said before them.
pub proof fn lemma_words<A>(s: Seq<A>)
    ensures
        s + seq![] == s,
        forall|x: A| #[trigger] (s + seq![x]) == s.push(x),
        forall|w: Seq<A>, x: A| #[trigger] (s + w.push(x)) == (s + w).push(x),
{
    assert(s + seq![] =~= s);
    assert forall|x: A| #[trigger] (s + seq![x]) == s.push(x) by {
        assert(s + seq![x] =~= s.push(x));
    }
    assert forall|w: Seq<A>, x: A| #[trigger] (s + w.push(x)) == (s + w).push(x) by {
        assert(s + w.push(x) =~= (s + w).push(x));
    }
}

} // verus!
