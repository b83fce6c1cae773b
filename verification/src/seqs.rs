//! Facts about byte sequences that the codecs share.
use vstd::prelude::*;

verus! {

/// `tail` is what is left of `s` after some bytes were taken from its front.
pub open spec fn is_suffix_of(tail: Seq<u8>, s: Seq<u8>) -> bool {
    tail.len() <= s.len() && tail == s.skip(s.len() - tail.len())
}

pub proof fn lemma_suffix_refl(s: Seq<u8>)
    ensures
        is_suffix_of(s, s),
{
    assert(s.skip(0) =~= s);
}

pub proof fn lemma_suffix_skip(s: Seq<u8>, n: int)
    requires
        0 <= n <= s.len(),
    ensures
        is_suffix_of(s.skip(n), s),
{
}

pub proof fn lemma_suffix_trans(a: Seq<u8>, b: Seq<u8>, c: Seq<u8>)
    requires
        is_suffix_of(a, b),
        is_suffix_of(b, c),
    ensures
        is_suffix_of(a, c),
{
    assert(c.skip(c.len() - b.len()).skip(b.len() - a.len()) =~= c.skip(c.len() - a.len()));
}

/// Taking the front of a concatenation, when the cut falls inside the first part.
pub proof fn lemma_take_in_first(a: Seq<u8>, b: Seq<u8>, k: int)
    requires
        0 <= k <= a.len(),
    ensures
        (a + b).take(k) == a.take(k),
{
    assert((a + b).take(k) =~= a.take(k));
}

/// Taking the front of a concatenation, when the cut falls inside the second part.
pub proof fn lemma_take_in_second(a: Seq<u8>, b: Seq<u8>, k: int)
    requires
        a.len() <= k <= a.len() + b.len(),
    ensures
        (a + b).take(k) == a + b.take(k - a.len()),
{
    assert((a + b).take(k) =~= a + b.take(k - a.len()));
}

pub proof fn lemma_add_assoc(a: Seq<u8>, b: Seq<u8>, c: Seq<u8>)
    ensures
        (a + b) + c == a + (b + c),
{
    assert((a + b) + c =~= a + (b + c));
}

pub proof fn lemma_skip_added(a: Seq<u8>, b: Seq<u8>)
    ensures
        (a + b).skip(a.len() as int) == b,
        (a + b).take(a.len() as int) == a,
{
    assert((a + b).skip(a.len() as int) =~= b);
    assert((a + b).take(a.len() as int) =~= a);
}

} // verus!
