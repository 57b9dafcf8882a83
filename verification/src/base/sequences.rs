//! Sequences that keep only their newest items.

use vstd::prelude::*;

verus! {

/// The last `max` items of `s`.
pub open spec fn newest<T>(s: Seq<T>, max: nat) -> Seq<T> {
    if s.len() > max {
        s.skip(s.len() - max)
    } else {
        s
    }
}

pub proof fn lemma_newest_push<T>(s: Seq<T>, max: nat, x: T)
    requires
        max > 0,
    ensures
        newest(newest(s, max).push(x), max) == newest(s.push(x), max),
{
    assert(newest(newest(s, max).push(x), max) =~= newest(s.push(x), max));
}

pub proof fn lemma_newest_concat<T>(s: Seq<T>, max: nat, a: Seq<T>, b: Seq<T>)
    ensures
        newest(newest(s + a, max) + b, max) == newest(s + (a + b), max),
{
    assert(newest(newest(s + a, max) + b, max) =~= newest(s + (a + b), max));
}

/// What a sequence holds once a value was pushed.
pub proof fn lemma_push_holds<T>(s: Seq<T>, x: T, y: T)
    ensures
        s.push(x).contains(y) <==> s.contains(y) || y == x,
{
    let p = s.push(x);
    if s.contains(y) {
        let i = choose|i: int| 0 <= i < s.len() && s[i] == y;
        assert(p[i] == y);
    }
    if y == x {
        assert(p[s.len() as int] == y);
    }
    if p.contains(y) {
        let i = choose|i: int| 0 <= i < p.len() && p[i] == y;
        if i < s.len() {
            assert(s[i] == y);
        }
    }
}

} // verus!
