//! Facts about lists with every occurrence of an element taken out, or with
//! an element appended.
use vstd::prelude::*;

verus! {

/// The predicate "differs from `x`".
pub open spec fn differs_from<A>(x: A) -> spec_fn(A) -> bool {
    |y: A| y != x
}

/// `s` with every occurrence of `x` taken out, order kept.
pub open spec fn without<A>(s: Seq<A>, x: A) -> Seq<A> {
    s.filter(differs_from(x))
}

/// Taking `x` out of a list keeps exactly the other elements, keeps a
/// duplicate-free list duplicate-free, and then shortens it by one exactly
/// when it held `x`.
pub proof fn lemma_without<A>(s: Seq<A>, x: A)
    ensures
        forall|y: A| #[trigger] without(s, x).contains(y) <==> (s.contains(y) && y != x),
        without(s, x).len() <= s.len(),
        s.no_duplicates() ==> without(s, x).no_duplicates(),
        s.no_duplicates() ==> without(s, x).len() == if s.contains(x) {
            s.len() - 1
        } else {
            s.len() as int
        },
    decreases s.len(),
{
    reveal(Seq::filter);
    if s.len() > 0 {
        let rest = s.drop_last();
        let last = s.last();
        lemma_without(rest, x);
        assert(s =~= rest.push(last));
        rest.lemma_filter_push(last, differs_from(x));
        assert forall|y: A| #[trigger] without(s, x).contains(y) <==> (s.contains(y) && y != x) by {
            if s.contains(y) && y != x {
                let k = choose|k: int| 0 <= k < s.len() && s[k] == y;
                if k < s.len() - 1 {
                    assert(rest[k] == y);
                }
            }
            if without(rest, x).contains(y) {
                assert(rest.contains(y));
                let k = choose|k: int| 0 <= k < rest.len() && rest[k] == y;
                assert(s[k] == y);
            }
        }
        if s.no_duplicates() {
            assert(rest.no_duplicates()) by {
                assert forall|a: int, b: int|
                    0 <= a < rest.len() && 0 <= b < rest.len() && a != b implies rest[a]
                    != rest[b] by {
                    assert(rest[a] == s[a] && rest[b] == s[b]);
                }
            }
            assert(!rest.contains(last)) by {
                if rest.contains(last) {
                    let k = choose|k: int| 0 <= k < rest.len() && rest[k] == last;
                    assert(s[k] == s[s.len() - 1]);
                }
            }
            if last == x {
                assert(s.contains(x));
            } else {
                assert(rest.contains(x) <==> s.contains(x)) by {
                    if s.contains(x) {
                        let k = choose|k: int| 0 <= k < s.len() && s[k] == x;
                        assert(k != s.len() - 1);
                        assert(rest[k] == x);
                    }
                    if rest.contains(x) {
                        let k = choose|k: int| 0 <= k < rest.len() && rest[k] == x;
                        assert(s[k] == x);
                    }
                }
                let w = without(rest, x);
                assert(!w.contains(last));
                assert forall|a: int, b: int|
                    0 <= a < w.push(last).len() && 0 <= b < w.push(last).len() && a
                        != b implies w.push(last)[a] != w.push(last)[b] by {
                    if a == w.len() {
                        assert(w.contains(w[b]));
                    } else if b == w.len() {
                        assert(w.contains(w[a]));
                    }
                }
            }
        }
    }
}

/// Appending an element that a list does not hold keeps it duplicate-free.
pub proof fn lemma_push_fresh<A>(s: Seq<A>, x: A)
    requires
        s.no_duplicates(),
        !s.contains(x),
    ensures
        s.push(x).no_duplicates(),
        forall|y: A| #[trigger] s.push(x).contains(y) <==> (s.contains(y) || y == x),
{
    let p = s.push(x);
    assert forall|a: int, b: int| 0 <= a < p.len() && 0 <= b < p.len() && a != b implies p[a]
        != p[b] by {
        if a == s.len() {
            assert(s.contains(p[b]));
        } else if b == s.len() {
            assert(s.contains(p[a]));
        }
    }
    assert forall|y: A| #[trigger] p.contains(y) <==> (s.contains(y) || y == x) by {
        if p.contains(y) && y != x {
            let k = choose|k: int| 0 <= k < p.len() && p[k] == y;
            assert(s[k] == y);
        }
        if s.contains(y) {
            let k = choose|k: int| 0 <= k < s.len() && s[k] == y;
            assert(p[k] == y);
        }
        if y == x {
            assert(p[s.len() as int] == y);
        }
    }
}

} // verus!
