//! Stable sorting by a group and a text.
use crate::text::{
    before, is_before, lemma_before_irreflexive, lemma_before_total, lemma_before_transitive,
};
use vstd::prelude::*;

verus! {

/// What is sorted by: first the group, then the text.
pub trait Keyed: Sized {
    /// The group: lower groups come first.
    spec fn group(&self) -> int;

    /// The text that orders the members of a group.
    spec fn key(&self) -> Seq<char>;
}

/// Whether `a` must stand before `b`.
pub open spec fn comes_first<V: Keyed>(a: V, b: V) -> bool {
    a.group() < b.group() || (a.group() == b.group() && before(a.key(), b.key()))
}

/// A type whose values can be sorted by the key of their views.
pub trait Ordered: Sized + View where <Self as View>::V: Keyed {
    /// Whether `self` must stand before `other`.
    fn precedes(&self, other: &Self) -> (r: bool)
        ensures
            r == comes_first(self@, other@),
    ;
}

impl Keyed for Seq<char> {
    open spec fn group(&self) -> int {
        0
    }

    open spec fn key(&self) -> Seq<char> {
        *self
    }
}

impl Ordered for String {
    fn precedes(&self, other: &Self) -> (r: bool) {
        is_before(self.as_str(), other.as_str())
    }
}

/// `x` put into `s` behind everything that need not stand behind it.
pub open spec fn placed<V: Keyed>(s: Seq<V>, x: V) -> Seq<V>
    decreases s.len(),
{
    if s.len() > 0 && comes_first(x, s.last()) {
        placed(s.drop_last(), x).push(s.last())
    } else {
        s.push(x)
    }
}

/// `s` sorted, with equals left in their order.
pub open spec fn sort_of<V: Keyed>(s: Seq<V>) -> Seq<V>
    decreases s.len(),
{
    if s.len() == 0 {
        s
    } else {
        placed(sort_of(s.drop_last()), s.last())
    }
}

/// The views of a sequence of values.
pub open spec fn all_views<T: View>(s: Seq<T>) -> Seq<<T as View>::V> {
    s.map_values(|x: T| x@)
}

/// Sort `v`, leaving equals in their order.
pub fn stable_sort<T: Ordered>(v: Vec<T>) -> (r: Vec<T>) where <T as View>::V: Keyed
    ensures
        all_views(r@) == sort_of(all_views(v@)),
        r@.len() == v@.len(),
{
    let mut rest = v;
    let mut out: Vec<T> = Vec::new();
    let ghost all = all_views(v@);
    let n: usize = rest.len();
    let mut done: usize = 0;
    proof {
        assert(all.take(0) =~= seq![]);
        assert(all_views(out@) =~= seq![]);
    }
    while done < n
        invariant
            all.len() == n,
            done <= n,
            rest@.len() == n - done,
            out@.len() == done,
            all_views(rest@) == all.skip(done as int),
            all_views(out@) == sort_of(all.take(done as int)),
        decreases n - done,
    {
        let ghost rest_before = rest@;
        let x = rest.remove(0);
        proof {
            assert(all_views(rest_before)[0] == x@);
            assert forall|i: int| 0 <= i < rest@.len() implies #[trigger] all_views(rest@)[i] == all.skip(
                done + 1,
            )[i] by {
                assert(rest@[i] == rest_before[i + 1]);
                assert(all_views(rest_before)[i + 1] == all.skip(done as int)[i + 1]);
            }
            assert(all_views(rest@) =~= all.skip(done + 1));
            assert(all.take(done + 1).drop_last() =~= all.take(done as int));
            assert(all.take(done + 1).last() == x@);
        }
        let ghost sorted = all_views(out@);
        let mut at: usize = out.len();
        proof {
            assert(sorted.take(at as int) =~= sorted);
            assert(placed(sorted, x@) =~= placed(sorted.take(at as int), x@) + sorted.skip(at as int));
        }
        while at > 0 && x.precedes(&out[at - 1])
            invariant
                at <= out@.len(),
                sorted == all_views(out@),
                placed(sorted, x@) == placed(sorted.take(at as int), x@) + sorted.skip(at as int),
            decreases at,
        {
            proof {
                assert(sorted.take(at as int).last() == sorted[at - 1]);
                assert(sorted.take(at as int).drop_last() =~= sorted.take(at - 1));
                assert(placed(sorted.take(at as int), x@) + sorted.skip(at as int) =~= placed(
                    sorted.take(at - 1),
                    x@,
                ) + sorted.skip(at - 1));
            }
            at = at - 1;
        }
        proof {
            if at > 0 {
                assert(sorted.take(at as int).last() == sorted[at - 1]);
            }
        }
        out.insert(at, x);
        proof {
            assert(all_views(out@) =~= sorted.take(at as int).push(x@) + sorted.skip(at as int));
        }
        done = done + 1;
    }
    proof {
        assert(all.take(done as int) =~= all);
    }
    out
}

// ─── Laws ──────────────────────────────────────────────────────────────

/// Whether nothing stands behind what it must stand before.
pub open spec fn in_order<V: Keyed>(s: Seq<V>) -> bool {
    forall|i: int, j: int| 0 <= i < j < s.len() ==> !comes_first(#[trigger] s[j], #[trigger] s[i])
}

/// The members of `s` with a given key, in their order.
pub open spec fn class<V: Keyed>(s: Seq<V>, group: int, key: Seq<char>) -> Seq<V> {
    s.filter(|x: V| x.group() == group && x.key() == key)
}

proof fn lemma_comes_first_transitive<V: Keyed>(a: V, b: V, c: V)
    requires
        comes_first(a, b),
        !comes_first(c, b),
    ensures
        comes_first(a, c),
{
    if a.group() == b.group() && b.group() == c.group() {
        lemma_before_total(b.key(), c.key());
        if before(b.key(), c.key()) {
            lemma_before_transitive(a.key(), b.key(), c.key());
        }
    }
}

proof fn lemma_comes_first_irreflexive<V: Keyed>(a: V, b: V)
    requires
        a.group() == b.group(),
        a.key() == b.key(),
    ensures
        !comes_first(a, b),
{
    lemma_before_irreflexive(a.key());
}

proof fn lemma_class_push<V: Keyed>(s: Seq<V>, x: V, group: int, key: Seq<char>)
    ensures
        class(s.push(x), group, key) == if x.group() == group && x.key() == key {
            class(s, group, key).push(x)
        } else {
            class(s, group, key)
        },
{
    reveal(Seq::filter);
    assert(s.push(x).drop_last() =~= s);
}

proof fn lemma_placed<V: Keyed>(s: Seq<V>, x: V)
    requires
        in_order(s),
    ensures
        in_order(placed(s, x)),
        placed(s, x).len() == s.len() + 1,
        forall|y: V| #[trigger] placed(s, x).contains(y) ==> s.contains(y) || y == x,
        forall|group: int, key: Seq<char>| #[trigger]
            class(placed(s, x), group, key) == class(s.push(x), group, key),
    decreases s.len(),
{
    if s.len() > 0 && comes_first(x, s.last()) {
        let t = s.drop_last();
        let last = s.last();
        lemma_placed(t, x);
        let p = placed(t, x);
        assert forall|i: int, j: int| 0 <= i < j < p.push(last).len() implies !comes_first(
            #[trigger] p.push(last)[j],
            #[trigger] p.push(last)[i],
        ) by {
            if j == p.len() {
                let y = p[i];
                assert(p.contains(y));
                if comes_first(last, y) {
                    if y == x {
                        if x.group() == last.group() {
                            lemma_before_transitive(x.key(), last.key(), x.key());
                            lemma_before_irreflexive(x.key());
                        }
                    } else {
                        let k = choose|k: int| 0 <= k < t.len() && t[k] == y;
                        assert(s[k] == y && s[s.len() - 1] == last);
                    }
                }
            }
        }
        assert forall|y: V| #[trigger] placed(s, x).contains(y) implies s.contains(y) || y == x by {
            let k = choose|k: int| 0 <= k < placed(s, x).len() && placed(s, x)[k] == y;
            if k < p.len() {
                assert(p.contains(y));
                if y != x {
                    let m = choose|m: int| 0 <= m < t.len() && t[m] == y;
                    assert(s[m] == y);
                }
            } else {
                assert(s[s.len() - 1] == y);
            }
        }
        assert forall|group: int, key: Seq<char>| #[trigger]
            class(placed(s, x), group, key) == class(s.push(x), group, key) by {
            lemma_class_push(p, last, group, key);
            lemma_class_push(t, x, group, key);
            lemma_class_push(s, x, group, key);
            lemma_class_push(t, last, group, key);
            assert(t.push(last) =~= s);
            assert(class(p, group, key) == class(t.push(x), group, key));
            if x.group() == last.group() && x.key() == last.key() {
                lemma_comes_first_irreflexive(x, last);
            }
        }
    } else {
        let p = s.push(x);
        assert forall|i: int, j: int| 0 <= i < j < p.len() implies !comes_first(
            #[trigger] p[j],
            #[trigger] p[i],
        ) by {
            if j == s.len() {
                if comes_first(x, s[i]) {
                    if i < s.len() - 1 {
                        assert(!comes_first(s[s.len() - 1], s[i]));
                        lemma_comes_first_transitive(x, s[i], s.last());
                    }
                }
            }
        }
        assert forall|y: V| #[trigger] placed(s, x).contains(y) implies s.contains(y) || y == x by {
            let k = choose|k: int| 0 <= k < p.len() && p[k] == y;
            if k < s.len() {
                assert(s[k] == y);
            }
        }
    }
}

/// Sorting puts everything in order, and keeps the members with the same key
/// as they were: none is lost, added or moved past another.
pub proof fn law_sort_is_stable<V: Keyed>(s: Seq<V>)
    ensures
        in_order(sort_of(s)),
        sort_of(s).len() == s.len(),
        forall|group: int, key: Seq<char>| #[trigger]
            class(sort_of(s), group, key) == class(s, group, key),
    decreases s.len(),
{
    if s.len() > 0 {
        let t = s.drop_last();
        let x = s.last();
        law_sort_is_stable(t);
        lemma_placed(sort_of(t), x);
        assert forall|group: int, key: Seq<char>| #[trigger]
            class(sort_of(s), group, key) == class(s, group, key) by {
            lemma_class_push(sort_of(t), x, group, key);
            lemma_class_push(t, x, group, key);
            assert(t.push(x) =~= s);
            assert(class(sort_of(t), group, key) == class(t, group, key));
            assert(class(placed(sort_of(t), x), group, key) == class(
                sort_of(t).push(x),
                group,
                key,
            ));
        }
    }
}

/// What stands in a sorted sequence stood in the sequence.
pub proof fn lemma_sort_contains<V: Keyed>(s: Seq<V>, y: V)
    requires
        sort_of(s).contains(y),
    ensures
        s.contains(y),
    decreases s.len(),
{
    if s.len() > 0 {
        let t = s.drop_last();
        law_sort_is_stable(t);
        lemma_placed(sort_of(t), s.last());
        if y == s.last() {
            assert(s[s.len() - 1] == y);
        } else {
            lemma_sort_contains(t, y);
            let k = choose|k: int| 0 <= k < t.len() && t[k] == y;
            assert(s[k] == y);
        }
    }
}

/// In what was sorted, lower groups come first, and within a group texts come in
/// the order of their code points. Nothing is added or lost.
pub proof fn law_sorted_from_low_to_high<V: Keyed>(s: Seq<V>, i: int, j: int)
    requires
        0 <= i < j < s.len(),
    ensures
        sort_of(s).len() == s.len(),
        sort_of(s)[i].group() <= sort_of(s)[j].group(),
        sort_of(s)[i].group() == sort_of(s)[j].group() ==> sort_of(s)[i].key() == sort_of(
            s,
        )[j].key() || before(sort_of(s)[i].key(), sort_of(s)[j].key()),
{
    law_sort_is_stable(s);
    let t = sort_of(s);
    assert(!comes_first(t[j], t[i]));
    lemma_before_total(t[i].key(), t[j].key());
}

} // verus!
