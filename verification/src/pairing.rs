//! Which workspaces may message each other.
//!
//! Before an agent in one workspace may message an agent in another, the user
//! must explicitly connect the two. Pairings are undirected: connecting `a`
//! with `b` is connecting `b` with `a`.
use crate::paths::{join_path, path_join};
use crate::text::{
    before, is_before, lemma_before_irreflexive, lemma_before_total, lemma_before_transitive, same,
};
use vstd::prelude::*;
use vstd::string::*;

verus! {

/// A pair of agent ids, the lower one first.
pub type PairView = (Seq<char>, Seq<char>);

/// The two ids with the lower one first.
pub open spec fn ordered_pair(a: Seq<char>, b: Seq<char>) -> PairView {
    if before(a, b) {
        (a, b)
    } else {
        (b, a)
    }
}

/// Whether two different agents are connected.
pub open spec fn linked(pairs: Set<PairView>, a: Seq<char>, b: Seq<char>) -> bool {
    a != b && pairs.contains(ordered_pair(a, b))
}

/// Whether each string comes before those behind it.
pub open spec fn ascending(s: Seq<Seq<char>>) -> bool {
    forall|i: int, j: int| 0 <= i < j < s.len() ==> before(#[trigger] s[i], #[trigger] s[j])
}

/// Whether `s` lists exactly the agents connected with `agent`, in ascending
/// order.
pub open spec fn lists_peers(s: Seq<Seq<char>>, pairs: Set<PairView>, agent: Seq<char>) -> bool {
    ascending(s) && forall|p: Seq<char>| #[trigger] s.contains(p) <==> linked(pairs, agent, p)
}

/// The agents connected with `agent`, in ascending order.
pub open spec fn peers_of(pairs: Set<PairView>, agent: Seq<char>) -> Seq<Seq<char>> {
    choose|s: Seq<Seq<char>>| lists_peers(s, pairs, agent)
}

/// The order of pairs: by the lower id, then by the higher one.
pub open spec fn pair_before(p: PairView, q: PairView) -> bool {
    before(p.0, q.0) || (p.0 == q.0 && before(p.1, q.1))
}

/// Whether `s` lists exactly the given pairs, each once, in ascending order.
pub open spec fn lists_pairs(s: Seq<PairView>, pairs: Set<PairView>) -> bool {
    s.to_set() == pairs && forall|i: int, j: int|
        0 <= i < j < s.len() ==> pair_before(#[trigger] s[i], #[trigger] s[j])
}

/// The pairs, each once, in ascending order.
pub open spec fn pairs_of(pairs: Set<PairView>) -> Seq<PairView> {
    choose|s: Seq<PairView>| lists_pairs(s, pairs)
}

/// The pairs of a list.
pub open spec fn pair_views(v: Seq<(String, String)>) -> Seq<PairView> {
    v.map_values(|p: (String, String)| (p.0@, p.1@))
}

/// The pairs that a list of two ids each connects: those of an agent with
/// itself do not count.
pub open spec fn connected_by(v: Seq<PairView>) -> Set<PairView>
    decreases v.len(),
{
    if v.len() == 0 {
        Set::empty()
    } else {
        let rest = connected_by(v.drop_last());
        if v.last().0 == v.last().1 {
            rest
        } else {
            rest.insert(ordered_pair(v.last().0, v.last().1))
        }
    }
}

/// The set of undirected pairings.
pub struct PairingStore {
    /// In ascending order, without duplicates, the lower id first in each.
    pairs: Vec<(String, String)>,
}

impl View for PairingStore {
    type V = Set<PairView>;

    closed spec fn view(&self) -> Set<PairView> {
        pair_views(self.pairs@).to_set()
    }
}

proof fn lemma_pair_before_transitive(p: PairView, q: PairView, r: PairView)
    requires
        pair_before(p, q),
        pair_before(q, r),
    ensures
        pair_before(p, r),
{
    if before(p.0, q.0) && before(q.0, r.0) {
        lemma_before_transitive(p.0, q.0, r.0);
    }
    if p.0 == q.0 && q.0 == r.0 {
        lemma_before_irreflexive(p.0);
        lemma_before_transitive(p.1, q.1, r.1);
    }
}

proof fn lemma_pair_before_total(p: PairView, q: PairView)
    ensures
        pair_before(p, q) || pair_before(q, p) || p == q,
{
    lemma_before_total(p.0, q.0);
    lemma_before_total(p.1, q.1);
}

proof fn lemma_pair_before_irreflexive(p: PairView)
    ensures
        !pair_before(p, p),
{
    lemma_before_irreflexive(p.0);
    lemma_before_irreflexive(p.1);
}

/// Whether each item comes before those behind it.
spec fn increasing<T>(s: Seq<T>, less: spec_fn(T, T) -> bool) -> bool {
    forall|i: int, j: int| 0 <= i < j < s.len() ==> less(#[trigger] s[i], #[trigger] s[j])
}

/// Two increasing lists with the same members are the same list.
proof fn lemma_increasing_unique<T>(s: Seq<T>, t: Seq<T>, less: spec_fn(T, T) -> bool)
    requires
        forall|a: T| !#[trigger] less(a, a),
        forall|a: T, b: T, c: T| #[trigger] less(a, b) && #[trigger] less(b, c) ==> less(a, c),
        increasing(s, less),
        increasing(t, less),
        forall|p: T| s.contains(p) <==> t.contains(p),
    ensures
        s == t,
    decreases s.len(),
{
    if s.len() == 0 {
        if t.len() > 0 {
            assert(t.contains(t[0]));
            assert(s.contains(t[0]));
        }
        assert(s =~= t);
    } else {
        assert(s.contains(s[0]));
        assert(t.contains(s[0]));
        let k = choose|k: int| 0 <= k < t.len() && t[k] == s[0];
        assert(t.contains(t[0]));
        assert(s.contains(t[0]));
        let m = choose|m: int| 0 <= m < s.len() && s[m] == t[0];
        if k > 0 {
            assert(less(t[0], t[k]));
            if m > 0 {
                assert(less(s[0], s[m]));
            }
            assert(!less(s[0], s[0]));
        }
        assert(s[0] == t[0]);
        let s1 = s.drop_first();
        let t1 = t.drop_first();
        assert forall|i: int, j: int| 0 <= i < j < s1.len() implies less(
            #[trigger] s1[i],
            #[trigger] s1[j],
        ) by {
            assert(less(s[i + 1], s[j + 1]));
        }
        assert forall|i: int, j: int| 0 <= i < j < t1.len() implies less(
            #[trigger] t1[i],
            #[trigger] t1[j],
        ) by {
            assert(less(t[i + 1], t[j + 1]));
        }
        assert(!less(s[0], s[0]));
        assert forall|p: T| s1.contains(p) <==> t1.contains(p) by {
            if s1.contains(p) {
                let i = choose|i: int| 0 <= i < s1.len() && s1[i] == p;
                assert(s[i + 1] == p);
                assert(less(s[0], s[i + 1]));
                assert(s.contains(p));
                assert(t.contains(p));
                let j = choose|j: int| 0 <= j < t.len() && t[j] == p;
                assert(j > 0);
                assert(t1[j - 1] == p);
            }
            if t1.contains(p) {
                let i = choose|i: int| 0 <= i < t1.len() && t1[i] == p;
                assert(t[i + 1] == p);
                assert(less(t[0], t[i + 1]));
                assert(t.contains(p));
                assert(s.contains(p));
                let j = choose|j: int| 0 <= j < s.len() && s[j] == p;
                assert(j > 0);
                assert(s1[j - 1] == p);
            }
        }
        lemma_increasing_unique(s1, t1, less);
        assert(s =~= seq![s[0]] + s1);
        assert(t =~= seq![t[0]] + t1);
    }
}

/// A list of the peers is the list of the peers.
pub proof fn lemma_peers_unique(s: Seq<Seq<char>>, pairs: Set<PairView>, agent: Seq<char>)
    requires
        lists_peers(s, pairs, agent),
    ensures
        s == peers_of(pairs, agent),
{
    let t = peers_of(pairs, agent);
    assert(lists_peers(t, pairs, agent));
    assert forall|p: Seq<char>| s.contains(p) <==> t.contains(p) by {}
    let less = |a: Seq<char>, b: Seq<char>| before(a, b);
    assert forall|a: Seq<char>| !#[trigger] less(a, a) by {
        lemma_before_irreflexive(a);
    }
    assert forall|a: Seq<char>, b: Seq<char>, c: Seq<char>| #[trigger]
        less(a, b) && #[trigger] less(b, c) implies less(a, c) by {
        lemma_before_transitive(a, b, c);
    }
    lemma_increasing_unique(s, t, less);
}

/// A list of the pairings is the list of the pairings.
proof fn lemma_pairs_unique(s: Seq<PairView>, pairs: Set<PairView>)
    requires
        lists_pairs(s, pairs),
    ensures
        s == pairs_of(pairs),
{
    let t = pairs_of(pairs);
    assert(lists_pairs(t, pairs));
    assert forall|p: PairView| s.contains(p) <==> t.contains(p) by {
        assert(s.to_set().contains(p) == t.to_set().contains(p));
    }
    let less = |a: PairView, b: PairView| pair_before(a, b);
    assert forall|a: PairView| !#[trigger] less(a, a) by {
        lemma_pair_before_irreflexive(a);
    }
    assert forall|a: PairView, b: PairView, c: PairView| #[trigger]
        less(a, b) && #[trigger] less(b, c) implies less(a, c) by {
        lemma_pair_before_transitive(a, b, c);
    }
    lemma_increasing_unique(s, t, less);
}

/// Order a pair canonically, rejecting self-pairs.
pub fn normalize(a: &str, b: &str) -> (r: Option<(String, String)>)
    ensures
        a@ == b@ ==> r is None,
        a@ != b@ ==> r is Some && ((r->0).0@, (r->0).1@) == ordered_pair(a@, b@) && before(
            (r->0).0@,
            (r->0).1@,
        ),
{
    proof {
        lemma_before_total(a@, b@);
        lemma_before_irreflexive(a@);
    }
    if is_before(a, b) {
        Some((a.to_owned(), b.to_owned()))
    } else if is_before(b, a) {
        Some((b.to_owned(), a.to_owned()))
    } else {
        None
    }
}

impl PairingStore {
    #[verifier::type_invariant]
    spec fn inv(self) -> bool {
        let s = pair_views(self.pairs@);
        &&& forall|i: int| 0 <= i < s.len() ==> before((#[trigger] s[i]).0, s[i].1)
        &&& forall|i: int, j: int|
            0 <= i < j < s.len() ==> pair_before(#[trigger] s[i], #[trigger] s[j])
    }

    /// No pairings.
    pub fn new() -> (r: PairingStore)
        ensures
            r@ == Set::<PairView>::empty(),
    {
        let r = PairingStore { pairs: Vec::new() };
        proof {
            assert(r@ =~= Set::empty());
        }
        r
    }

    /// Where the pairings are kept, below the user's configuration directory.
    pub fn config_path(config_dir: Option<String>) -> (r: Option<String>)
        ensures
            match config_dir {
                None => r is None,
                Some(d) => r is Some && r->0@ == path_join(
                    path_join(d@, "fleet-commander"@),
                    "pairings.yaml"@,
                ),
            },
    {
        match config_dir {
            None => None,
            Some(d) => {
                let app = join_path(d.as_str(), "fleet-commander");
                Some(join_path(app.as_str(), "pairings.yaml"))
            },
        }
    }

    /// The index of a pair, or where it belongs.
    fn locate(&self, p: &(String, String)) -> (r: (usize, bool))
        ensures
            r.0 <= self.pairs@.len(),
            r.1 == self@.contains((p.0@, p.1@)),
            r.1 ==> r.0 < self.pairs@.len() && pair_views(self.pairs@)[r.0 as int] == (p.0@, p.1@),
            !r.1 ==> forall|i: int|
                0 <= i < r.0 ==> pair_before(#[trigger] pair_views(self.pairs@)[i], (p.0@, p.1@)),
            !r.1 ==> forall|i: int|
                r.0 <= i < self.pairs@.len() ==> pair_before(
                    (p.0@, p.1@),
                    #[trigger] pair_views(self.pairs@)[i],
                ),
    {
        proof {
            use_type_invariant(self);
        }
        let ghost s = pair_views(self.pairs@);
        let ghost q = (p.0@, p.1@);
        let mut i: usize = 0;
        while i < self.pairs.len()
            invariant
                s == pair_views(self.pairs@),
                q == (p.0@, p.1@),
                i <= self.pairs@.len(),
                forall|j: int, k: int|
                    0 <= j < k < s.len() ==> pair_before(#[trigger] s[j], #[trigger] s[k]),
                forall|j: int| 0 <= j < i ==> pair_before(#[trigger] s[j], q),
            decreases self.pairs@.len() - i,
        {
            let low_same = same(self.pairs[i].0.as_str(), p.0.as_str());
            let high_same = same(self.pairs[i].1.as_str(), p.1.as_str());
            proof {
                assert(s[i as int] == (self.pairs@[i as int].0@, self.pairs@[i as int].1@));
            }
            if low_same && high_same {
                proof {
                    assert(s.contains(q));
                }
                return (i, true);
            }
            let earlier = is_before(self.pairs[i].0.as_str(), p.0.as_str()) || (low_same && is_before(
                self.pairs[i].1.as_str(),
                p.1.as_str(),
            ));
            if !earlier {
                proof {
                    lemma_pair_before_total(s[i as int], q);
                    assert forall|j: int| i <= j < s.len() implies pair_before(q, #[trigger] s[j]) by {
                        if j > i {
                            lemma_pair_before_transitive(q, s[i as int], s[j]);
                        }
                    }
                    assert forall|j: int| 0 <= j < s.len() implies s[j] != q by {
                        lemma_pair_before_irreflexive(q);
                    }
                }
                return (i, false);
            }
            i = i + 1;
        }
        proof {
            assert forall|j: int| 0 <= j < s.len() implies s[j] != q by {
                lemma_pair_before_irreflexive(q);
            }
        }
        (i, false)
    }

    /// Connect two agents. Returns `true` if this created a new pairing (`false`
    /// if they were already connected or `a == b`).
    pub fn connect(&mut self, a: &str, b: &str) -> (r: bool)
        ensures
            r == (a@ != b@ && !linked(old(self)@, a@, b@)),
            a@ != b@ ==> final(self)@ == old(self)@.insert(ordered_pair(a@, b@)),
            a@ == b@ ==> final(self)@ == old(self)@,
    {
        match normalize(a, b) {
            None => false,
            Some(p) => {
                let (at, found) = self.locate(&p);
                let ghost q = (p.0@, p.1@);
                if found {
                    proof {
                        assert(self@.insert(q) =~= self@);
                    }
                    return false;
                }
                proof {
                    use_type_invariant(&*self);
                }
                let ghost s = pair_views(self.pairs@);
                let mut pairs: Vec<(String, String)> = Vec::new();
                std::mem::swap(&mut pairs, &mut self.pairs);
                pairs.insert(at, p);
                let ghost t = pair_views(pairs@);
                proof {
                    assert(t =~= s.insert(at as int, q));
                    assert forall|i: int, j: int| 0 <= i < j < t.len() implies pair_before(
                        #[trigger] t[i],
                        #[trigger] t[j],
                    ) by {
                        let i2 = if i > at { i - 1 } else { i };
                        let j2 = if j > at { j - 1 } else { j };
                        if i != at {
                            assert(t[i] == s[i2]);
                        }
                        if j != at {
                            assert(t[j] == s[j2]);
                        }
                    }
                    assert forall|i: int| 0 <= i < t.len() implies before((#[trigger] t[i]).0, t[i].1) by {
                        if i != at {
                            let i2 = if i > at { i - 1 } else { i };
                            assert(t[i] == s[i2]);
                        }
                    }
                    assert(t.to_set() =~= s.to_set().insert(q)) by {
                        assert forall|x: PairView| t.to_set().contains(x) <==> s.to_set().insert(
                            q,
                        ).contains(x) by {
                            if t.contains(x) {
                                let i = choose|i: int| 0 <= i < t.len() && t[i] == x;
                                if i != at {
                                    let i2 = if i > at { i - 1 } else { i };
                                    assert(s[i2] == x);
                                }
                            }
                            if s.contains(x) {
                                let i = choose|i: int| 0 <= i < s.len() && s[i] == x;
                                let i2 = if i >= at { i + 1 } else { i };
                                assert(t[i2] == x);
                            }
                            if x == q {
                                assert(t[at as int] == q);
                            }
                        }
                    }
                }
                self.pairs = pairs;
                true
            },
        }
    }

    /// Disconnect two agents. Returns `true` if a pairing was removed.
    pub fn disconnect(&mut self, a: &str, b: &str) -> (r: bool)
        ensures
            r == linked(old(self)@, a@, b@),
            a@ != b@ ==> final(self)@ == old(self)@.remove(ordered_pair(a@, b@)),
            a@ == b@ ==> final(self)@ == old(self)@,
    {
        match normalize(a, b) {
            None => false,
            Some(p) => {
                let (at, found) = self.locate(&p);
                let ghost q = (p.0@, p.1@);
                if !found {
                    proof {
                        assert(self@.remove(q) =~= self@);
                    }
                    return false;
                }
                proof {
                    use_type_invariant(&*self);
                }
                let ghost s = pair_views(self.pairs@);
                let mut pairs: Vec<(String, String)> = Vec::new();
                std::mem::swap(&mut pairs, &mut self.pairs);
                let _removed = pairs.remove(at);
                let ghost t = pair_views(pairs@);
                proof {
                    assert(t =~= s.remove(at as int));
                    assert forall|i: int, j: int| 0 <= i < j < t.len() implies pair_before(
                        #[trigger] t[i],
                        #[trigger] t[j],
                    ) by {
                        let i2 = if i >= at { i + 1 } else { i };
                        let j2 = if j >= at { j + 1 } else { j };
                        assert(t[i] == s[i2]);
                        assert(t[j] == s[j2]);
                    }
                    assert forall|i: int| 0 <= i < t.len() implies before((#[trigger] t[i]).0, t[i].1) by {
                        let i2 = if i >= at { i + 1 } else { i };
                        assert(t[i] == s[i2]);
                    }
                    assert(t.to_set() =~= s.to_set().remove(q)) by {
                        assert forall|x: PairView| t.to_set().contains(x) <==> s.to_set().remove(
                            q,
                        ).contains(x) by {
                            if t.contains(x) {
                                let i = choose|i: int| 0 <= i < t.len() && t[i] == x;
                                let i2 = if i >= at { i + 1 } else { i };
                                assert(s[i2] == x);
                                if i2 < at {
                                    assert(pair_before(s[i2], s[at as int]));
                                } else {
                                    assert(pair_before(s[at as int], s[i2]));
                                }
                                lemma_pair_before_irreflexive(q);
                            }
                            if s.contains(x) && x != q {
                                let i = choose|i: int| 0 <= i < s.len() && s[i] == x;
                                let i2 = if i > at { i - 1 } else { i };
                                assert(t[i2] == x);
                            }
                        }
                    }
                }
                self.pairs = pairs;
                true
            },
        }
    }

    /// Whether `a` and `b` are connected: only then may one message the other.
    pub fn is_connected(&self, a: &str, b: &str) -> (r: bool)
        ensures
            r == linked(self@, a@, b@),
    {
        match normalize(a, b) {
            None => false,
            Some(p) => self.locate(&p).1,
        }
    }

    /// All agents paired with `agent`, sorted ascending.
    pub fn peers(&self, agent: &str) -> (r: Vec<String>)
        ensures
            crate::text::views(r@) == peers_of(self@, agent@),
            lists_peers(crate::text::views(r@), self@, agent@),
    {
        proof {
            use_type_invariant(self);
        }
        let ghost s = pair_views(self.pairs@);
        let mut out: Vec<String> = Vec::new();
        let mut i: usize = 0;
        while i < self.pairs.len()
            invariant
                s == pair_views(self.pairs@),
                i <= self.pairs@.len(),
                forall|j: int| 0 <= j < s.len() ==> before((#[trigger] s[j]).0, s[j].1),
                forall|j: int, k: int|
                    0 <= j < k < s.len() ==> pair_before(#[trigger] s[j], #[trigger] s[k]),
                ascending(crate::text::views(out@)),
                forall|p: Seq<char>| #[trigger]
                    crate::text::views(out@).contains(p) <==> peer_in(s, i as int, agent@, p),
            decreases self.pairs@.len() - i,
        {
            let ghost had = crate::text::views(out@);
            proof {
                assert(s[i as int] == (self.pairs@[i as int].0@, self.pairs@[i as int].1@));
                lemma_before_irreflexive(agent@);
            }
            let low = same(self.pairs[i].0.as_str(), agent);
            let high = same(self.pairs[i].1.as_str(), agent);
            if low {
                out.push(self.pairs[i].1.clone());
            } else if high {
                out.push(self.pairs[i].0.clone());
            }
            proof {
                let now = crate::text::views(out@);
                if low || high {
                    let q = if low { s[i as int].1 } else { s[i as int].0 };
                    assert(now =~= had.push(q));
                    assert forall|a: int, b: int| 0 <= a < b < now.len() implies before(
                        #[trigger] now[a],
                        #[trigger] now[b],
                    ) by {
                        if b == had.len() {
                            assert(had.contains(had[a]));
                            lemma_peer_order(s, i as int, agent@, had[a], q);
                        } else {
                            assert(now[a] == had[a] && now[b] == had[b]);
                        }
                    }
                    assert forall|p: Seq<char>| #[trigger] now.contains(p) <==> peer_in(
                        s,
                        i + 1,
                        agent@,
                        p,
                    ) by {
                        if now.contains(p) {
                            let k = choose|k: int| 0 <= k < now.len() && now[k] == p;
                            if k < had.len() {
                                assert(had.contains(p));
                            } else {
                                assert(is_peer(s[i as int], agent@, p));
                            }
                        }
                        if peer_in(s, i + 1, agent@, p) {
                            let j = choose|j: int| 0 <= j < i + 1 && is_peer(#[trigger] s[j], agent@, p);
                            if j < i {
                                assert(is_peer(s[j], agent@, p));
                                assert(had.contains(p));
                                let k = choose|k: int| 0 <= k < had.len() && had[k] == p;
                                assert(now[k] == p);
                            } else {
                                assert(now[had.len() as int] == p);
                            }
                        }
                    }
                } else {
                    assert forall|p: Seq<char>| #[trigger] now.contains(p) <==> peer_in(
                        s,
                        i + 1,
                        agent@,
                        p,
                    ) by {
                        if now.contains(p) {
                            let j = choose|j: int| 0 <= j < i && is_peer(#[trigger] s[j], agent@, p);
                            assert(is_peer(s[j], agent@, p));
                        }
                    }
                }
            }
            i = i + 1;
        }
        proof {
            let now = crate::text::views(out@);
            assert forall|p: Seq<char>| #[trigger] now.contains(p) <==> linked(self@, agent@, p) by {
                if now.contains(p) {
                    let j = choose|j: int| 0 <= j < i && is_peer(#[trigger] s[j], agent@, p);
                    lemma_before_irreflexive(agent@);
                    if s[j].0 == p && before(agent@, p) {
                        lemma_before_transitive(agent@, p, agent@);
                    }
                    assert(s[j] == ordered_pair(agent@, p));
                    assert(s.contains(ordered_pair(agent@, p)));
                }
                if linked(self@, agent@, p) {
                    let j = choose|j: int| 0 <= j < s.len() && s[j] == ordered_pair(agent@, p);
                    assert(is_peer(s[j], agent@, p));
                }
            }
            lemma_peers_unique(now, self@, agent@);
        }
        out
    }

    /// The pairings that a stored list gives. Order within a pair makes no
    /// difference; without a stored list there are none.
    pub fn load(stored: Option<Vec<(String, String)>>) -> (r: PairingStore)
        ensures
            match stored {
                None => r@ == Set::<PairView>::empty(),
                Some(v) => r@ == connected_by(pair_views(v@)),
            },
    {
        let mut store = PairingStore::new();
        match stored {
            None => store,
            Some(v) => {
                let ghost all = pair_views(v@);
                let mut i: usize = 0;
                proof {
                    assert(all.take(0) =~= seq![]);
                }
                while i < v.len()
                    invariant
                        i <= v@.len(),
                        all == pair_views(v@),
                        store@ == connected_by(all.take(i as int)),
                    decreases v@.len() - i,
                {
                    proof {
                        assert(all.take(i + 1).drop_last() =~= all.take(i as int));
                        assert(all.take(i + 1).last() == (v@[i as int].0@, v@[i as int].1@));
                    }
                    let _new = store.connect(v[i].0.as_str(), v[i].1.as_str());
                    i = i + 1;
                }
                proof {
                    assert(all.take(i as int) =~= all);
                }
                store
            },
        }
    }

    /// The list to store: each pairing once, in ascending order.
    pub fn save(&self) -> (r: Vec<(String, String)>)
        ensures
            pair_views(r@) == pairs_of(self@),
            lists_pairs(pair_views(r@), self@),
            forall|i: int|
                0 <= i < r@.len() ==> before(
                    (#[trigger] pair_views(r@)[i]).0,
                    pair_views(r@)[i].1,
                ),
    {
        proof {
            use_type_invariant(self);
        }
        let mut out: Vec<(String, String)> = Vec::new();
        let mut i: usize = 0;
        while i < self.pairs.len()
            invariant
                i <= self.pairs@.len(),
                pair_views(out@) == pair_views(self.pairs@).take(i as int),
            decreases self.pairs@.len() - i,
        {
            let ghost had = out@;
            out.push((self.pairs[i].0.clone(), self.pairs[i].1.clone()));
            proof {
                assert(pair_views(out@) =~= pair_views(had).push(pair_views(self.pairs@)[i as int]));
                assert(pair_views(self.pairs@).take(i + 1) =~= pair_views(self.pairs@).take(
                    i as int,
                ).push(pair_views(self.pairs@)[i as int]));
            }
            i = i + 1;
        }
        proof {
            assert(pair_views(out@) =~= pair_views(self.pairs@));
            assert(out@.len() == pair_views(out@).len());
            lemma_pairs_unique(pair_views(out@), self@);
        }
        out
    }
}

impl Default for PairingStore {
    /// No pairings.
    fn default() -> (r: PairingStore)
        ensures
            r@ == Set::<PairView>::empty(),
    {
        PairingStore::new()
    }
}

/// Whether the pair connects `agent` with `p`.
spec fn is_peer(pair: PairView, agent: Seq<char>, p: Seq<char>) -> bool {
    (pair.0 == agent && pair.1 == p) || (pair.1 == agent && pair.0 == p)
}

/// Whether one of the first `n` pairs connects `agent` with `p`.
spec fn peer_in(s: Seq<PairView>, n: int, agent: Seq<char>, p: Seq<char>) -> bool {
    exists|j: int| 0 <= j < n && is_peer(#[trigger] s[j], agent, p)
}

/// In a list in ascending order the peers of an agent come in ascending order.
proof fn lemma_peer_order(s: Seq<PairView>, i: int, agent: Seq<char>, p: Seq<char>, q: Seq<char>)
    requires
        0 <= i < s.len(),
        forall|j: int| 0 <= j < s.len() ==> before((#[trigger] s[j]).0, s[j].1),
        forall|j: int, k: int| 0 <= j < k < s.len() ==> pair_before(#[trigger] s[j], #[trigger] s[k]),
        peer_in(s, i, agent, p),
        is_peer(s[i], agent, q),
    ensures
        before(p, q),
{
    let j = choose|j: int| 0 <= j < i && is_peer(#[trigger] s[j], agent, p);
    assert(pair_before(s[j], s[i]));
    assert(before(s[j].0, s[j].1) && before(s[i].0, s[i].1));
    lemma_before_irreflexive(agent);
    if s[j].1 == agent && s[j].0 == p {
        if s[i].0 == agent && s[i].1 == q {
            lemma_before_transitive(p, agent, q);
        }
    } else if s[i].1 == agent && s[i].0 == q {
        if before(agent, q) {
            lemma_before_transitive(agent, q, agent);
        }
    }
}

// ─── Laws ──────────────────────────────────────────────────────────────

/// The pair of two ids does not depend on their order.
pub proof fn lemma_ordered_pair_symmetric(a: Seq<char>, b: Seq<char>)
    ensures
        ordered_pair(a, b) == ordered_pair(b, a),
{
    lemma_before_total(a, b);
    if before(a, b) && before(b, a) {
        lemma_before_transitive(a, b, a);
        lemma_before_irreflexive(a);
    }
}

/// Pairings are undirected.
pub proof fn law_pairing_is_undirected(pairs: Set<PairView>, a: Seq<char>, b: Seq<char>)
    ensures
        linked(pairs, a, b) == linked(pairs, b, a),
{
    lemma_ordered_pair_symmetric(a, b);
}

/// No agent is connected with itself.
pub proof fn law_no_self_pairing(pairs: Set<PairView>, a: Seq<char>)
    ensures
        !linked(pairs, a, a),
{
}

/// Connecting two agents connects these two and changes no other connection;
/// disconnecting them undoes it.
pub proof fn law_connect_then_disconnect(pairs: Set<PairView>, a: Seq<char>, b: Seq<char>)
    requires
        a != b,
        !linked(pairs, a, b),
    ensures
        linked(pairs.insert(ordered_pair(a, b)), a, b),
        linked(pairs.insert(ordered_pair(a, b)), b, a),
        forall|x: Seq<char>, y: Seq<char>|
            ordered_pair(x, y) != ordered_pair(a, b) ==> #[trigger] linked(
                pairs.insert(ordered_pair(a, b)),
                x,
                y,
            ) == linked(pairs, x, y),
        pairs.insert(ordered_pair(a, b)).remove(ordered_pair(b, a)) == pairs,
{
    lemma_ordered_pair_symmetric(a, b);
    assert(pairs.insert(ordered_pair(a, b)).remove(ordered_pair(b, a)) =~= pairs);
}

/// Where a pair belongs in a list in ascending order that does not hold it.
proof fn lemma_place(s: Seq<PairView>, p: PairView) -> (k: int)
    requires
        !s.contains(p),
        forall|i: int, j: int| 0 <= i < j < s.len() ==> pair_before(#[trigger] s[i], #[trigger] s[j]),
    ensures
        0 <= k <= s.len(),
        forall|i: int| 0 <= i < k ==> pair_before(#[trigger] s[i], p),
        forall|i: int| k <= i < s.len() ==> pair_before(p, #[trigger] s[i]),
    decreases s.len(),
{
    if s.len() == 0 {
        0
    } else {
        let t = s.drop_last();
        lemma_pair_before_total(s.last(), p);
        assert(s.contains(s.last()));
        if pair_before(s.last(), p) {
            assert forall|i: int| 0 <= i < s.len() implies pair_before(#[trigger] s[i], p) by {
                if i < t.len() {
                    lemma_pair_before_transitive(s[i], s.last(), p);
                }
            }
            s.len() as int
        } else {
            assert(!t.contains(p)) by {
                if t.contains(p) {
                    let i = choose|i: int| 0 <= i < t.len() && t[i] == p;
                    assert(s[i] == p);
                }
            }
            let k = lemma_place(t, p);
            assert forall|i: int| 0 <= i < k implies pair_before(#[trigger] s[i], p) by {
                assert(t[i] == s[i]);
            }
            assert forall|i: int| k <= i < s.len() implies pair_before(p, #[trigger] s[i]) by {
                if i < t.len() {
                    assert(t[i] == s[i]);
                }
            }
            k
        }
    }
}

/// The list of pairings to store holds exactly the pairings, each once, in
/// ascending order.
pub proof fn law_pairings_are_listed_in_order(pairs: Set<PairView>)
    requires
        pairs.finite(),
    ensures
        lists_pairs(pairs_of(pairs), pairs),
    decreases pairs.len(),
{
    if pairs.len() == 0 {
        let none = Seq::<PairView>::empty();
        assert(none.to_set() =~= pairs);
        assert(lists_pairs(none, pairs));
    } else {
        let p = pairs.choose();
        let rest = pairs.remove(p);
        law_pairings_are_listed_in_order(rest);
        let s = pairs_of(rest);
        assert(!s.contains(p)) by {
            assert(!s.to_set().contains(p));
        }
        let k = lemma_place(s, p);
        let t = s.insert(k, p);
        assert forall|i: int, j: int| 0 <= i < j < t.len() implies pair_before(
            #[trigger] t[i],
            #[trigger] t[j],
        ) by {
            let i2 = if i > k { i - 1 } else { i };
            let j2 = if j > k { j - 1 } else { j };
            if i != k {
                assert(t[i] == s[i2]);
            }
            if j != k {
                assert(t[j] == s[j2]);
            }
        }
        assert forall|x: PairView| t.to_set().contains(x) <==> pairs.contains(x) by {
            if t.contains(x) {
                let i = choose|i: int| 0 <= i < t.len() && t[i] == x;
                if i != k {
                    let i2 = if i > k { i - 1 } else { i };
                    assert(s[i2] == x);
                    assert(s.to_set().contains(x));
                }
            }
            if pairs.contains(x) {
                if x == p {
                    assert(t[k] == p);
                } else {
                    assert(rest.contains(x));
                    assert(s.to_set().contains(x));
                    let i = choose|i: int| 0 <= i < s.len() && s[i] == x;
                    let i2 = if i >= k { i + 1 } else { i };
                    assert(t[i2] == x);
                }
            }
        }
        assert(t.to_set() =~= pairs);
        assert(lists_pairs(t, pairs));
    }
}

/// What is stored gives the same pairings back, whatever the order within each
/// pair.
pub proof fn law_load_gives_back_what_was_saved(stored: Seq<PairView>, pairs: Set<PairView>)
    requires
        stored.to_set() == pairs,
        forall|i: int| 0 <= i < stored.len() ==> before((#[trigger] stored[i]).0, stored[i].1),
    ensures
        connected_by(stored) == pairs,
    decreases stored.len(),
{
    if stored.len() == 0 {
        assert(pairs =~= Set::empty());
    } else {
        let t = stored.drop_last();
        assert forall|i: int| 0 <= i < t.len() implies before((#[trigger] t[i]).0, t[i].1) by {
            assert(t[i] == stored[i]);
        }
        law_load_gives_back_what_was_saved(t, t.to_set());
        let last = stored.last();
        assert(before(last.0, last.1)) by {
            assert(stored[stored.len() - 1] == last);
        }
        lemma_before_irreflexive(last.0);
        assert(stored.to_set() =~= t.to_set().insert(last)) by {
            assert forall|x: PairView| stored.to_set().contains(x) <==> t.to_set().insert(
                last,
            ).contains(x) by {
                if stored.contains(x) {
                    let i = choose|i: int| 0 <= i < stored.len() && stored[i] == x;
                    if i < t.len() {
                        assert(t[i] == x);
                    }
                }
                if t.contains(x) {
                    let i = choose|i: int| 0 <= i < t.len() && t[i] == x;
                    assert(stored[i] == x);
                }
                if x == last {
                    assert(stored[stored.len() - 1] == x);
                }
            }
        }
    }
}

/// Two agents are connected by a stored list exactly if one of its pairs names
/// them, in whichever order; a pair of an agent with itself connects nobody.
pub proof fn law_a_stored_pair_connects_the_two_it_names(
    v: Seq<PairView>,
    a: Seq<char>,
    b: Seq<char>,
)
    requires
        a != b,
    ensures
        linked(connected_by(v), a, b) <==> exists|i: int|
            0 <= i < v.len() && (#[trigger] v[i] == (a, b) || v[i] == (b, a)),
    decreases v.len(),
{
    if v.len() > 0 {
        let rest = v.drop_last();
        let last = v.last();
        law_a_stored_pair_connects_the_two_it_names(rest, a, b);
        lemma_ordered_pair_symmetric(a, b);
        lemma_ordered_pair_symmetric(last.0, last.1);
        if linked(connected_by(v), a, b) {
            if linked(connected_by(rest), a, b) {
                let i = choose|i: int|
                    0 <= i < rest.len() && (#[trigger] rest[i] == (a, b) || rest[i] == (b, a));
                assert(v[i] == rest[i]);
            } else {
                assert(ordered_pair(last.0, last.1) == ordered_pair(a, b));
                assert(v[v.len() - 1] == (a, b) || v[v.len() - 1] == (b, a));
            }
        }
        if exists|i: int| 0 <= i < v.len() && (#[trigger] v[i] == (a, b) || v[i] == (b, a)) {
            let i = choose|i: int|
                0 <= i < v.len() && (#[trigger] v[i] == (a, b) || v[i] == (b, a));
            if i < rest.len() {
                assert(rest[i] == v[i]);
            }
        }
    }
}

/// The peers of an agent are listed once each, in ascending order, and are exactly
/// the agents that it is connected with.
pub proof fn law_peers_are_listed_in_order(
    s: Seq<Seq<char>>,
    pairs: Set<PairView>,
    agent: Seq<char>,
    i: int,
    j: int,
)
    requires
        lists_peers(s, pairs, agent),
        0 <= i < j < s.len(),
    ensures
        before(s[i], s[j]),
        s[i] != s[j],
        s[i] != agent,
        pairs.contains(ordered_pair(agent, s[i])),
{
    lemma_before_irreflexive(s[i]);
    assert(s.contains(s[i]));
}

/// A pair has the lower of its two ids first, in whichever order they are given,
/// and pairs are in the order of their first ids and then of their second.
pub proof fn law_a_pair_has_its_lower_id_first(a: Seq<char>, b: Seq<char>, c: Seq<char>)
    ensures
        before(a, b) ==> ordered_pair(a, b) == (a, b) && ordered_pair(b, a) == (a, b),
        before(a, b) ==> pair_before((a, c), (b, c)) && !pair_before((b, c), (a, c)),
        before(a, b) ==> pair_before((c, a), (c, b)) && !pair_before((c, b), (c, a)),
        !pair_before((a, b), (a, b)),
{
    lemma_ordered_pair_symmetric(a, b);
    lemma_before_irreflexive(a);
    lemma_before_irreflexive(b);
    lemma_before_irreflexive(c);
    if before(a, b) && before(b, a) {
        lemma_before_transitive(a, b, a);
    }
}

} // verus!
