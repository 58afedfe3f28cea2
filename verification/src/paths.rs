//! Paths as text, with `/` between their components.
use crate::text::{chars_of, concat2, concat3, joined, split, split_on, views};
use vstd::prelude::*;
use vstd::string::*;

verus! {

/// The components of a path: what stands between its slashes, without empty
/// pieces and without `.`.
pub open spec fn components(p: Seq<char>) -> Seq<Seq<char>> {
    split(p, '/').filter(|s: Seq<char>| s.len() > 0 && s != seq!['.'])
}

/// The last component of a path; `None` when there is none or it is `..`.
pub open spec fn base_name(p: Seq<char>) -> Option<Seq<char>> {
    let c = components(p);
    if c.len() > 0 && c.last() != seq!['.', '.'] {
        Some(c.last())
    } else {
        None
    }
}

/// `p` seen from the directory `dir`: an absolute `p` stands for itself.
pub open spec fn path_join(dir: Seq<char>, p: Seq<char>) -> Seq<char> {
    if dir.len() == 0 || (p.len() > 0 && p[0] == '/') {
        p
    } else if dir.last() == '/' {
        dir + p
    } else {
        dir + seq!['/'] + p
    }
}

/// A path by its components alone.
pub open spec fn clean_path(p: Seq<char>) -> Seq<char> {
    joined(components(p), seq!['/'])
}

/// The components of a path.
pub fn components_of(p: &str) -> (r: Vec<String>)
    ensures
        views(r@) == components(p@),
{
    let pieces = split_on(p, '/');
    let ghost all = split(p@, '/');
    let ghost keep = |s: Seq<char>| s.len() > 0 && s != seq!['.'];
    let mut out: Vec<String> = Vec::new();
    let mut i: usize = 0;
    proof {
        reveal(Seq::filter);
        assert(all.take(0) =~= seq![]);
        assert(views(out@) =~= seq![]);
    }
    while i < pieces.len()
        invariant
            i <= pieces@.len(),
            all == views(pieces@),
            keep == (|s: Seq<char>| s.len() > 0 && s != seq!['.']),
            views(out@) == all.take(i as int).filter(keep),
        decreases pieces@.len() - i,
    {
        let ghost had = out@;
        let piece = pieces[i].clone();
        let dot = is_dots(piece.as_str(), 1);
        proof {
            reveal(Seq::filter);
            assert(all.take(i + 1).drop_last() =~= all.take(i as int));
            assert(all.take(i + 1).last() == piece@);
        }
        if !piece.as_str().is_empty() && !dot {
            out.push(piece);
            proof {
                assert(views(out@) =~= views(had).push(piece@));
            }
        }
        i = i + 1;
    }
    proof {
        assert(all.take(i as int) =~= all);
    }
    out
}

/// Whether `s` is made of exactly `n` dots.
fn is_dots(s: &str, n: usize) -> (r: bool)
    ensures
        r == (s@.len() == n && forall|i: int| 0 <= i < s@.len() ==> s@[i] == '.'),
        n == 1 ==> r == (s@ == seq!['.']),
        n == 2 ==> r == (s@ == seq!['.', '.']),
{
    let v = chars_of(s);
    let mut r = v.len() == n;
    let mut i: usize = 0;
    while i < v.len()
        invariant
            v@ == s@,
            i <= v@.len(),
            r == (v@.len() == n && forall|j: int| 0 <= j < i ==> v@[j] == '.'),
        decreases v@.len() - i,
    {
        r = r && v[i] == '.';
        i = i + 1;
    }
    proof {
        if n == 1 && r {
            assert(s@ =~= seq!['.']);
        }
        if n == 2 && r {
            assert(s@ =~= seq!['.', '.']);
        }
    }
    r
}

/// The last component of a path; `None` when there is none or it is `..`.
pub fn file_name(p: &str) -> (r: Option<String>)
    ensures
        match r {
            Some(name) => base_name(p@) == Some(name@),
            None => base_name(p@) is None,
        },
{
    let c = components_of(p);
    if c.len() == 0 {
        return None;
    }
    let last = c[c.len() - 1].clone();
    proof {
        assert(components(p@).last() == last@);
    }
    if is_dots(last.as_str(), 2) {
        None
    } else {
        Some(last)
    }
}

/// `p` seen from the directory `dir`.
pub fn join_path(dir: &str, p: &str) -> (r: String)
    ensures
        r@ == path_join(dir@, p@),
{
    let d = chars_of(dir);
    let f = chars_of(p);
    if d.len() == 0 || (f.len() > 0 && f[0] == '/') {
        p.to_owned()
    } else if d[d.len() - 1] == '/' {
        concat2(dir, p)
    } else {
        proof {
            reveal_strlit("/");
            assert("/"@ =~= seq!['/']);
        }
        concat3(dir, "/", p)
    }
}

/// A path by its components alone.
pub fn clean(p: &str) -> (r: String)
    ensures
        r@ == clean_path(p@),
{
    let c = components_of(p);
    proof {
        reveal_strlit("/");
        assert("/"@ =~= seq!['/']);
    }
    crate::text::join(&c, "/")
}

// ─── Laws ──────────────────────────────────────────────────────────────

/// A text cut at a separator is cut on both sides of it.
proof fn lemma_split_around(a: Seq<char>, b: Seq<char>, c: char)
    ensures
        split(a + seq![c] + b, c) == split(a, c) + split(b, c),
    decreases a.len(),
{
    let s = a + seq![c] + b;
    crate::text::lemma_position(a, c);
    let k = crate::text::position(a, c) as int;
    assert(a.len() <= s.len());
    assert forall|i: int| 0 <= i < k implies s[i] != c by {
        assert(s[i] == a[i]);
    }
    if k < a.len() {
        crate::text::lemma_position_is(s, c, k);
        let rest = a.skip(k + 1);
        lemma_split_around(rest, b, c);
        assert(s.skip(k + 1) =~= rest + seq![c] + b);
        assert(s.take(k) =~= a.take(k));
        assert(seq![a.take(k)] + (split(rest, c) + split(b, c)) =~= (seq![a.take(k)] + split(
            rest,
            c,
        )) + split(b, c));
    } else {
        crate::text::lemma_position_is(s, c, a.len() as int);
        assert(s.take(a.len() as int) =~= a);
        assert(s.skip(a.len() as int + 1) =~= b);
    }
}

/// The components of a path are those before a slash and then those behind it.
pub proof fn law_components_go_on_behind_a_slash(a: Seq<char>, b: Seq<char>)
    ensures
        components(a + seq!['/'] + b) == components(a) + components(b),
{
    lemma_split_around(a, b, '/');
    Seq::filter_distributes_over_add(
        split(a, '/'),
        split(b, '/'),
        |s: Seq<char>| s.len() > 0 && s != seq!['.'],
    );
}

/// A name without a slash is one component, unless it is empty or a dot; and an
/// empty or dotted part of a path is none.
pub proof fn law_a_name_is_one_component(name: Seq<char>)
    requires
        !name.contains('/'),
    ensures
        name.len() > 0 && name != seq!['.'] ==> components(name) == seq![name],
        name.len() == 0 || name == seq!['.'] ==> components(name) == Seq::<Seq<char>>::empty(),
{
    assert forall|i: int| 0 <= i < name.len() implies name[i] != '/' by {
        assert(name.contains(name[i]));
    }
    crate::text::lemma_position_is(name, '/', name.len() as int);
    let one = seq![name];
    assert(split(name, '/') =~= one);
    let keep = |s: Seq<char>| s.len() > 0 && s != seq!['.'];
    reveal(Seq::filter);
    assert(one.drop_last() =~= Seq::<Seq<char>>::empty());
    assert(one.drop_last().filter(keep) =~= Seq::<Seq<char>>::empty());
    assert(one.filter(keep) =~= if keep(name) {
        one
    } else {
        Seq::<Seq<char>>::empty()
    });
}

/// A path goes by its last component, with or without a slash at its end; one that
/// goes up has no name.
pub proof fn law_a_path_goes_by_its_last_component(dir: Seq<char>, name: Seq<char>)
    requires
        name.len() > 0,
        !name.contains('/'),
        name != seq!['.'],
    ensures
        name != seq!['.', '.'] ==> base_name(dir + seq!['/'] + name) == Some(name),
        name != seq!['.', '.'] ==> base_name(dir + seq!['/'] + name + seq!['/']) == Some(name),
        name == seq!['.', '.'] ==> base_name(dir + seq!['/'] + name) is None,
{
    law_components_go_on_behind_a_slash(dir, name);
    law_a_name_is_one_component(name);
    let all = components(dir + seq!['/'] + name);
    assert(all.last() == name);
    let none = Seq::<char>::empty();
    let path = dir + seq!['/'] + name;
    law_components_go_on_behind_a_slash(path, none);
    law_a_name_is_one_component(none);
    assert(path + seq!['/'] + none =~= path + seq!['/']);
    assert(all + components(none) =~= all);
}

/// A path below a directory stands behind it with one slash between them, and an
/// absolute path stands for itself.
pub proof fn law_a_path_below_a_directory(dir: Seq<char>, rel: Seq<char>)
    ensures
        dir.len() > 0 && dir.last() != '/' && (rel.len() == 0 || rel[0] != '/') ==> path_join(
            dir,
            rel,
        ) == dir + seq!['/'] + rel,
        dir.len() > 0 && dir.last() == '/' && (rel.len() == 0 || rel[0] != '/') ==> path_join(
            dir,
            rel,
        ) == dir + rel,
        rel.len() > 0 && rel[0] == '/' ==> path_join(dir, rel) == rel,
        dir.len() == 0 ==> path_join(dir, rel) == rel,
{
}

/// A cleaned path has its components with one slash between each two.
pub proof fn law_a_cleaned_path_has_the_same_components(dir: Seq<char>, name: Seq<char>)
    requires
        name.len() > 0,
        !name.contains('/'),
        name != seq!['.'],
    ensures
        clean_path(name) == name,
        components(dir).len() > 0 ==> clean_path(dir + seq!['/'] + name) == clean_path(dir)
            + seq!['/'] + name,
        components(dir).len() == 0 ==> clean_path(dir + seq!['/'] + name) == name,
{
    law_a_name_is_one_component(name);
    law_components_go_on_behind_a_slash(dir, name);
    let all = components(dir + seq!['/'] + name);
    assert(all.drop_last() =~= components(dir));
    assert(all.last() == name);
}

} // verus!
