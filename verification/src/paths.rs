//! Paths, by the components that tell files apart.
use vstd::prelude::*;

use crate::text::{same_text, starts_with};

verus! {

/// The texts of a list of strings.
pub open spec fn texts_of(strings: Seq<String>) -> Seq<Seq<char>> {
    strings.map_values(|s: String| s@)
}

/// What stands between two slashes, as a component. Nothing, and the directory
/// itself, are none.
pub open spec fn component(part: Seq<char>) -> Seq<Seq<char>> {
    if part.len() == 0 || part == "."@ {
        Seq::empty()
    } else {
        seq![part]
    }
}

/// The components of a path, of which `part` is read up to a point in a component,
/// and `rest` is left.
pub open spec fn components_from(part: Seq<char>, rest: Seq<char>) -> Seq<Seq<char>>
    decreases rest.len(),
{
    if rest.len() == 0 {
        component(part)
    } else if rest[0] == '/' {
        component(part) + components_from(Seq::empty(), rest.skip(1))
    } else {
        components_from(part.push(rest[0]), rest.skip(1))
    }
}

/// Where a path begins: at the root, expressly in the working directory, or without
/// saying so.
pub open spec fn path_start(path: Seq<char>) -> Seq<Seq<char>> {
    if "/"@.is_prefix_of(path) {
        seq!["/"@]
    } else if path == "."@ || "./"@.is_prefix_of(path) {
        seq!["."@]
    } else {
        Seq::empty()
    }
}

/// The components of a path. Paths with the same components are the same path:
/// repeated and final slashes do not count, nor does the directory itself but at
/// the beginning.
pub open spec fn path_components(path: Seq<char>) -> Seq<Seq<char>> {
    path_start(path) + components_from(Seq::empty(), path)
}

/// Adds what stands between two slashes to the components.
fn push_component(components: &mut Vec<String>, part: &str)
    ensures
        texts_of(final(components)@) == texts_of(old(components)@) + component(part@),
{
    if part.unicode_len() > 0 && !same_text(part, ".") {
        components.push(String::from_str(part));
    }
    assert(texts_of(components@) =~= texts_of(old(components)@) + component(part@));
}

pub fn components_of(path: &str) -> (r: Vec<String>)
    ensures
        texts_of(r@) == path_components(path@),
{
    let mut components: Vec<String> = Vec::new();
    if starts_with(path, "/") {
        components.push(String::from_str("/"));
    } else if same_text(path, ".") || starts_with(path, "./") {
        components.push(String::from_str("."));
    }
    assert(texts_of(components@) =~= path_start(path@));
    let len: usize = path.unicode_len();
    let mut start: usize = 0;
    let mut k: usize = 0;
    assert(path@.subrange(0, 0) =~= Seq::<char>::empty());
    assert(path@.skip(0) =~= path@);
    while k < len
        invariant
            start <= k <= len,
            len == path@.len(),
            texts_of(components@) + components_from(
                path@.subrange(start as int, k as int),
                path@.skip(k as int),
            ) == path_components(path@),
        decreases len - k,
    {
        let ghost part = path@.subrange(start as int, k as int);
        let ghost rest = path@.skip(k as int);
        assert(rest[0] == path@[k as int]);
        assert(rest.skip(1) =~= path@.skip(k as int + 1));
        if path.get_char(k) == '/' {
            let ghost before = texts_of(components@);
            push_component(&mut components, path.substring_char(start, k));
            start = k + 1;
            assert(path@.subrange(start as int, k as int + 1) =~= Seq::<char>::empty());
            assert(texts_of(components@) + components_from(Seq::empty(), rest.skip(1)) =~= before
                + components_from(part, rest));
        } else {
            assert(path@.subrange(start as int, k as int + 1) =~= part.push(rest[0]));
        }
        k = k + 1;
    }
    assert(path@.skip(k as int).len() == 0);
    push_component(&mut components, path.substring_char(start, len));
    components
}

/// Tells whether two lists hold the same texts.
pub fn same_components(a: &Vec<String>, b: &Vec<String>) -> (r: bool)
    ensures
        r == (texts_of(a@) == texts_of(b@)),
{
    if a.len() != b.len() {
        assert(texts_of(a@).len() != texts_of(b@).len());
        return false;
    }
    let mut k: usize = 0;
    while k < a.len()
        invariant
            k <= a@.len(),
            a@.len() == b@.len(),
            forall|i: int| 0 <= i < k ==> a@[i]@ == b@[i]@,
        decreases a@.len() - k,
    {
        if !same_text(a[k].as_str(), b[k].as_str()) {
            assert(texts_of(a@)[k as int] != texts_of(b@)[k as int]);
            return false;
        }
        k = k + 1;
    }
    assert(texts_of(a@) =~= texts_of(b@));
    true
}

/// What comes before a slash and what comes after it give their components one after
/// the other.
proof fn lemma_components_at_slash(part: Seq<char>, before: Seq<char>, after: Seq<char>)
    ensures
        components_from(part, before + seq!['/'] + after) == components_from(part, before)
            + components_from(Seq::empty(), after),
    decreases before.len(),
{
    let path = before + seq!['/'] + after;
    if before.len() == 0 {
        assert(path.skip(1) =~= after);
    } else {
        let rest = before.skip(1);
        assert(path[0] == before[0]);
        assert(path.skip(1) =~= rest + seq!['/'] + after);
        if before[0] == '/' {
            lemma_components_at_slash(Seq::empty(), rest, after);
            assert(components_from(part, path) =~= components_from(part, before)
                + components_from(Seq::empty(), after));
        } else {
            lemma_components_at_slash(part.push(before[0]), rest, after);
        }
    }
}

proof fn lemma_starts_agree(before: Seq<char>, after: Seq<char>, other: Seq<char>)
    requires
        before.len() > 0,
    ensures
        path_start(before + seq!['/'] + after) == path_start(before + seq!['/'] + other),
{
    reveal_strlit("/");
    reveal_strlit("./");
    reveal_strlit(".");
    let a = before + seq!['/'] + after;
    let b = before + seq!['/'] + other;
    assert(a[0] == before[0] && b[0] == before[0]);
    assert(a[1] == if before.len() == 1 {
        '/'
    } else {
        before[1]
    });
    assert(b[1] == a[1]);
    assert("/"@.is_prefix_of(a) <==> a[0] == '/') by {
        assert(a.subrange(0, 1)[0] == a[0]);
        if a[0] == '/' {
            assert("/"@ =~= a.subrange(0, 1));
        }
    }
    assert("/"@.is_prefix_of(b) <==> b[0] == '/') by {
        assert(b.subrange(0, 1)[0] == b[0]);
        if b[0] == '/' {
            assert("/"@ =~= b.subrange(0, 1));
        }
    }
    assert("./"@.is_prefix_of(a) <==> a[0] == '.' && a[1] == '/') by {
        assert(a.subrange(0, 2)[0] == a[0] && a.subrange(0, 2)[1] == a[1]);
        if a[0] == '.' && a[1] == '/' {
            assert("./"@ =~= a.subrange(0, 2));
        }
    }
    assert("./"@.is_prefix_of(b) <==> b[0] == '.' && b[1] == '/') by {
        assert(b.subrange(0, 2)[0] == b[0] && b.subrange(0, 2)[1] == b[1]);
        if b[0] == '.' && b[1] == '/' {
            assert("./"@ =~= b.subrange(0, 2));
        }
    }
}

/// Repeated slashes, a directory itself within a path and a final slash make no
/// difference.
pub proof fn lemma_spellings_of_a_path(before: Seq<char>, after: Seq<char>)
    requires
        before.len() > 0,
    ensures
        path_components(before + seq!['/'] + (seq!['/'] + after)) == path_components(
            before + seq!['/'] + after,
        ),
        path_components(before + seq!['/'] + (seq!['.', '/'] + after)) == path_components(
            before + seq!['/'] + after,
        ),
        components_from(Seq::empty(), before + seq!['/'] + Seq::empty()) == components_from(
            Seq::empty(),
            before,
        ),
{
    reveal_strlit(".");
    let empty = Seq::<char>::empty();
    let doubled = seq!['/'] + after;
    let dotted = seq!['.', '/'] + after;
    lemma_components_at_slash(empty, before, after);
    lemma_components_at_slash(empty, before, doubled);
    lemma_components_at_slash(empty, before, dotted);
    lemma_components_at_slash(empty, before, empty);
    lemma_starts_agree(before, after, doubled);
    lemma_starts_agree(before, after, dotted);
    assert(doubled.skip(1) =~= after);
    assert(components_from(empty, doubled) =~= components_from(empty, after));
    assert(dotted.skip(1) =~= seq!['/'] + after);
    assert(dotted.skip(1).skip(1) =~= after);
    assert(empty.push('.') =~= "."@);
    assert(components_from(empty, dotted) == components_from(empty.push('.'), dotted.skip(1)));
    assert(components_from(empty, dotted) =~= components_from(empty, after));
    assert(components_from(empty, empty) =~= Seq::<Seq<char>>::empty());
    assert(components_from(empty, before) + Seq::<Seq<char>>::empty() =~= components_from(
        empty,
        before,
    ));
}

/// Every component but the first is a part of the path between slashes: it is not empty,
/// not the directory itself, and has no slash in it.
pub proof fn lemma_components_are_names(part: Seq<char>, rest: Seq<char>, i: int)
    requires
        !part.contains('/'),
        0 <= i < components_from(part, rest).len(),
    ensures
        components_from(part, rest)[i].len() > 0,
        components_from(part, rest)[i] != "."@,
        !components_from(part, rest)[i].contains('/'),
    decreases rest.len(),
{
    let empty = Seq::<char>::empty();
    if rest.len() > 0 {
        if rest[0] == '/' {
            let first = component(part);
            assert(!empty.contains('/'));
            if i >= first.len() {
                lemma_components_are_names(empty, rest.skip(1), i - first.len());
            }
        } else {
            let longer = part.push(rest[0]);
            assert(!longer.contains('/')) by {
                if longer.contains('/') {
                    let k = choose|k: int| 0 <= k < longer.len() && longer[k] == '/';
                    assert(k < part.len());
                    assert(part[k] == '/');
                }
            }
            lemma_components_are_names(longer, rest.skip(1), i);
        }
    }
}

/// A path without slashes is one component, or none if it is empty.
pub proof fn lemma_name_is_one_component(part: Seq<char>, name: Seq<char>)
    requires
        !name.contains('/'),
    ensures
        components_from(part, name) == component(part + name),
    decreases name.len(),
{
    if name.len() > 0 {
        let rest = name.skip(1);
        assert(name[0] != '/') by {
            assert(name.contains(name[0]));
        }
        assert(!rest.contains('/')) by {
            if rest.contains('/') {
                let k = choose|k: int| 0 <= k < rest.len() && rest[k] == '/';
                assert(name[k + 1] == '/');
            }
        }
        lemma_name_is_one_component(part.push(name[0]), rest);
        assert(part.push(name[0]) + rest =~= part + name);
    } else {
        assert(part + name =~= part);
    }
}

} // verus!
