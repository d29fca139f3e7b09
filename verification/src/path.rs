//! Paths, compared by their components.
//!
//! Two spellings of a path that differ in repeated slashes, in a trailing
//! slash or in `.` components name the same place in the tree, and a prefix
//! counts only where it ends at a component: `/drives` is no prefix of
//! `/drives-old`.
use vstd::prelude::*;

#[allow(unused_imports)]
use crate::text::{lemma_views_push, optional_text, split, views};
use crate::text::{same_text, split_text};

verus! {

/// Whether a piece between two slashes is a component of its own.
pub open spec fn is_component(piece: Seq<char>) -> bool {
    piece.len() > 0 && piece != "."@
}

/// The pieces that are components, in order.
pub open spec fn only_components(pieces: Seq<Seq<char>>) -> Seq<Seq<char>>
    decreases pieces.len(),
{
    if pieces.len() == 0 {
        Seq::empty()
    } else if is_component(pieces.last()) {
        only_components(pieces.drop_last()).push(pieces.last())
    } else {
        only_components(pieces.drop_last())
    }
}

/// What a path starts with besides its named components: the root for an
/// absolute path, or the `.` that a relative one may be written with.
pub open spec fn path_start(path: Seq<char>) -> Seq<Seq<char>> {
    if path.len() > 0 && path[0] == '/' {
        seq!["/"@]
    } else if split(path, '/')[0] == "."@ {
        seq!["."@]
    } else {
        Seq::empty()
    }
}

/// The components of a path.
pub open spec fn components(path: Seq<char>) -> Seq<Seq<char>> {
    path_start(path) + only_components(split(path, '/'))
}

/// Whether two paths are the same, component by component.
pub open spec fn same_place(a: Seq<char>, b: Seq<char>) -> bool {
    components(a) == components(b)
}

/// Whether `path` lies below `root`: all of `root`'s components, in front of
/// at least one more.
pub open spec fn strictly_inside(path: Seq<char>, root: Seq<char>) -> bool {
    &&& components(root).len() < components(path).len()
    &&& components(root).is_prefix_of(components(path))
}

/// Splits a path into its components.
pub fn components_of(path: &str) -> (parts: Vec<String>)
    ensures
        views(parts@) == components(path@),
{
    let pieces = split_text(path, '/');
    proof {
        crate::text::lemma_split_shape(path@, '/');
    }
    let mut parts: Vec<String> = Vec::new();
    let ghost start = path_start(path@);
    assert(views(pieces@)[0] == pieces@[0]@);
    if !path.is_empty() && path.get_char(0) == '/' {
        let root = "/".to_owned();
        proof {
            lemma_views_push(parts@, root);
        }
        parts.push(root);
        assert(views(parts@) == start);
    } else if same_text(pieces[0].as_str(), ".") {
        let here = ".".to_owned();
        proof {
            lemma_views_push(parts@, here);
        }
        parts.push(here);
        assert(views(parts@) == start);
    } else {
        assert(views(parts@) == start);
    }
    let mut i: usize = 0;
    assert(views(parts@) == start + only_components(views(pieces@).take(0)));
    while i < pieces.len()
        invariant
            i <= pieces.len(),
            views(parts@) == start + only_components(views(pieces@).take(i as int)),
        decreases pieces.len() - i,
    {
        proof {
            assert(views(pieces@).take(i as int + 1).drop_last() == views(pieces@).take(i as int));
            assert(views(pieces@)[i as int] == pieces@[i as int]@);
        }
        if !pieces[i].as_str().is_empty() && !same_text(pieces[i].as_str(), ".") {
            let piece = pieces[i].clone();
            proof {
                lemma_views_push(parts@, piece);
                let before = only_components(views(pieces@).take(i as int));
                assert((start + before).push(piece@) == start + before.push(piece@));
            }
            parts.push(piece);
        }
        i += 1;
    }
    assert(views(pieces@).take(i as int) == views(pieces@));
    parts
}

/// Whether the first `n` texts of two lists agree.
fn same_front(a: &Vec<String>, b: &Vec<String>, n: usize) -> (same: bool)
    requires
        n <= a.len(),
        n <= b.len(),
    ensures
        same == (views(a@).take(n as int) == views(b@).take(n as int)),
{
    let mut i: usize = 0;
    while i < n
        invariant
            i <= n,
            n <= a.len(),
            n <= b.len(),
            forall|k: int| 0 <= k < i ==> views(a@)[k] == views(b@)[k],
        decreases n - i,
    {
        if !same_text(a[i].as_str(), b[i].as_str()) {
            assert(views(a@).take(n as int)[i as int] != views(b@).take(n as int)[i as int]);
            return false;
        }
        i += 1;
    }
    assert(views(a@).take(n as int) == views(b@).take(n as int));
    true
}

/// Whether two paths are the same, component by component.
pub fn same_path(a: &str, b: &str) -> (same: bool)
    ensures
        same == same_place(a@, b@),
{
    let left = components_of(a);
    let right = components_of(b);
    if left.len() != right.len() {
        assert(views(left@).len() != views(right@).len());
        return false;
    }
    let size: usize = left.len();
    assert(views(left@).take(size as int) == views(left@));
    assert(views(right@).take(size as int) == views(right@));
    same_front(&left, &right, size)
}

/// Whether `path` lies below `root`.
pub fn path_inside(path: &str, root: &str) -> (inside: bool)
    ensures
        inside == strictly_inside(path@, root@),
{
    let inner = components_of(path);
    let outer = components_of(root);
    let size: usize = outer.len();
    assert(views(outer@).len() == size);
    assert(views(inner@).len() == inner.len());
    if inner.len() <= size {
        return false;
    }
    assert(views(outer@).take(size as int) == views(outer@));
    assert(views(inner@).take(size as int) == views(inner@).subrange(0, size as int));
    same_front(&outer, &inner, size)
}
/// What a path is taken for.
pub open spec fn place_of(raw: Seq<char>, resolved: Option<Seq<char>>) -> Seq<char> {
    match resolved {
        Some(path) => path,
        None => raw,
    }
}

/// What a path is taken for: what it resolves to. A dead filesystem may not
/// resolve, and then the path counts as it is.
pub fn resolved_or(raw: String, resolved: Option<String>) -> (place: String)
    ensures
        place@ == place_of(raw@, optional_text(resolved)),
{
    match resolved {
        Some(path) => path,
        None => raw,
    }
}

/// Nothing lies below itself, however it is spelled.
pub proof fn law_nothing_is_inside_itself(path: Seq<char>, root: Seq<char>)
    requires
        same_place(path, root),
    ensures
        !strictly_inside(path, root),
{
}

/// What lies below a place that lies below a root lies below the root.
pub proof fn law_inside_is_transitive(path: Seq<char>, middle: Seq<char>, root: Seq<char>)
    requires
        strictly_inside(path, middle),
        strictly_inside(middle, root),
    ensures
        strictly_inside(path, root),
{
    let p = components(path);
    let m = components(middle);
    let r = components(root);
    assert forall|i: int| 0 <= i < r.len() implies r[i] == p[i] by {
        assert(m.subrange(0, r.len() as int)[i] == m[i]);
        assert(p.subrange(0, m.len() as int)[i] == p[i]);
    }
    assert(r =~= p.subrange(0, r.len() as int));
}

/// How a path is spelled does not matter to what it lies below.
pub proof fn law_inside_ignores_spelling(
    path: Seq<char>,
    other: Seq<char>,
    root: Seq<char>,
    base: Seq<char>,
)
    requires
        same_place(path, other),
        same_place(root, base),
    ensures
        strictly_inside(path, root) == strictly_inside(other, base),
{
}

/// A slash at the end of a path that is not empty changes nothing.
pub proof fn law_trailing_slash_changes_nothing(path: Seq<char>)
    requires
        path.len() > 0,
    ensures
        same_place(path.push('/'), path),
{
    crate::text::lemma_split_shape(path, '/');
    let longer = path.push('/');
    assert(longer.drop_last() == path);
    let pieces = split(longer, '/');
    assert(pieces == split(path, '/').push(Seq::<char>::empty()));
    assert(pieces.drop_last() == split(path, '/'));
    assert(pieces.last() == Seq::<char>::empty());
    assert(only_components(pieces) == only_components(split(path, '/')));
    assert(pieces[0] == split(path, '/')[0]);
    assert(path_start(longer) == path_start(path));
}

/// Adding one named component goes one step below.
pub proof fn law_child_is_inside(path: Seq<char>, name: Seq<char>)
    requires
        path.len() > 0,
        is_component(name),
        !name.contains('/'),
    ensures
        components(path.push('/') + name) == components(path).push(name),
        strictly_inside(path.push('/') + name, path),
{
    let slashed = path.push('/');
    let child = slashed + name;
    law_trailing_slash_changes_nothing(path);
    crate::text::lemma_split_extend(slashed, name, '/');
    crate::text::lemma_split_shape(path, '/');
    assert(slashed.drop_last() == path);
    let pieces = split(slashed, '/');
    assert(pieces == split(path, '/').push(Seq::<char>::empty()));
    assert(pieces.last() + name == name);
    assert(pieces.drop_last() == split(path, '/'));
    assert(split(child, '/') == split(path, '/').push(name));
    assert(split(child, '/').drop_last() == split(path, '/'));
    assert(split(child, '/')[0] == split(path, '/')[0]);
    assert(child[0] == path[0]);
    assert(only_components(split(child, '/')) == only_components(split(path, '/')).push(name));
    assert(path_start(child) == path_start(path));
    assert(components(child) == components(path).push(name));
    assert(components(path) =~= components(child).subrange(0, components(path).len() as int));
}

} // verus!
