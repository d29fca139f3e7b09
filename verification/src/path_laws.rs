//! What holds of paths, stated of the names that they are written with.
use vstd::prelude::*;

#[allow(unused_imports)]
use crate::path::{components, only_components, same_place, strictly_inside};
#[allow(unused_imports)]
use crate::text::{join, law_split_undoes_join, split};
#[allow(unused_imports)]
use crate::text_laws::law_splitting_goes_side_by_side;

verus! {

/// Whether a text can name an entry of a directory: it is not empty, holds no
/// slash, and is not the directory itself.
pub open spec fn is_name(s: Seq<char>) -> bool {
    s.len() > 0 && !s.contains('/') && s != seq!['.']
}

/// Whether all of them can.
pub open spec fn are_names(names: Seq<Seq<char>>) -> bool {
    forall|i: int| 0 <= i < names.len() ==> is_name(#[trigger] names[i])
}

/// The absolute path that names an entry step by step.
pub open spec fn absolute(names: Seq<Seq<char>>) -> Seq<char> {
    seq!['/'] + join(names, seq!['/'])
}

/// What counts among the pieces between slashes.
pub open spec fn counts() -> spec_fn(Seq<char>) -> bool {
    |piece: Seq<char>| piece.len() > 0 && piece != seq!['.']
}

proof fn lemma_only_components(pieces: Seq<Seq<char>>)
    ensures
        only_components(pieces) == pieces.filter(counts()),
    decreases pieces.len(),
{
    reveal(Seq::filter);
    reveal_strlit(".");
    assert("."@ =~= seq!['.']);
    if pieces.len() > 0 {
        lemma_only_components(pieces.drop_last());
    }
}

proof fn lemma_names_all_count(names: Seq<Seq<char>>)
    requires
        are_names(names),
    ensures
        names.filter(counts()) == names,
    decreases names.len(),
{
    reveal(Seq::filter);
    if names.len() > 0 {
        let front = names.drop_last();
        assert forall|i: int| 0 <= i < front.len() implies is_name(#[trigger] front[i]) by {
            assert(front[i] == names[i]);
        }
        lemma_names_all_count(front);
        assert(is_name(names[names.len() - 1]));
        assert(names.filter(counts()) =~= names);
    } else {
        assert(names.filter(counts()) =~= names);
    }
}

/// Of an absolute path, the root counts and what stands between slashes, less
/// what is empty or a single dot; of a relative one, the same without the
/// root, and a dot in front.
pub proof fn law_components_are_what_stands_between_slashes(pieces: Seq<Seq<char>>)
    requires
        pieces.len() > 0,
        forall|i: int| 0 <= i < pieces.len() ==> !(#[trigger] pieces[i]).contains('/'),
    ensures
        components(absolute(pieces)) == seq![seq!['/']] + pieces.filter(counts()),
        pieces[0].len() > 0 && pieces[0] != seq!['.'] ==> components(join(pieces, seq!['/']))
            == pieces.filter(counts()),
        pieces[0] == seq!['.'] ==> components(join(pieces, seq!['/'])) == seq![seq!['.']]
            + pieces.filter(counts()),
{
    reveal_strlit(".");
    reveal_strlit("/");
    assert("."@ =~= seq!['.']);
    assert("/"@ =~= seq!['/']);
    let empty = Seq::<char>::empty();
    let relative = join(pieces, seq!['/']);
    law_split_undoes_join(pieces, '/');
    lemma_only_components(pieces);
    law_splitting_goes_side_by_side(empty, relative, '/');
    assert(empty.push('/') + relative =~= absolute(pieces));
    assert(split(empty, '/') == seq![empty]);
    let all = seq![empty] + pieces;
    assert(split(absolute(pieces), '/') == all);
    lemma_only_components(all);
    lemma_filter_empty_front(pieces);
    assert(absolute(pieces)[0] == '/');
    if pieces[0].len() > 0 {
        assert(relative.len() > 0 && relative[0] == pieces[0][0]) by {
            lemma_join_first(pieces);
        }
        assert(relative[0] != '/') by {
            assert(!pieces[0].contains('/'));
            assert(pieces[0][0] != '/');
        }
        assert(Seq::<Seq<char>>::empty() + pieces.filter(counts()) =~= pieces.filter(counts()));
    }
}

proof fn lemma_join_first(pieces: Seq<Seq<char>>)
    requires
        pieces.len() > 0,
        pieces[0].len() > 0,
    ensures
        join(pieces, seq!['/']).len() > 0,
        join(pieces, seq!['/'])[0] == pieces[0][0],
    decreases pieces.len(),
{
    if pieces.len() > 1 {
        lemma_join_first(pieces.drop_last());
    }
}

proof fn lemma_filter_empty_front(pieces: Seq<Seq<char>>)
    ensures
        (seq![Seq::<char>::empty()] + pieces).filter(counts()) == pieces.filter(counts()),
    decreases pieces.len(),
{
    reveal(Seq::filter);
    let all = seq![Seq::<char>::empty()] + pieces;
    if pieces.len() == 0 {
        assert(all.drop_last() =~= Seq::<Seq<char>>::empty());
        assert(all.last() == Seq::<char>::empty());
        assert(Seq::<Seq<char>>::empty().filter(counts()) =~= Seq::<Seq<char>>::empty());
        assert(pieces =~= Seq::<Seq<char>>::empty());
        assert(all.filter(counts()) =~= pieces.filter(counts()));
    } else {
        lemma_filter_empty_front(pieces.drop_last());
        assert(all.drop_last() =~= seq![Seq::<char>::empty()] + pieces.drop_last());
        assert(all.last() == pieces.last());
    }
}

/// A path has as its components the names that it is written with.
proof fn lemma_components_of_names(names: Seq<Seq<char>>)
    requires
        are_names(names),
    ensures
        components(absolute(names)) == seq![seq!['/']] + names,
{
    lemma_names_all_count(names);
    if names.len() > 0 {
        assert forall|i: int| 0 <= i < names.len() implies !(#[trigger] names[i]).contains('/') by {
            assert(is_name(names[i]));
        }
        law_components_are_what_stands_between_slashes(names);
    } else {
        let one = seq![Seq::<char>::empty()];
        law_components_are_what_stands_between_slashes(one);
        reveal(Seq::filter);
        assert(one.drop_last() =~= Seq::<Seq<char>>::empty());
        assert(Seq::<Seq<char>>::empty().filter(counts()) =~= Seq::<Seq<char>>::empty());
        assert(names =~= Seq::<Seq<char>>::empty());
        assert(one.filter(counts()) =~= names);
        assert(absolute(one) =~= absolute(names));
    }
}

/// Paths written by names lead to the same place exactly if they are written
/// by the same names, and further slashes and dots between the names do not
/// matter.
pub proof fn law_same_place_means_same_names(
    a: Seq<Seq<char>>,
    b: Seq<Seq<char>>,
    pieces: Seq<Seq<char>>,
)
    requires
        are_names(a),
        are_names(b),
        pieces.len() > 0,
        forall|i: int| 0 <= i < pieces.len() ==> !(#[trigger] pieces[i]).contains('/'),
    ensures
        same_place(absolute(a), absolute(b)) <==> a == b,
        same_place(absolute(a), absolute(pieces)) <==> a == pieces.filter(counts()),
{
    lemma_components_of_names(a);
    lemma_components_of_names(b);
    law_components_are_what_stands_between_slashes(pieces);
    let root = seq![seq!['/']];
    lemma_same_tail(root, a, b);
    lemma_same_tail(root, a, pieces.filter(counts()));
}

proof fn lemma_same_tail(root: Seq<Seq<char>>, a: Seq<Seq<char>>, b: Seq<Seq<char>>)
    ensures
        root + a == root + b <==> a == b,
{
    if root + a == root + b {
        assert((root + a).skip(root.len() as int) =~= a);
        assert((root + b).skip(root.len() as int) =~= b);
    }
}

/// Being the same place is what components say, in either order and however
/// the paths are written.
pub proof fn law_same_place_is_an_equivalence(a: Seq<char>, b: Seq<char>, c: Seq<char>)
    ensures
        same_place(a, a),
        same_place(a, b) ==> same_place(b, a),
        same_place(a, b) && same_place(b, c) ==> same_place(a, c),
        same_place(a, b) <==> components(a) == components(b),
{
}

/// A path lies below another exactly if it is written with all of the other's
/// names and at least one more, however many more there are.
pub proof fn law_inside_means_more_names(root: Seq<Seq<char>>, path: Seq<Seq<char>>)
    requires
        are_names(root),
        are_names(path),
    ensures
        strictly_inside(absolute(path), absolute(root)) <==> root.len() < path.len() && path.take(
            root.len() as int,
        ) == root,
{
    lemma_components_of_names(root);
    lemma_components_of_names(path);
    let slash = seq![seq!['/']];
    let r = slash + root;
    let p = slash + path;
    if root.len() < path.len() {
        let front = p.subrange(0, r.len() as int);
        assert(front =~= slash + path.take(root.len() as int));
        lemma_same_tail(slash, root, path.take(root.len() as int));
    }
}

/// Whatever is written below a path, step by step, lies below it.
pub proof fn law_everything_below_is_inside(root: Seq<Seq<char>>, more: Seq<Seq<char>>)
    requires
        are_names(root),
        are_names(more),
        more.len() > 0,
    ensures
        strictly_inside(absolute(root + more), absolute(root)),
{
    let path = root + more;
    assert forall|i: int| 0 <= i < path.len() implies is_name(#[trigger] path[i]) by {
        if i < root.len() {
            assert(path[i] == root[i]);
        } else {
            assert(path[i] == more[i - root.len()]);
        }
    }
    assert(path.take(root.len() as int) =~= root);
    law_inside_means_more_names(root, path);
}

/// Being inside goes by components alone, whatever kind of path it is.
pub proof fn law_inside_goes_by_components(path: Seq<char>, root: Seq<char>)
    ensures
        strictly_inside(path, root) <==> exists|more: Seq<Seq<char>>|
            more.len() > 0 && components(path) == #[trigger] (components(root) + more),
{
    let p = components(path);
    let r = components(root);
    if strictly_inside(path, root) {
        let more = p.skip(r.len() as int);
        assert(p =~= p.subrange(0, r.len() as int) + more);
        assert(p == r + more);
    }
    if exists|more: Seq<Seq<char>>| more.len() > 0 && p == #[trigger] (r + more) {
        let more = choose|more: Seq<Seq<char>>| more.len() > 0 && p == #[trigger] (r + more);
        assert(p.subrange(0, r.len() as int) =~= r);
    }
}

/// What a path resolves to counts where it resolves, and the path itself
/// where it does not.
pub proof fn law_what_resolves_counts(raw: Seq<char>, resolved: Seq<char>)
    ensures
        crate::path::place_of(raw, Some(resolved)) == resolved,
        crate::path::place_of(raw, None) == raw,
{
}

} // verus!
