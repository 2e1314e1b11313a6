//! Facts about lexical normalization: its result is made only of the root
//! and plain names, and normalizing it again changes nothing.

use vstd::prelude::*;

use crate::path::{
    components, dot, dot_dot, file_name_of, has_root, is_sep, join_names, joined, normalize_fold, normalized,
    path_starts_with, piece_component, pieces_components, render, segments, split_state, ComponentView,
};

verus! {

/// A name a normalized path is made of: not empty, not `.` or `..`, and
/// without a separator.
pub open spec fn plain(n: Seq<char>) -> bool {
    &&& n.len() > 0
    &&& n != dot()
    &&& n != dot_dot()
    &&& forall|i: int| 0 <= i < n.len() ==> !is_sep(#[trigger] n[i])
}

pub open spec fn no_sep(n: Seq<char>) -> bool {
    forall|i: int| 0 <= i < n.len() ==> !is_sep(#[trigger] n[i])
}

/// The components of a root flag and a list of names.
pub open spec fn normal_components(root: bool, names: Seq<Seq<char>>) -> Seq<ComponentView> {
    let body = names.map_values(|n: Seq<char>| ComponentView::Normal(n));
    if root {
        seq![ComponentView::RootDir] + body
    } else {
        body
    }
}

proof fn lemma_split_state_no_sep(s: Seq<char>, t: Seq<char>)
    requires
        no_sep(t),
    ensures
        split_state(s + t) == (split_state(s).0, split_state(s).1 + t),
    decreases t.len(),
{
    if t.len() == 0 {
        assert(s + t =~= s);
        assert(split_state(s).1 + t =~= split_state(s).1);
    } else {
        let u = t.drop_last();
        assert(no_sep(u)) by {
            assert forall|i: int| 0 <= i < u.len() implies !is_sep(#[trigger] u[i]) by {
                assert(u[i] == t[i]);
            }
        }
        lemma_split_state_no_sep(s, u);
        assert((s + t).drop_last() =~= s + u);
        assert((s + t).last() == t[t.len() - 1]);
        assert(split_state(s).1 + u + seq![t.last()] =~= split_state(s).1 + t);
        assert((split_state(s).1 + u).push(t.last()) =~= split_state(s).1 + t);
    }
}

proof fn lemma_segments_of_join(names: Seq<Seq<char>>)
    requires
        names.len() > 0,
        forall|k: int| 0 <= k < names.len() ==> no_sep(#[trigger] names[k]),
    ensures
        segments(join_names(names)) == names,
    decreases names.len(),
{
    if names.len() == 1 {
        lemma_split_state_no_sep(Seq::empty(), names[0]);
        assert(Seq::<char>::empty() + names[0] =~= names[0]);
        assert(Seq::<char>::empty() + names[0] =~= names[0]);
        assert(segments(names[0]) =~= names);
    } else {
        let rest = names.drop_last();
        assert(forall|k: int| 0 <= k < rest.len() ==> no_sep(#[trigger] rest[k])) by {
            assert forall|k: int| 0 <= k < rest.len() implies no_sep(#[trigger] rest[k]) by {
                assert(rest[k] == names[k]);
            }
        }
        lemma_segments_of_join(rest);
        let head = join_names(rest) + seq!['/'];
        assert(no_sep(names.last())) by {
            assert(names.last() == names[names.len() - 1]);
        }
        lemma_split_state_no_sep(head, names.last());
        assert(head.drop_last() =~= join_names(rest));
        assert(split_state(head) == (split_state(join_names(rest)).0.push(split_state(join_names(rest)).1), Seq::<char>::empty()));
        assert(Seq::<char>::empty() + names.last() =~= names.last());
        assert(join_names(names) == head + names.last());
        assert(segments(join_names(names)) =~= segments(join_names(rest)).push(names.last()));
        assert(rest.push(names.last()) =~= names);
    }
}

proof fn lemma_pieces_of_plain(names: Seq<Seq<char>>)
    requires
        forall|k: int| 0 <= k < names.len() ==> plain(#[trigger] names[k]),
    ensures
        pieces_components(names) == names.map_values(|n: Seq<char>| ComponentView::Normal(n)),
    decreases names.len(),
{
    if names.len() > 0 {
        let rest = names.drop_last();
        assert forall|k: int| 0 <= k < rest.len() implies plain(#[trigger] rest[k]) by {
            assert(rest[k] == names[k]);
        }
        lemma_pieces_of_plain(rest);
        assert(plain(names[names.len() - 1]));
        assert(piece_component(names.last()) == Some(ComponentView::Normal(names.last())));
        assert(names.map_values(|n: Seq<char>| ComponentView::Normal(n)) =~= rest.map_values(
            |n: Seq<char>| ComponentView::Normal(n),
        ).push(ComponentView::Normal(names.last())));
    } else {
        assert(names.map_values(|n: Seq<char>| ComponentView::Normal(n)) =~= Seq::<ComponentView>::empty());
    }
}

proof fn lemma_segments_of_empty()
    ensures
        segments(Seq::<char>::empty()) == seq![Seq::<char>::empty()],
        pieces_components(seq![Seq::<char>::empty()]) == Seq::<ComponentView>::empty(),
{
    assert(seq![Seq::<char>::empty()].drop_last() =~= Seq::<Seq<char>>::empty());
    assert(Seq::<Seq<char>>::empty().push(Seq::<char>::empty()) =~= seq![Seq::<char>::empty()]);
    assert(pieces_components(Seq::<Seq<char>>::empty()) == Seq::<ComponentView>::empty());
    assert(piece_component(seq![Seq::<char>::empty()].last()) is None);
}

/// A root flag and plain names render to text whose components are exactly
/// those.
proof fn lemma_components_of_render(root: bool, names: Seq<Seq<char>>)
    requires
        forall|k: int| 0 <= k < names.len() ==> plain(#[trigger] names[k]),
    ensures
        components(render(root, names)) == normal_components(root, names),
{
    let body = names.map_values(|n: Seq<char>| ComponentView::Normal(n));
    assert(forall|k: int| 0 <= k < names.len() ==> no_sep(#[trigger] names[k])) by {
        assert forall|k: int| 0 <= k < names.len() implies no_sep(#[trigger] names[k]) by {
            assert(plain(names[k]));
        }
    }
    lemma_pieces_of_plain(names);
    lemma_segments_of_empty();
    let j = join_names(names);
    if names.len() > 0 {
        lemma_segments_of_join(names);
    } else {
        assert(body =~= Seq::<ComponentView>::empty());
    }
    if root {
        let r = seq!['/'] + j;
        assert(has_root(r));
        assert(r.skip(1) =~= j);
        if names.len() == 0 {
            assert(j =~= Seq::<char>::empty());
        }
        assert(components(r) =~= seq![ComponentView::RootDir] + body);
    } else {
        if names.len() == 0 {
            assert(j =~= Seq::<char>::empty());
            assert(!has_root(j));
            assert(segments(j)[0] != dot()) by {
                assert(dot().len() == 1);
            }
        } else {
            assert(plain(names[0]));
            lemma_join_starts_with_first(names);
            assert(!has_root(j));
            assert(segments(j)[0] == names[0]);
        }
        assert(components(j) =~= body);
    }
}

proof fn lemma_join_starts_with_first(names: Seq<Seq<char>>)
    requires
        names.len() > 0,
        names[0].len() > 0,
    ensures
        join_names(names).len() > 0,
        join_names(names)[0] == names[0][0],
    decreases names.len(),
{
    if names.len() > 1 {
        lemma_join_starts_with_first(names.drop_last());
        assert(names.drop_last()[0] == names[0]);
    }
}

/// Folding a root flag and plain names gives them back.
proof fn lemma_fold_of_normal(root: bool, names: Seq<Seq<char>>)
    ensures
        normalize_fold(normal_components(root, names)) == (root, names),
    decreases names.len(),
{
    let cs = normal_components(root, names);
    if names.len() == 0 {
        if root {
            assert(cs =~= seq![ComponentView::RootDir]);
            assert(cs.drop_last() =~= Seq::<ComponentView>::empty());
        } else {
            assert(cs =~= Seq::<ComponentView>::empty());
        }
        assert(names =~= Seq::<Seq<char>>::empty());
    } else {
        let rest = names.drop_last();
        lemma_fold_of_normal(root, rest);
        assert(cs.drop_last() =~= normal_components(root, rest));
        assert(cs.last() == ComponentView::Normal(names.last()));
        assert(rest.push(names.last()) =~= names);
    }
}

/// Every name a path's components carry is plain.
proof fn lemma_split_state_pieces(s: Seq<char>)
    ensures
        forall|k: int| 0 <= k < split_state(s).0.len() ==> no_sep(#[trigger] split_state(s).0[k]),
        no_sep(split_state(s).1),
    decreases s.len(),
{
    if s.len() > 0 {
        lemma_split_state_pieces(s.drop_last());
        let (done, cur) = split_state(s.drop_last());
        if is_sep(s.last()) {
            assert forall|k: int| 0 <= k < split_state(s).0.len() implies no_sep(#[trigger] split_state(s).0[k]) by {
                if k < done.len() {
                    assert(split_state(s).0[k] == done[k]);
                } else {
                    assert(split_state(s).0[k] == cur);
                }
            }
        } else {
            assert forall|i: int| 0 <= i < cur.push(s.last()).len() implies !is_sep(#[trigger] cur.push(s.last())[i]) by {
                if i < cur.len() {
                    assert(cur.push(s.last())[i] == cur[i]);
                }
            }
        }
    }
}

pub open spec fn normals_plain(cs: Seq<ComponentView>) -> bool {
    forall|k: int| 0 <= k < cs.len() ==> (#[trigger] cs[k] matches ComponentView::Normal(n) ==> plain(n))
}

proof fn lemma_pieces_components_plain(pieces: Seq<Seq<char>>)
    requires
        forall|k: int| 0 <= k < pieces.len() ==> no_sep(#[trigger] pieces[k]),
    ensures
        normals_plain(pieces_components(pieces)),
    decreases pieces.len(),
{
    if pieces.len() > 0 {
        let rest = pieces.drop_last();
        assert forall|k: int| 0 <= k < rest.len() implies no_sep(#[trigger] rest[k]) by {
            assert(rest[k] == pieces[k]);
        }
        lemma_pieces_components_plain(rest);
        let prev = pieces_components(rest);
        assert(no_sep(pieces[pieces.len() - 1]));
        match piece_component(pieces.last()) {
            Some(c) => {
                assert forall|k: int| 0 <= k < prev.push(c).len() implies (#[trigger] prev.push(c)[k] matches ComponentView::Normal(n) ==> plain(n)) by {
                    if k < prev.len() {
                        assert(prev.push(c)[k] == prev[k]);
                    }
                }
            },
            None => {},
        }
    }
}

proof fn lemma_components_plain(p: Seq<char>)
    ensures
        normals_plain(components(p)),
{
    let s = if has_root(p) {
        p.skip(1)
    } else {
        p
    };
    lemma_split_state_pieces(s);
    let segs = segments(s);
    assert forall|k: int| 0 <= k < segs.len() implies no_sep(#[trigger] segs[k]) by {
        if k < split_state(s).0.len() {
            assert(segs[k] == split_state(s).0[k]);
        } else {
            assert(segs[k] == split_state(s).1);
        }
    }
    if has_root(p) {
        lemma_pieces_components_plain(segs);
        let pc = pieces_components(segs);
        assert forall|k: int| 0 <= k < components(p).len() implies (#[trigger] components(p)[k] matches ComponentView::Normal(n) ==> plain(n)) by {
            if k > 0 {
                assert(components(p)[k] == pc[k - 1]);
            }
        }
    } else if segs[0] == dot() {
        let tail = segs.skip(1);
        assert forall|k: int| 0 <= k < tail.len() implies no_sep(#[trigger] tail[k]) by {
            assert(tail[k] == segs[k + 1]);
        }
        lemma_pieces_components_plain(tail);
        let pc = pieces_components(tail);
        assert forall|k: int| 0 <= k < components(p).len() implies (#[trigger] components(p)[k] matches ComponentView::Normal(n) ==> plain(n)) by {
            if k > 0 {
                assert(components(p)[k] == pc[k - 1]);
            }
        }
    } else {
        lemma_pieces_components_plain(segs);
    }
}

proof fn lemma_fold_plain(cs: Seq<ComponentView>)
    requires
        normals_plain(cs),
    ensures
        forall|k: int| 0 <= k < normalize_fold(cs).1.len() ==> plain(#[trigger] normalize_fold(cs).1[k]),
    decreases cs.len(),
{
    if cs.len() > 0 {
        let rest = cs.drop_last();
        assert forall|k: int| 0 <= k < rest.len() implies (#[trigger] rest[k] matches ComponentView::Normal(n) ==> plain(n)) by {
            assert(rest[k] == cs[k]);
        }
        lemma_fold_plain(rest);
        let (root, stack) = normalize_fold(rest);
        let last = cs[cs.len() - 1];
        match last {
            ComponentView::Normal(n) => {
                assert(plain(n));
                assert forall|k: int| 0 <= k < stack.push(n).len() implies plain(#[trigger] stack.push(n)[k]) by {
                    if k < stack.len() {
                        assert(stack.push(n)[k] == stack[k]);
                    }
                }
            },
            ComponentView::ParentDir => {
                if stack.len() > 0 {
                    assert forall|k: int| 0 <= k < stack.drop_last().len() implies plain(#[trigger] stack.drop_last()[k]) by {
                        assert(stack.drop_last()[k] == stack[k]);
                    }
                }
            },
            _ => {},
        }
    }
}

/// A normalized path is the root, if any, followed by plain names: no `.`,
/// no `..` and no empty name is left.
pub proof fn lemma_normalized_is_plain(p: Seq<char>)
    ensures
        components(normalized(p)) == normal_components(
            normalize_fold(components(p)).0,
            normalize_fold(components(p)).1,
        ),
        forall|k: int|
            0 <= k < normalize_fold(components(p)).1.len() ==> plain(#[trigger] normalize_fold(components(p)).1[k]),
{
    lemma_components_plain(p);
    lemma_fold_plain(components(p));
    lemma_components_of_render(normalize_fold(components(p)).0, normalize_fold(components(p)).1);
}

/// Normalizing is idempotent: a normalized path normalizes to itself.
pub proof fn lemma_normalize_idempotent(p: Seq<char>)
    ensures
        normalized(normalized(p)) == normalized(p),
{
    let (root, names) = normalize_fold(components(p));
    lemma_normalized_is_plain(p);
    lemma_fold_of_normal(root, names);
}

/// The final name of a path, when it has one, is plain.
pub proof fn lemma_file_name_plain(p: Seq<char>)
    ensures
        file_name_of(p) matches Some(n) ==> plain(n),
{
    lemma_components_plain(p);
    let cs = components(p);
    if cs.len() > 0 && cs.last() is Normal {
        assert(cs[cs.len() - 1] == cs.last());
    }
}

/// The components pieces give, one piece more.
proof fn lemma_pieces_push(pieces: Seq<Seq<char>>, x: Seq<char>)
    ensures
        pieces_components(pieces.push(x)) == match piece_component(x) {
            Some(c) => pieces_components(pieces).push(c),
            None => pieces_components(pieces),
        },
{
    assert(pieces.push(x).drop_last() =~= pieces);
}

/// Text that is empty or ends with a separator leaves an empty last piece,
/// which a plain name appended without a separator takes the place of.
proof fn lemma_segments_child_after_sep(s: Seq<char>, name: Seq<char>)
    requires
        no_sep(name),
        s.len() == 0 || is_sep(s.last()),
    ensures
        segments(s).last() == Seq::<char>::empty(),
        segments(s + name) == segments(s).drop_last().push(name),
{
    let done = split_state(s).0;
    assert(split_state(s).1 == Seq::<char>::empty());
    lemma_split_state_no_sep(s, name);
    assert(Seq::<char>::empty() + name =~= name);
    assert(done.push(Seq::<char>::empty()).drop_last() =~= done);
}

/// Text that does not end with a separator keeps its last piece, and a plain
/// name appended after a separator is one piece more.
proof fn lemma_segments_child_with_sep(s: Seq<char>, name: Seq<char>)
    requires
        no_sep(name),
    ensures
        segments(s + seq!['/'] + name) == segments(s).push(name),
{
    let sp = s.push('/');
    assert(sp.drop_last() =~= s);
    assert(split_state(sp) == (segments(s), Seq::<char>::empty()));
    lemma_split_state_no_sep(sp, name);
    assert(s + seq!['/'] + name =~= sp + name);
    assert(Seq::<char>::empty() + name =~= name);
}

/// Appending a plain name to `s`: the pieces gain the name, after dropping
/// the empty piece a trailing separator (or the empty text) leaves.
proof fn lemma_segments_child(s: Seq<char>, name: Seq<char>)
    requires
        plain(name),
    ensures
        segments(s).len() > 0,
        (s.len() == 0 || is_sep(s.last())) ==> segments(s).last() == Seq::<char>::empty()
            && segments(joined(s, name)) == segments(s).drop_last().push(name),
        !(s.len() == 0 || is_sep(s.last())) ==> segments(joined(s, name)) == segments(s).push(name),
        pieces_components(segments(joined(s, name))) == pieces_components(segments(s)).push(
            ComponentView::Normal(name),
        ),
{
    assert(!has_root(name));
    assert(no_sep(name));
    assert(piece_component(name) == Some(ComponentView::Normal(name)));
    let sg = segments(s);
    if s.len() == 0 || is_sep(s.last()) {
        lemma_segments_child_after_sep(s, name);
        let d = sg.drop_last();
        assert(sg =~= d.push(Seq::<char>::empty()));
        lemma_pieces_push(d, Seq::<char>::empty());
        lemma_pieces_push(d, name);
    } else {
        lemma_segments_child_with_sep(s, name);
        lemma_pieces_push(sg, name);
    }
}

/// Appending a plain name to a path adds exactly that name to its components.
pub proof fn lemma_components_of_child(t: Seq<char>, name: Seq<char>)
    requires
        plain(name),
    ensures
        components(joined(t, name)) == components(t).push(ComponentView::Normal(name)),
{
    let c = joined(t, name);
    let n = ComponentView::Normal(name);
    assert(!has_root(name));
    if has_root(t) {
        let u = t.skip(1);
        if is_sep(t.last()) {
            assert(c == t + name);
            if t.len() == 1 {
                assert(u.len() == 0);
                assert(c.skip(1) =~= joined(u, name));
            } else {
                assert(u.last() == t.last());
                assert(c.skip(1) =~= joined(u, name));
            }
        } else {
            assert(t.len() > 1);
            assert(u.last() == t.last());
            assert(c.skip(1) =~= joined(u, name));
        }
        assert(c[0] == t[0]);
        lemma_segments_child(u, name);
        assert(components(c) == seq![ComponentView::RootDir] + pieces_components(segments(joined(u, name))));
        assert(seq![ComponentView::RootDir] + pieces_components(segments(u)).push(n) =~= (seq![ComponentView::RootDir]
            + pieces_components(segments(u))).push(n));
    } else {
        lemma_segments_child(t, name);
        let sg = segments(t);
        let cg = segments(c);
        let dropped = t.len() == 0 || is_sep(t.last());
        if t.len() > 0 {
            assert(c[0] == t[0]);
        } else {
            assert(c == name);
        }
        assert(!has_root(c));
        if sg[0] == dot() {
            assert(t.len() > 0) by {
                if t.len() == 0 {
                    assert(sg == seq![Seq::<char>::empty()]) by {
                        assert(sg =~= seq![Seq::<char>::empty()]);
                    }
                }
            }
            if dropped {
                assert(sg.len() >= 2) by {
                    if sg.len() == 1 {
                        assert(sg.last() == sg[0]);
                    }
                }
                assert(cg[0] == sg[0]);
                let x = sg.drop_last().skip(1);
                assert(cg.skip(1) =~= x.push(name));
                assert(sg.skip(1) =~= x.push(Seq::<char>::empty()));
                assert(x.push(name).drop_last() =~= x);
                assert(x.push(Seq::<char>::empty()).drop_last() =~= x);
                assert(piece_component(Seq::<char>::empty()) is None);
                assert(pieces_components(sg.skip(1)) == pieces_components(x));
                assert(pieces_components(cg.skip(1)) == pieces_components(x).push(n));
            } else {
                assert(cg[0] == sg[0]);
                let x = sg.skip(1);
                assert(cg.skip(1) =~= x.push(name));
                assert(x.push(name).drop_last() =~= x);
                assert(pieces_components(cg.skip(1)) == pieces_components(x).push(n));
            }
            assert(seq![ComponentView::CurDir] + pieces_components(sg.skip(1)).push(n) =~= (seq![ComponentView::CurDir]
                + pieces_components(sg.skip(1))).push(n));
        } else {
            if dropped && sg.len() == 1 {
                assert(cg =~= seq![name]);
                assert(cg[0] == name);
            } else {
                assert(cg[0] == sg[0]);
            }
            assert(cg[0] != dot());
        }
    }
}

/// A plain name appended to a path inside `root` stays inside `root`.
pub proof fn lemma_child_stays_under(t: Seq<char>, root: Seq<char>, name: Seq<char>)
    requires
        plain(name),
        path_starts_with(t, root),
    ensures
        path_starts_with(joined(t, name), root),
{
    lemma_components_of_child(t, name);
    let k = components(root).len() as int;
    assert(components(t).push(ComponentView::Normal(name)).take(k) =~= components(t).take(k));
}

} // verus!
