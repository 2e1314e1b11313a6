//! A model of Unix paths as text, with the component view the rest of the
//! crate reasons about: a leading `/` is the root, `/` separates pieces, empty
//! pieces and inner `.` pieces vanish, and a leading `.` of a relative path is
//! kept as the current directory.

use vstd::prelude::*;

use crate::text::{chars_of, string_from_chars};

verus! {

/// One component of a path, as seen by the boundary checks.
#[derive(Debug, Clone, PartialEq, Eq)]
pub enum Component {
    RootDir,
    CurDir,
    ParentDir,
    Normal(Vec<char>),
}

/// The mathematical counterpart of [`Component`].
pub enum ComponentView {
    RootDir,
    CurDir,
    ParentDir,
    Normal(Seq<char>),
}

impl View for Component {
    type V = ComponentView;

    open spec fn view(&self) -> ComponentView {
        match self {
            Component::RootDir => ComponentView::RootDir,
            Component::CurDir => ComponentView::CurDir,
            Component::ParentDir => ComponentView::ParentDir,
            Component::Normal(name) => ComponentView::Normal(name@),
        }
    }
}

pub open spec fn is_sep(c: char) -> bool {
    c == '/'
}

/// Splitting `s` on `/`: the pieces completed so far and the piece in progress.
pub open spec fn split_state(s: Seq<char>) -> (Seq<Seq<char>>, Seq<char>)
    decreases s.len(),
{
    if s.len() == 0 {
        (Seq::empty(), Seq::empty())
    } else {
        let (done, cur) = split_state(s.drop_last());
        if is_sep(s.last()) {
            (done.push(cur), Seq::empty())
        } else {
            (done, cur.push(s.last()))
        }
    }
}

/// The `/`-separated pieces of `s`; there is always at least one.
pub open spec fn segments(s: Seq<char>) -> Seq<Seq<char>> {
    split_state(s).0.push(split_state(s).1)
}

pub open spec fn dot() -> Seq<char> {
    seq!['.']
}

pub open spec fn dot_dot() -> Seq<char> {
    seq!['.', '.']
}

/// The component a piece contributes, if any: empty and `.` pieces vanish.
pub open spec fn piece_component(piece: Seq<char>) -> Option<ComponentView> {
    if piece.len() == 0 || piece == dot() {
        None
    } else if piece == dot_dot() {
        Some(ComponentView::ParentDir)
    } else {
        Some(ComponentView::Normal(piece))
    }
}

pub open spec fn pieces_components(pieces: Seq<Seq<char>>) -> Seq<ComponentView>
    decreases pieces.len(),
{
    if pieces.len() == 0 {
        Seq::empty()
    } else {
        let prev = pieces_components(pieces.drop_last());
        match piece_component(pieces.last()) {
            Some(c) => prev.push(c),
            None => prev,
        }
    }
}

pub open spec fn has_root(p: Seq<char>) -> bool {
    p.len() > 0 && is_sep(p[0])
}

/// The components of `p`, in order.
pub open spec fn components(p: Seq<char>) -> Seq<ComponentView> {
    if has_root(p) {
        seq![ComponentView::RootDir] + pieces_components(segments(p.skip(1)))
    } else if segments(p)[0] == dot() {
        seq![ComponentView::CurDir] + pieces_components(segments(p).skip(1))
    } else {
        pieces_components(segments(p))
    }
}

/// Folding components the way `.`/`..` resolution does: whether a root was
/// seen, and the stack of names above it.
pub open spec fn normalize_fold(comps: Seq<ComponentView>) -> (bool, Seq<Seq<char>>)
    decreases comps.len(),
{
    if comps.len() == 0 {
        (false, Seq::empty())
    } else {
        let (root, stack) = normalize_fold(comps.drop_last());
        match comps.last() {
            ComponentView::RootDir => (true, Seq::empty()),
            ComponentView::CurDir => (root, stack),
            ComponentView::ParentDir => (
                root,
                if stack.len() > 0 {
                    stack.drop_last()
                } else {
                    stack
                },
            ),
            ComponentView::Normal(name) => (root, stack.push(name)),
        }
    }
}

/// `names` joined by `/`.
pub open spec fn join_names(names: Seq<Seq<char>>) -> Seq<char>
    decreases names.len(),
{
    if names.len() == 0 {
        Seq::empty()
    } else if names.len() == 1 {
        names[0]
    } else {
        join_names(names.drop_last()) + seq!['/'] + names.last()
    }
}

/// The text of a root flag and a stack of names.
pub open spec fn render(root: bool, names: Seq<Seq<char>>) -> Seq<char> {
    if root {
        seq!['/'] + join_names(names)
    } else {
        join_names(names)
    }
}

/// `p` with `.` and `..` resolved lexically, without the filesystem.
pub open spec fn normalized(p: Seq<char>) -> Seq<char> {
    render(normalize_fold(components(p)).0, normalize_fold(components(p)).1)
}

/// Appending `rel` to `base`: an absolute `rel` replaces `base`, and a
/// separator is inserted unless `base` is empty or already ends with one.
pub open spec fn joined(base: Seq<char>, rel: Seq<char>) -> Seq<char> {
    if has_root(rel) {
        rel
    } else if base.len() == 0 || is_sep(base.last()) {
        base + rel
    } else {
        base + seq!['/'] + rel
    }
}

/// Component-wise prefix: `base`'s components lead `p`'s.
pub open spec fn path_starts_with(p: Seq<char>, base: Seq<char>) -> bool {
    components(base).len() <= components(p).len()
        && components(p).take(components(base).len() as int) == components(base)
}

/// The final component when it is a name.
pub open spec fn file_name_of(p: Seq<char>) -> Option<Seq<char>> {
    let comps = components(p);
    if comps.len() > 0 && comps.last() is Normal {
        Some(comps.last()->Normal_0)
    } else {
        None
    }
}

/// The text of one component.
pub open spec fn component_text(c: ComponentView) -> Seq<char> {
    match c {
        ComponentView::RootDir => seq!['/'],
        ComponentView::CurDir => dot(),
        ComponentView::ParentDir => dot_dot(),
        ComponentView::Normal(name) => name,
    }
}

/// The text of a component sequence, a separator between all but a leading root.
pub open spec fn comps_text(comps: Seq<ComponentView>) -> Seq<char>
    decreases comps.len(),
{
    if comps.len() == 0 {
        Seq::empty()
    } else {
        joined(comps_text(comps.drop_last()), component_text(comps.last()))
    }
}

/// The path without its final component, when that component is not the root.
pub open spec fn parent_of(p: Seq<char>) -> Option<Seq<char>> {
    let comps = components(p);
    if comps.len() > 0 && !(comps.last() is RootDir) {
        Some(comps_text(comps.drop_last()))
    } else {
        None
    }
}

proof fn lemma_split_state_skip(s: Seq<char>, i: int)
    requires
        0 <= i < s.len(),
    ensures
        s.take(i + 1).drop_last() == s.take(i),
        s.take(i + 1).last() == s[i],
{
    assert(s.take(i + 1).drop_last() =~= s.take(i));
}

/// Splits `s[start..]` on `/`.
fn split_segments(s: &Vec<char>, start: usize) -> (res: Vec<Vec<char>>)
    requires
        start <= s.len(),
    ensures
        res.len() == segments(s@.skip(start as int)).len(),
        forall|k: int| 0 <= k < res.len() ==> #[trigger] res[k]@ == segments(s@.skip(start as int))[k],
{
    let ghost t = s@.skip(start as int);
    let mut done: Vec<Vec<char>> = Vec::new();
    let mut cur: Vec<char> = Vec::new();
    let mut i: usize = start;
    while i < s.len()
        invariant
            start <= i <= s.len(),
            t == s@.skip(start as int),
            done.len() == split_state(t.take(i - start)).0.len(),
            forall|k: int| 0 <= k < done.len() ==> #[trigger] done[k]@ == split_state(t.take(i - start)).0[k],
            cur@ == split_state(t.take(i - start)).1,
        decreases s.len() - i,
    {
        proof {
            lemma_split_state_skip(t, i - start);
        }
        let c = s[i];
        if c == '/' {
            done.push(cur);
            cur = Vec::new();
        } else {
            cur.push(c);
        }
        i = i + 1;
    }
    assert(t.take(i - start) =~= t);
    done.push(cur);
    done
}

/// The component a piece contributes, if any.
fn component_of_piece(piece: Vec<char>) -> (res: Option<Component>)
    ensures
        match piece_component(piece@) {
            Some(c) => res is Some && res->0@ == c,
            None => res is None,
        },
{
    if piece.len() == 0 {
        None
    } else if piece.len() == 1 && piece[0] == '.' {
        assert(piece@ =~= dot());
        None
    } else if piece.len() == 2 && piece[0] == '.' && piece[1] == '.' {
        assert(piece@ =~= dot_dot());
        Some(Component::ParentDir)
    } else {
        assert(piece@ != dot());
        assert(piece@ != dot_dot());
        Some(Component::Normal(piece))
    }
}

/// Appends the components of `pieces[from..]` to `out`.
fn push_piece_components(out: &mut Vec<Component>, pieces: Vec<Vec<char>>, from: usize, ghost_pieces: Ghost<Seq<Seq<char>>>)
    requires
        from <= pieces.len(),
        ghost_pieces@.len() == pieces.len(),
        forall|k: int| 0 <= k < pieces.len() ==> #[trigger] pieces[k]@ == ghost_pieces@[k],
    ensures
        final(out)@.len() == old(out)@.len() + pieces_components(ghost_pieces@.skip(from as int)).len(),
        forall|k: int| 0 <= k < old(out)@.len() ==> #[trigger] final(out)@[k] == old(out)@[k],
        forall|k: int|
            0 <= k < pieces_components(ghost_pieces@.skip(from as int)).len() ==> #[trigger] final(out)@[old(out)@.len() + k]@
                == pieces_components(ghost_pieces@.skip(from as int))[k],
{
    let ghost g = ghost_pieces@.skip(from as int);
    let ghost base = old(out)@;
    let mut i: usize = from;
    while i < pieces.len()
        invariant
            from <= i <= pieces.len(),
            g == ghost_pieces@.skip(from as int),
            ghost_pieces@.len() == pieces.len(),
            forall|k: int| 0 <= k < pieces.len() ==> #[trigger] pieces[k]@ == ghost_pieces@[k],
            out@.len() == base.len() + pieces_components(g.take(i - from)).len(),
            forall|k: int| 0 <= k < base.len() ==> #[trigger] out@[k] == base[k],
            forall|k: int|
                0 <= k < pieces_components(g.take(i - from)).len() ==> #[trigger] out@[base.len() + k]@
                    == pieces_components(g.take(i - from))[k],
        decreases pieces.len() - i,
    {
        let ghost before = pieces_components(g.take(i - from));
        assert(g.take(i - from + 1).drop_last() =~= g.take(i - from));
        assert(g.take(i - from + 1).last() == ghost_pieces@[i as int]);
        let piece = pieces[i].clone();
        assert(piece@ == ghost_pieces@[i as int]);
        match component_of_piece(piece) {
            Some(c) => {
                out.push(c);
            },
            None => {},
        }
        i = i + 1;
    }
    assert(g.take(i - from) =~= g);
}

/// The components of `p`, in order.
pub fn path_components(p: &Vec<char>) -> (res: Vec<Component>)
    ensures
        res@.len() == components(p@).len(),
        forall|k: int| 0 <= k < res@.len() ==> #[trigger] res@[k]@ == components(p@)[k],
{
    let mut out: Vec<Component> = Vec::new();
    if p.len() > 0 && p[0] == '/' {
        out.push(Component::RootDir);
        let pieces = split_segments(p, 1);
        let ghost gp = segments(p@.skip(1));
        push_piece_components(&mut out, pieces, 0, Ghost(gp));
        assert(gp.skip(0) =~= gp);
        let ghost expect = components(p@);
        assert(expect =~= seq![ComponentView::RootDir] + pieces_components(gp));
        assert forall|k: int| 0 <= k < out@.len() implies #[trigger] out@[k]@ == components(p@)[k] by {
            if k > 0 {
                assert(out@[1 + (k - 1)]@ == pieces_components(gp)[k - 1]);
            }
        }
        out
    } else {
        let pieces = split_segments(p, 0);
        let ghost gp = segments(p@.skip(0));
        assert(p@.skip(0) =~= p@);
        let first_is_dot = pieces[0].len() == 1 && pieces[0][0] == '.';
        if first_is_dot {
            assert(pieces[0]@ =~= dot());
            out.push(Component::CurDir);
            push_piece_components(&mut out, pieces, 1, Ghost(gp));
            let ghost expect = components(p@);
            assert(expect =~= seq![ComponentView::CurDir] + pieces_components(gp.skip(1)));
            assert forall|k: int| 0 <= k < out@.len() implies #[trigger] out@[k]@ == components(p@)[k] by {
                if k > 0 {
                    assert(out@[1 + (k - 1)]@ == pieces_components(gp.skip(1))[k - 1]);
                }
            }
            out
        } else {
            assert(pieces[0]@ != dot());
            push_piece_components(&mut out, pieces, 0, Ghost(gp));
            assert(gp.skip(0) =~= gp);
            assert forall|k: int| 0 <= k < out@.len() implies #[trigger] out@[k]@ == components(p@)[k] by {
                assert(out@[0 + k]@ == pieces_components(gp)[k]);
            }
            out
        }
    }
}

/// Whether two character sequences are equal.
pub fn chars_eq(a: &Vec<char>, b: &Vec<char>) -> (res: bool)
    ensures
        res == (a@ == b@),
{
    if a.len() != b.len() {
        return false;
    }
    let mut i: usize = 0;
    while i < a.len()
        invariant
            a.len() == b.len(),
            0 <= i <= a.len(),
            forall|k: int| 0 <= k < i ==> a@[k] == b@[k],
        decreases a.len() - i,
    {
        if a[i] != b[i] {
            return false;
        }
        i = i + 1;
    }
    assert(a@ =~= b@);
    true
}

/// Whether two components are the same.
fn component_eq(a: &Component, b: &Component) -> (res: bool)
    ensures
        res == (a@ == b@),
{
    match (a, b) {
        (Component::RootDir, Component::RootDir) => true,
        (Component::CurDir, Component::CurDir) => true,
        (Component::ParentDir, Component::ParentDir) => true,
        (Component::Normal(x), Component::Normal(y)) => chars_eq(x, y),
        _ => false,
    }
}

/// Appends `extra` to `out`.
fn append_chars(out: &mut Vec<char>, extra: &Vec<char>)
    ensures
        final(out)@ == old(out)@ + extra@,
{
    let mut i: usize = 0;
    while i < extra.len()
        invariant
            0 <= i <= extra.len(),
            out@ == old(out)@ + extra@.take(i as int),
        decreases extra.len() - i,
    {
        out.push(extra[i]);
        i = i + 1;
        assert(old(out)@ + extra@.take(i as int) =~= old(out)@ + extra@.take(i - 1) + seq![extra@[i - 1]]);
    }
    assert(extra@.take(i as int) =~= extra@);
}

/// The text of a root flag and a stack of names.
pub(crate) fn render_chars(root: bool, stack: &Vec<Vec<char>>) -> (res: Vec<char>)
    ensures
        res@ == render(root, stack@.map_values(|n: Vec<char>| n@)),
{
    let ghost names = stack@.map_values(|n: Vec<char>| n@);
    let mut out: Vec<char> = Vec::new();
    if root {
        out.push('/');
    }
    let ghost lead: Seq<char> = if root { seq!['/'] } else { Seq::empty() };
    assert(out@ =~= lead + join_names(names.take(0)));
    let mut j: usize = 0;
    while j < stack.len()
        invariant
            0 <= j <= stack.len(),
            names == stack@.map_values(|n: Vec<char>| n@),
            lead == (if root { seq!['/'] } else { Seq::<char>::empty() }),
            out@ == lead + join_names(names.take(j as int)),
        decreases stack.len() - j,
    {
        assert(names.take(j + 1).drop_last() =~= names.take(j as int));
        assert(names.take(j + 1).last() == stack[j as int]@);
        if j > 0 {
            out.push('/');
        }
        append_chars(&mut out, &stack[j]);
        j = j + 1;
        if j == 1 {
            assert(out@ =~= lead + join_names(names.take(j as int)));
        } else {
            assert(out@ =~= lead + join_names(names.take(j as int)));
        }
    }
    assert(names.take(j as int) =~= names);
    out
}

/// `path` with `.` and `..` resolved lexically, so a target can be checked
/// against a boundary before it exists.
pub fn normalize(path: &str) -> (res: String)
    ensures
        res@ == normalized(path@),
{
    let chars = chars_of(path);
    let comps = path_components(&chars);
    let ghost gc = components(path@);
    let mut root = false;
    let mut stack: Vec<Vec<char>> = Vec::new();
    let mut i: usize = 0;
    while i < comps.len()
        invariant
            0 <= i <= comps.len(),
            gc == components(path@),
            comps@.len() == gc.len(),
            forall|k: int| 0 <= k < comps@.len() ==> #[trigger] comps@[k]@ == gc[k],
            root == normalize_fold(gc.take(i as int)).0,
            stack@.map_values(|n: Vec<char>| n@) == normalize_fold(gc.take(i as int)).1,
        decreases comps.len() - i,
    {
        assert(gc.take(i + 1).drop_last() =~= gc.take(i as int));
        assert(gc.take(i + 1).last() == comps@[i as int]@);
        let ghost prev = stack@.map_values(|n: Vec<char>| n@);
        match &comps[i] {
            Component::RootDir => {
                root = true;
                stack = Vec::new();
                assert(stack@.map_values(|n: Vec<char>| n@) =~= Seq::<Seq<char>>::empty());
            },
            Component::CurDir => {},
            Component::ParentDir => {
                if stack.len() > 0 {
                    stack.pop();
                    assert(stack@.map_values(|n: Vec<char>| n@) =~= prev.drop_last());
                }
            },
            Component::Normal(name) => {
                stack.push(name.clone());
                assert(stack@.map_values(|n: Vec<char>| n@) =~= prev.push(comps@[i as int]->Normal_0@));
            },
        }
        i = i + 1;
    }
    assert(gc.take(i as int) =~= gc);
    let out = render_chars(root, &stack);
    string_from_chars(&out)
}

/// Whether `path` starts at the root.
pub fn is_absolute(path: &str) -> (res: bool)
    ensures
        res == has_root(path@),
{
    let chars = chars_of(path);
    chars.len() > 0 && chars[0] == '/'
}

/// `base` extended by `rel`; an absolute `rel` replaces `base`.
pub fn join(base: &str, rel: &str) -> (res: String)
    ensures
        res@ == joined(base@, rel@),
{
    let b = chars_of(base);
    let r = chars_of(rel);
    if r.len() > 0 && r[0] == '/' {
        return string_from_chars(&r);
    }
    let mut out = b.clone();
    if b.len() > 0 && b[b.len() - 1] != '/' {
        out.push('/');
    }
    append_chars(&mut out, &r);
    string_from_chars(&out)
}

/// Whether `base`'s components lead `path`'s.
pub fn starts_with(path: &str, base: &str) -> (res: bool)
    ensures
        res == path_starts_with(path@, base@),
{
    let pc = path_components(&chars_of(path));
    let bc = path_components(&chars_of(base));
    if bc.len() > pc.len() {
        return false;
    }
    let mut i: usize = 0;
    while i < bc.len()
        invariant
            0 <= i <= bc.len(),
            bc.len() <= pc.len(),
            pc@.len() == components(path@).len(),
            forall|k: int| 0 <= k < pc@.len() ==> #[trigger] pc@[k]@ == components(path@)[k],
            bc@.len() == components(base@).len(),
            forall|k: int| 0 <= k < bc@.len() ==> #[trigger] bc@[k]@ == components(base@)[k],
            forall|k: int| 0 <= k < i ==> components(path@)[k] == components(base@)[k],
        decreases bc.len() - i,
    {
        if !component_eq(&pc[i], &bc[i]) {
            assert(components(path@).take(components(base@).len() as int)[i as int] != components(base@)[i as int]);
            return false;
        }
        i = i + 1;
    }
    assert(components(path@).take(components(base@).len() as int) =~= components(base@));
    true
}

/// The final component of `path` when it is a name.
pub fn file_name(path: &str) -> (res: Option<String>)
    ensures
        match file_name_of(path@) {
            Some(name) => res is Some && res->0@ == name,
            None => res is None,
        },
{
    let chars = chars_of(path);
    let comps = path_components(&chars);
    if comps.len() == 0 {
        return None;
    }
    assert(comps@[comps.len() - 1]@ == components(path@).last());
    match &comps[comps.len() - 1] {
        Component::Normal(name) => Some(string_from_chars(name)),
        _ => None,
    }
}

/// The text of a component sequence.
fn components_text(comps: &Vec<Component>, n: usize) -> (res: Vec<char>)
    requires
        n <= comps.len(),
    ensures
        res@ == comps_text(comps@.take(n as int).map_values(|c: Component| c@)),
{
    let mut out: Vec<char> = Vec::new();
    let mut i: usize = 0;
    assert(comps@.take(0).map_values(|c: Component| c@) =~= Seq::<ComponentView>::empty());
    while i < n
        invariant
            0 <= i <= n <= comps.len(),
            out@ == comps_text(comps@.take(i as int).map_values(|c: Component| c@)),
        decreases n - i,
    {
        let ghost views = comps@.take(i + 1).map_values(|c: Component| c@);
        assert(views.drop_last() =~= comps@.take(i as int).map_values(|c: Component| c@));
        assert(views.last() == comps@[i as int]@);
        let piece: Vec<char> = match &comps[i] {
            Component::RootDir => vec!['/'],
            Component::CurDir => vec!['.'],
            Component::ParentDir => vec!['.', '.'],
            Component::Normal(name) => name.clone(),
        };
        assert(piece@ =~= component_text(comps@[i as int]@));
        if piece.len() > 0 && piece[0] == '/' {
            out = piece;
        } else {
            if out.len() > 0 && out[out.len() - 1] != '/' {
                out.push('/');
            }
            append_chars(&mut out, &piece);
        }
        i = i + 1;
        assert(out@ =~= comps_text(comps@.take(i as int).map_values(|c: Component| c@)));
    }
    out
}

/// `path` without its final component, unless that component is the root or
/// the path has none.
pub fn parent(path: &str) -> (res: Option<String>)
    ensures
        match parent_of(path@) {
            Some(p) => res is Some && res->0@ == p,
            None => res is None,
        },
{
    let chars = chars_of(path);
    let comps = path_components(&chars);
    let ghost gc = components(path@);
    if comps.len() == 0 {
        return None;
    }
    assert(comps@[comps.len() - 1]@ == gc.last());
    match &comps[comps.len() - 1] {
        Component::RootDir => None,
        _ => {
            let text = components_text(&comps, comps.len() - 1);
            assert(comps@.take(comps.len() - 1).map_values(|c: Component| c@) =~= gc.drop_last());
            Some(string_from_chars(&text))
        },
    }
}

} // verus!
