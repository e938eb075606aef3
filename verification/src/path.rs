//! POSIX paths, taken apart into components.
//!
//! A path is a `String`; two paths are the same path when their components are. Repeated
//! separators and `.` components are ignored, except for a `.` that starts a relative path.
use vstd::prelude::*;

verus! {

/// One component of a path.
#[derive(Debug)]
pub enum PathComponent {
    /// The `/` that starts an absolute path.
    RootDir,
    /// A `.` that starts a relative path.
    CurDir,
    /// A `..`.
    ParentDir,
    /// The name of a file or a directory.
    Normal(String),
}

/// What a [`PathComponent`] stands for.
pub enum ComponentView {
    RootDir,
    CurDir,
    ParentDir,
    Normal(Seq<char>),
}

impl View for PathComponent {
    type V = ComponentView;

    open spec fn view(&self) -> ComponentView {
        match self {
            PathComponent::RootDir => ComponentView::RootDir,
            PathComponent::CurDir => ComponentView::CurDir,
            PathComponent::ParentDir => ComponentView::ParentDir,
            PathComponent::Normal(name) => ComponentView::Normal(name@),
        }
    }
}

impl Clone for PathComponent {
    fn clone(&self) -> (res: Self)
        ensures
            res == *self,
    {
        match self {
            PathComponent::RootDir => PathComponent::RootDir,
            PathComponent::CurDir => PathComponent::CurDir,
            PathComponent::ParentDir => PathComponent::ParentDir,
            PathComponent::Normal(name) => PathComponent::Normal(name.clone()),
        }
    }
}

/// The views of a list of components.
pub open spec fn views(list: Seq<PathComponent>) -> Seq<ComponentView> {
    list.map_values(|c: PathComponent| c@)
}

/// The pieces between the separators of `text`; there is always at least one.
pub open spec fn split(text: Seq<char>) -> Seq<Seq<char>>
    decreases text.len(),
{
    if text.len() == 0 {
        seq![Seq::<char>::empty()]
    } else {
        let before = split(text.drop_last());
        if text.last() == '/' {
            before.push(Seq::empty())
        } else {
            before.drop_last().push(before.last().push(text.last()))
        }
    }
}

/// The component that a piece stands for, if it stands for any.
pub open spec fn piece_component(first: bool, piece: Seq<char>) -> Option<ComponentView> {
    if piece.len() == 0 {
        None
    } else if piece == seq!['.'] {
        if first {
            Some(ComponentView::CurDir)
        } else {
            None
        }
    } else if piece == seq!['.', '.'] {
        Some(ComponentView::ParentDir)
    } else {
        Some(ComponentView::Normal(piece))
    }
}

/// The components that a list of pieces stands for.
pub open spec fn piece_components(pieces: Seq<Seq<char>>) -> Seq<ComponentView>
    decreases pieces.len(),
{
    if pieces.len() == 0 {
        Seq::empty()
    } else {
        let before = piece_components(pieces.drop_last());
        match piece_component(pieces.len() == 1, pieces.last()) {
            Some(component) => before.push(component),
            None => before,
        }
    }
}

/// The root component of `text`, if it has one.
pub open spec fn root_components(text: Seq<char>) -> Seq<ComponentView> {
    if text.len() > 0 && text[0] == '/' {
        seq![ComponentView::RootDir]
    } else {
        Seq::empty()
    }
}

/// The components of the path that `text` writes.
pub open spec fn path_components(text: Seq<char>) -> Seq<ComponentView> {
    root_components(text) + piece_components(split(text))
}

/// The characters of `text`.
pub(crate) fn to_chars(text: &str) -> (chars: Vec<char>)
    ensures
        chars@ == text@,
{
    let mut chars: Vec<char> = Vec::new();
    for c in it: text.chars()
        invariant
            chars@ == it.seq().take(it.index()),
            it.seq() == text@,
    {
        chars.push(c);
    }
    chars
}

fn push_piece(
    out: &mut Vec<PathComponent>,
    chars: &Vec<char>,
    text: &str,
    start: usize,
    end: usize,
    first: bool,
)
    requires
        chars@ == text@,
        start <= end <= text@.len(),
    ensures
        views(final(out)@) == (match piece_component(first, text@.subrange(start as int, end as int)) {
            Some(component) => views(old(out)@).push(component),
            None => views(old(out)@),
        }),
{
    let ghost piece = text@.subrange(start as int, end as int);
    if start == end {
        return;
    }
    if end - start == 1 && chars[start] == '.' {
        assert(piece =~= seq!['.']);
        if first {
            out.push(PathComponent::CurDir);
            assert(views(out@) =~= views(old(out)@).push(ComponentView::CurDir));
        }
        return;
    }
    if end - start == 2 && chars[start] == '.' && chars[start + 1] == '.' {
        assert(piece =~= seq!['.', '.']);
        out.push(PathComponent::ParentDir);
        assert(views(out@) =~= views(old(out)@).push(ComponentView::ParentDir));
        return;
    }
    proof {
        assert(piece[0] == chars[start as int]);
        if piece.len() == 2 {
            assert(piece[1] == chars[start + 1]);
        }
    }
    let name = text.substring_char(start, end).to_owned();
    out.push(PathComponent::Normal(name));
    assert(views(out@) =~= views(old(out)@).push(ComponentView::Normal(piece)));
}

/// Takes a path apart.
pub fn components(path: &str) -> (out: Vec<PathComponent>)
    ensures
        views(out@) == path_components(path@),
{
    let chars = to_chars(path);
    let mut out: Vec<PathComponent> = Vec::new();
    if chars.len() > 0 && chars[0] == '/' {
        out.push(PathComponent::RootDir);
    }
    assert(views(out@) =~= root_components(path@));
    let mut start: usize = 0;
    let mut i: usize = 0;
    let ghost mut done: Seq<Seq<char>> = Seq::empty();
    assert(path@.take(0) =~= Seq::empty());
    assert(split(path@.take(0)) =~= done.push(path@.subrange(0, 0)));
    assert(views(out@) =~= root_components(path@) + piece_components(done));
    while i < chars.len()
        invariant
            chars@ == path@,
            start <= i <= chars.len(),
            (start == 0) == (done.len() == 0),
            split(path@.take(i as int)) == done.push(path@.subrange(start as int, i as int)),
            views(out@) == root_components(path@) + piece_components(done),
        decreases chars.len() - i,
    {
        proof {
            assert(path@.take(i + 1).drop_last() =~= path@.take(i as int));
        }
        if chars[i] == '/' {
            let ghost piece = path@.subrange(start as int, i as int);
            push_piece(&mut out, &chars, path, start, i, start == 0);
            proof {
                assert(done.push(piece).drop_last() =~= done);
                done = done.push(piece);
                assert(views(out@) =~= root_components(path@) + piece_components(done));
                assert(path@.subrange(i + 1, i + 1) =~= Seq::empty());
            }
            start = i + 1;
        } else {
            proof {
                let old_piece = path@.subrange(start as int, i as int);
                assert(path@.subrange(start as int, i + 1) =~= old_piece.push(path@[i as int]));
                assert(done.push(old_piece).drop_last() =~= done);
            }
        }
        i = i + 1;
    }
    let ghost piece = path@.subrange(start as int, i as int);
    push_piece(&mut out, &chars, path, start, i, start == 0);
    proof {
        assert(done.push(piece).drop_last() =~= done);
        assert(path@.take(i as int) =~= path@);
        assert(views(out@) =~= root_components(path@) + piece_components(done.push(piece)));
    }
    out
}

/// A name that a component can carry.
pub open spec fn valid_name(name: Seq<char>) -> bool {
    &&& name.len() > 0
    &&& !name.contains('/')
    &&& name != seq!['.']
    &&& name != seq!['.', '.']
}

/// A list that is the component list of some path.
pub open spec fn well_formed(list: Seq<ComponentView>) -> bool {
    forall|i: int|
        #![trigger list[i]]
        0 <= i < list.len() ==> match list[i] {
            ComponentView::RootDir => i == 0,
            ComponentView::CurDir => i == 0,
            ComponentView::ParentDir => true,
            ComponentView::Normal(name) => valid_name(name),
        }
}

/// The text of one component.
pub open spec fn component_text(component: ComponentView) -> Seq<char> {
    match component {
        ComponentView::RootDir => seq!['/'],
        ComponentView::CurDir => seq!['.'],
        ComponentView::ParentDir => seq!['.', '.'],
        ComponentView::Normal(name) => name,
    }
}

/// The text of a path after one more component was appended to it: the root replaces what stood
/// there, anything else follows a separator.
pub open spec fn push_text(text: Seq<char>, component: ComponentView) -> Seq<char> {
    if component is RootDir {
        component_text(component)
    } else if text.len() > 0 && text.last() != '/' {
        text.push('/') + component_text(component)
    } else {
        text + component_text(component)
    }
}

/// The text of the path that arises by appending the components one after the other.
pub open spec fn render(list: Seq<ComponentView>) -> Seq<char>
    decreases list.len(),
{
    if list.len() == 0 {
        Seq::empty()
    } else {
        push_text(render(list.drop_last()), list.last())
    }
}

proof fn lemma_split_nonempty(text: Seq<char>)
    ensures
        split(text).len() >= 1,
    decreases text.len(),
{
    if text.len() > 0 {
        lemma_split_nonempty(text.drop_last());
    }
}

/// No piece holds a separator.
proof fn lemma_split_pieces(text: Seq<char>)
    ensures
        forall|i: int| 0 <= i < split(text).len() ==> !(#[trigger] split(text)[i]).contains('/'),
    decreases text.len(),
{
    if text.len() > 0 {
        lemma_split_pieces(text.drop_last());
        lemma_split_nonempty(text.drop_last());
        let before = split(text.drop_last());
        if text.last() != '/' {
            let piece = before.last().push(text.last());
            assert(!before[before.len() - 1].contains('/'));
            assert forall|j: int| 0 <= j < piece.len() implies piece[j] != '/' by {
                if j < before.last().len() {
                    assert(before.last().contains(before.last()[j]));
                }
            }
            assert(!piece.contains('/'));
        }
    }
}

proof fn lemma_piece_components_well_formed(pieces: Seq<Seq<char>>)
    requires
        forall|i: int| 0 <= i < pieces.len() ==> !(#[trigger] pieces[i]).contains('/'),
    ensures
        well_formed(piece_components(pieces)),
        forall|i: int|
            0 <= i < piece_components(pieces).len() ==> !(#[trigger] piece_components(
                pieces,
            )[i] is RootDir),
        piece_components(pieces).len() <= pieces.len(),
    decreases pieces.len(),
{
    if pieces.len() > 0 {
        lemma_piece_components_well_formed(pieces.drop_last());
        assert(!pieces[pieces.len() - 1].contains('/'));
    }
}

/// The components of a path are a well-formed list.
pub proof fn lemma_path_components_well_formed(text: Seq<char>)
    ensures
        well_formed(path_components(text)),
{
    lemma_split_pieces(text);
    lemma_piece_components_well_formed(split(text));
    if text.len() > 0 && text[0] == '/' {
        lemma_no_leading_dot(text);
    }
}

/// The first piece of a text that starts with a separator is empty.
proof fn lemma_first_piece_empty(text: Seq<char>)
    requires
        text.len() > 0,
        text[0] == '/',
    ensures
        split(text).len() >= 2,
        split(text)[0].len() == 0,
    decreases text.len(),
{
    if text.len() == 1 {
        assert(text.drop_last() =~= Seq::empty());
    } else {
        lemma_first_piece_empty(text.drop_last());
    }
}

proof fn lemma_later_pieces_no_dot(pieces: Seq<Seq<char>>)
    requires
        pieces.len() > 0 ==> pieces[0].len() == 0,
    ensures
        forall|i: int|
            0 <= i < piece_components(pieces).len() ==> !(#[trigger] piece_components(
                pieces,
            )[i] is CurDir),
    decreases pieces.len(),
{
    if pieces.len() > 0 {
        lemma_later_pieces_no_dot(pieces.drop_last());
    }
}

proof fn lemma_no_leading_dot(text: Seq<char>)
    requires
        text.len() > 0,
        text[0] == '/',
    ensures
        forall|i: int|
            0 <= i < piece_components(split(text)).len() ==> !(#[trigger] piece_components(
                split(text),
            )[i] is CurDir),
{
    lemma_first_piece_empty(text);
    lemma_later_pieces_no_dot(split(text));
}

proof fn lemma_split_append(text: Seq<char>, piece: Seq<char>)
    requires
        !piece.contains('/'),
    ensures
        split(text + piece) == split(text).drop_last().push(split(text).last() + piece),
    decreases piece.len(),
{
    lemma_split_nonempty(text);
    if piece.len() == 0 {
        assert(text + piece =~= text);
        assert(split(text).last() + piece =~= split(text).last());
        assert(split(text).drop_last().push(split(text).last()) =~= split(text));
    } else {
        let shorter = piece.drop_last();
        assert(!shorter.contains('/')) by {
            assert forall|j: int| 0 <= j < shorter.len() implies shorter[j] != '/' by {
                assert(piece.contains(piece[j]));
            }
        }
        lemma_split_append(text, shorter);
        assert((text + piece).drop_last() =~= text + shorter);
        assert(piece.contains(piece.last()));
        let before = split(text + shorter);
        assert(before.drop_last() =~= split(text).drop_last());
        assert((split(text).last() + shorter).push(piece.last()) =~= split(text).last() + piece);
    }
}

/// Appending one component to a text appends it to the components.
proof fn lemma_push_text(text: Seq<char>, component: ComponentView)
    requires
        component is ParentDir || (component matches ComponentView::Normal(name) && valid_name(name)),
    ensures
        path_components(push_text(text, component)) == path_components(text).push(component),
{
    let piece = component_text(component);
    assert(!piece.contains('/'));
    assert(piece_component(false, piece) == Some(component));
    assert(piece_component(true, piece) == Some(component));
    lemma_split_nonempty(text);
    if text.len() == 0 {
        assert(text + piece =~= piece);
        lemma_split_append(text, piece);
        assert(split(text).drop_last() =~= Seq::<Seq<char>>::empty());
        assert(split(text).last() + piece =~= piece);
        let pieces = split(piece);
        assert(pieces =~= seq![piece]);
        assert(pieces.drop_last() =~= Seq::<Seq<char>>::empty());
        assert(piece_components(Seq::<Seq<char>>::empty()) =~= Seq::<ComponentView>::empty());
        assert(piece_components(pieces) =~= seq![component]);
        assert(!piece.contains('/'));
        if piece[0] == '/' {
            assert(piece.contains('/'));
        }
        let none = split(text);
        assert(none.drop_last() =~= Seq::<Seq<char>>::empty());
        assert(piece_components(none) =~= Seq::<ComponentView>::empty());
        assert(path_components(piece) =~= path_components(text).push(component));
    } else if text.last() != '/' {
        let base = text.push('/');
        assert(base.drop_last() =~= text);
        lemma_split_append(base, piece);
        assert(split(base) == split(text).push(Seq::empty()));
        assert(split(base).drop_last() =~= split(text));
        assert(split(base).last() + piece =~= piece);
        let pieces = split(text).push(piece);
        assert(pieces.drop_last() =~= split(text));
        assert(piece_components(pieces) == piece_components(split(text)).push(component));
        assert((base + piece)[0] == text[0]);
        assert(path_components(base + piece) =~= path_components(text).push(component));
    } else {
        lemma_split_append(text, piece);
        let before = split(text.drop_last());
        lemma_split_nonempty(text.drop_last());
        assert(split(text) == before.push(Seq::empty()));
        assert(split(text).drop_last() =~= before);
        assert(split(text).last() + piece =~= piece);
        let pieces = before.push(piece);
        assert(pieces.drop_last() =~= before);
        assert(piece_components(pieces) == piece_components(before).push(component));
        assert(piece_components(split(text)) == piece_components(before));
        assert((text + piece)[0] == text[0]);
        assert(path_components(text + piece) =~= path_components(text).push(component));
    }
}

/// A well-formed list is the component list of its own text.
pub proof fn lemma_render_components(list: Seq<ComponentView>)
    requires
        well_formed(list),
    ensures
        path_components(render(list)) == list,
    decreases list.len(),
{
    if list.len() == 0 {
        lemma_components_of_short_texts();
    } else {
        let before = list.drop_last();
        let last = list.last();
        assert(list[list.len() - 1] == last);
        assert forall|i: int| 0 <= i < before.len() implies before[i] == list[i] by {}
        assert(well_formed(before));
        lemma_render_components(before);
        if last is RootDir || last is CurDir {
            assert(before =~= Seq::empty());
            lemma_components_of_short_texts();
            assert(Seq::<char>::empty() + seq!['.'] =~= seq!['.']);
            assert(list =~= seq![last]);
        } else {
            lemma_push_text(render(before), last);
            assert(before.push(last) =~= list);
        }
    }
}

proof fn lemma_components_of_short_texts()
    ensures
        path_components(Seq::empty()) == Seq::<ComponentView>::empty(),
        path_components(seq!['/']) == seq![ComponentView::RootDir],
        path_components(seq!['.']) == seq![ComponentView::CurDir],
{
    let empty = Seq::<char>::empty();
    let none = seq![empty];
    assert(none.drop_last() =~= Seq::<Seq<char>>::empty());
    assert(piece_components(Seq::<Seq<char>>::empty()) =~= Seq::<ComponentView>::empty());
    assert(piece_components(none) =~= Seq::<ComponentView>::empty());
    assert(path_components(empty) =~= Seq::<ComponentView>::empty());
    let root = seq!['/'];
    assert(root.drop_last() =~= empty);
    assert(split(root) =~= seq![empty, empty]);
    assert(seq![empty, empty].drop_last() =~= none);
    assert(path_components(root) =~= seq![ComponentView::RootDir]);
    let dot = seq!['.'];
    assert(dot.drop_last() =~= empty);
    assert(empty.push('.') =~= dot);
    assert(none.drop_last().push(dot) =~= seq![dot]);
    assert(split(dot) =~= seq![dot]);
    assert(seq![dot].drop_last() =~= Seq::<Seq<char>>::empty());
    assert(piece_components(seq![dot]) =~= seq![ComponentView::CurDir]);
    assert(path_components(dot) =~= seq![ComponentView::CurDir]);
}

/// Whether two components are the same.
pub fn component_eq(a: &PathComponent, b: &PathComponent) -> (same: bool)
    ensures
        same == (a@ == b@),
{
    match (a, b) {
        (PathComponent::RootDir, PathComponent::RootDir) => true,
        (PathComponent::CurDir, PathComponent::CurDir) => true,
        (PathComponent::ParentDir, PathComponent::ParentDir) => true,
        (PathComponent::Normal(x), PathComponent::Normal(y)) => *x == *y,
        _ => false,
    }
}

/// The number of leading components that two lists share.
pub open spec fn common_prefix(a: Seq<ComponentView>, b: Seq<ComponentView>) -> nat
    decreases a.len(),
{
    if a.len() > 0 && b.len() > 0 && a[0] == b[0] {
        1 + common_prefix(a.skip(1), b.skip(1))
    } else {
        0
    }
}

/// The common prefix is where two lists first differ.
pub proof fn lemma_common_prefix(a: Seq<ComponentView>, b: Seq<ComponentView>)
    ensures
        common_prefix(a, b) <= a.len(),
        common_prefix(a, b) <= b.len(),
        a.take(common_prefix(a, b) as int) == b.take(common_prefix(a, b) as int),
        common_prefix(a, b) < a.len() && common_prefix(a, b) < b.len()
            ==> a[common_prefix(a, b) as int] != b[common_prefix(a, b) as int],
    decreases a.len(),
{
    if a.len() > 0 && b.len() > 0 && a[0] == b[0] {
        lemma_common_prefix(a.skip(1), b.skip(1));
        let k = common_prefix(a.skip(1), b.skip(1)) as int;
        assert(a.take(k + 1) =~= seq![a[0]] + a.skip(1).take(k));
        assert(b.take(k + 1) =~= seq![b[0]] + b.skip(1).take(k));
    } else {
        assert(a.take(0) =~= b.take(0));
    }
}

proof fn lemma_common_prefix_unique(a: Seq<ComponentView>, b: Seq<ComponentView>, k: int)
    requires
        0 <= k <= a.len(),
        k <= b.len(),
        a.take(k) == b.take(k),
        k < a.len() && k < b.len() ==> a[k] != b[k],
    ensures
        common_prefix(a, b) == k,
{
    lemma_common_prefix(a, b);
    let c = common_prefix(a, b) as int;
    if c < k {
        assert(a.take(k)[c] == a[c] && b.take(k)[c] == b[c]);
    } else if k < c {
        assert(a.take(c)[k] == a[k] && b.take(c)[k] == b[k]);
    }
}

/// `n` times `..`.
pub open spec fn parent_dirs(n: nat) -> Seq<ComponentView> {
    Seq::new(n, |i: int| ComponentView::ParentDir)
}

/// What leads from `base` to `path`: up to where the two part, then down.
///
/// A `base` that starts with `.` shares nothing with a `path` that does not; there the first
/// component of `path` comes before the way up.
pub open spec fn relative_components(
    base: Seq<ComponentView>,
    path: Seq<ComponentView>,
) -> Seq<ComponentView> {
    if base.len() > 0 && base[0] is CurDir && path.len() > 0 && path[0] != base[0] {
        seq![path[0]] + parent_dirs((base.len() - 1) as nat) + path.skip(1)
    } else {
        let shared = common_prefix(base, path);
        parent_dirs((base.len() - shared) as nat) + path.skip(shared as int)
    }
}

/// Whether two paths have the same components.
pub fn same_path(a: &str, b: &str) -> (same: bool)
    ensures
        same == (path_components(a@) == path_components(b@)),
{
    let xs = components(a);
    let ys = components(b);
    same_components(&xs, &ys)
}

/// Whether two component lists are the same.
pub fn same_components(xs: &Vec<PathComponent>, ys: &Vec<PathComponent>) -> (same: bool)
    ensures
        same == (views(xs@) == views(ys@)),
{
    if xs.len() != ys.len() {
        return false;
    }
    let shared = shared_prefix(xs, ys);
    proof {
        lemma_common_prefix(views(xs@), views(ys@));
        assert(views(xs@).take(xs.len() as int) =~= views(xs@));
        assert(views(ys@).take(ys.len() as int) =~= views(ys@));
    }
    shared == xs.len()
}

fn shared_prefix(xs: &Vec<PathComponent>, ys: &Vec<PathComponent>) -> (shared: usize)
    ensures
        shared == common_prefix(views(xs@), views(ys@)),
        shared <= xs.len(),
        shared <= ys.len(),
{
    let mut i: usize = 0;
    assert(views(xs@).take(0) =~= views(ys@).take(0));
    while i < xs.len() && i < ys.len() && component_eq(&xs[i], &ys[i])
        invariant
            i <= xs.len(),
            i <= ys.len(),
            views(xs@).take(i as int) == views(ys@).take(i as int),
        decreases xs.len() - i,
    {
        proof {
            assert(views(xs@).take(i + 1) =~= views(xs@).take(i as int).push(views(xs@)[i as int]));
            assert(views(ys@).take(i + 1) =~= views(ys@).take(i as int).push(views(ys@)[i as int]));
        }
        i = i + 1;
    }
    proof {
        lemma_common_prefix_unique(views(xs@), views(ys@), i as int);
    }
    i
}

/// Writes out a list of components, appending one after the other.
pub fn render_components(list: &Vec<PathComponent>) -> (text: String)
    ensures
        text@ == render(views(list@)),
{
    let mut text = String::new();
    let mut ends_open: bool = false;
    let mut i: usize = 0;
    assert(views(list@).take(0) =~= Seq::empty());
    proof {
        reveal_strlit("/");
        reveal_strlit(".");
        reveal_strlit("..");
    }
    while i < list.len()
        invariant
            i <= list.len(),
            text@ == render(views(list@).take(i as int)),
            ends_open == (text@.len() > 0 && text@.last() != '/'),
            "/"@ =~= seq!['/'],
            "."@ =~= seq!['.'],
            ".."@ =~= seq!['.', '.'],
        decreases list.len() - i,
    {
        let ghost before = text@;
        proof {
            assert(views(list@).take(i + 1).drop_last() =~= views(list@).take(i as int));
        }
        match &list[i] {
            PathComponent::RootDir => {
                text = "/".to_owned();
            },
            other => {
                if ends_open {
                    text.append("/");
                    assert(text@ =~= before.push('/'));
                }
                match other {
                    PathComponent::CurDir => text.append("."),
                    PathComponent::ParentDir => text.append(".."),
                    PathComponent::Normal(name) => text.append(name.as_str()),
                    PathComponent::RootDir => {},
                }
            },
        }
        assert(text@ =~= push_text(before, list[i as int]@));
        let len = text.as_str().unicode_len();
        ends_open = len > 0 && text.as_str().get_char(len - 1) != '/';
        i = i + 1;
    }
    assert(views(list@).take(list.len() as int) =~= views(list@));
    text
}

/// The way from the directory `base` to `path`.
pub fn relativize_path(base: &str, path: &str) -> (relative: String)
    ensures
        relative@ == render(relative_components(path_components(base@), path_components(path@))),
{
    let base = components(base);
    let path = components(path);
    let mut out: Vec<PathComponent> = Vec::new();
    let ghost bs = views(base@);
    let ghost ps = views(path@);
    let mut up: usize = 0;
    let mut next: usize = 0;
    if base.len() > 0 && path.len() > 0 && component_eq(&base[0], &PathComponent::CurDir)
        && !component_eq(&path[0], &base[0]) {
        out.push(path[0].clone());
        up = base.len() - 1;
        next = 1;
        assert(views(out@) =~= seq![ps[0]]);
    } else {
        let shared = shared_prefix(&base, &path);
        up = base.len() - shared;
        next = shared;
        assert(views(out@) =~= Seq::empty());
    }
    let ghost start = views(out@);
    let mut i: usize = 0;
    assert(start + parent_dirs(0) =~= start);
    while i < up
        invariant
            i <= up,
            views(out@) == start + parent_dirs(i as nat),
        decreases up - i,
    {
        let ghost before = views(out@);
        out.push(PathComponent::ParentDir);
        i = i + 1;
        assert(views(out@) =~= before.push(ComponentView::ParentDir));
        assert(views(out@) =~= start + parent_dirs(i as nat));
    }
    let ghost middle = views(out@);
    let mut j: usize = next;
    assert(middle + ps.subrange(next as int, next as int) =~= middle);
    while j < path.len()
        invariant
            next <= j <= path.len(),
            ps == views(path@),
            views(out@) == middle + ps.subrange(next as int, j as int),
        decreases path.len() - j,
    {
        let ghost before = views(out@);
        out.push(path[j].clone());
        assert(views(out@) =~= before.push(ps[j as int]));
        j = j + 1;
        assert(views(out@) =~= middle + ps.subrange(next as int, j as int));
    }
    assert(views(out@) =~= relative_components(bs, ps));
    render_components(&out)
}

/// A component list after its last component was taken off; the root stays.
pub open spec fn pop_component(list: Seq<ComponentView>) -> Seq<ComponentView> {
    if list.len() == 0 || list.last() is RootDir {
        list
    } else {
        list.drop_last()
    }
}

/// The place that `path` names when it is read from `base`.
pub open spec fn resolved_components(
    base: Seq<ComponentView>,
    path: Seq<ComponentView>,
) -> Seq<ComponentView>
    decreases path.len(),
{
    if path.len() == 0 {
        base
    } else {
        let before = resolved_components(base, path.drop_last());
        match path.last() {
            ComponentView::ParentDir => pop_component(before),
            ComponentView::CurDir => before,
            ComponentView::RootDir => seq![ComponentView::RootDir],
            ComponentView::Normal(name) => before.push(path.last()),
        }
    }
}

proof fn lemma_resolved_well_formed(base: Seq<ComponentView>, path: Seq<ComponentView>)
    requires
        well_formed(base),
        well_formed(path),
    ensures
        well_formed(resolved_components(base, path)),
    decreases path.len(),
{
    if path.len() > 0 {
        let shorter = path.drop_last();
        assert forall|i: int| 0 <= i < shorter.len() implies shorter[i] == path[i] by {}
        lemma_resolved_well_formed(base, shorter);
        assert(path[path.len() - 1] == path.last());
        let before = resolved_components(base, shorter);
        if before.len() > 0 {
            assert forall|i: int| 0 <= i < before.len() - 1 implies #[trigger] before.drop_last()[i]
                == before[i] by {}
        }
    }
}

/// The place that `path` names when it is read from `base`, as a list of components.
pub fn resolve_components(base: &Vec<PathComponent>, path: &Vec<PathComponent>) -> (out: Vec<
    PathComponent,
>)
    ensures
        views(out@) == resolved_components(views(base@), views(path@)),
{
    let mut out: Vec<PathComponent> = Vec::new();
    let mut k: usize = 0;
    while k < base.len()
        invariant
            k <= base.len(),
            views(out@) =~= views(base@).take(k as int),
        decreases base.len() - k,
    {
        let ghost before = views(out@);
        out.push(base[k].clone());
        assert(views(out@) =~= before.push(views(base@)[k as int]));
        k = k + 1;
    }
    assert(views(base@).take(base.len() as int) =~= views(base@));
    let mut i: usize = 0;
    assert(views(path@).take(0) =~= Seq::empty());
    while i < path.len()
        invariant
            i <= path.len(),
            views(out@) == resolved_components(views(base@), views(path@).take(i as int)),
        decreases path.len() - i,
    {
        let ghost before = views(out@);
        proof {
            assert(views(path@).take(i + 1).drop_last() =~= views(path@).take(i as int));
        }
        match &path[i] {
            PathComponent::ParentDir => {
                if out.len() > 0 && !component_eq(&out[out.len() - 1], &PathComponent::RootDir) {
                    assert(before.last() == out@.last()@);
                    out.pop();
                    assert(views(out@) =~= before.drop_last());
                }
            },
            PathComponent::CurDir => {},
            PathComponent::RootDir => {
                out = Vec::new();
                out.push(PathComponent::RootDir);
                assert(views(out@) =~= seq![ComponentView::RootDir]);
            },
            PathComponent::Normal(name) => {
                out.push(PathComponent::Normal(name.clone()));
                assert(views(out@) =~= before.push(path[i as int]@));
            },
        }
        i = i + 1;
    }
    assert(views(path@).take(path.len() as int) =~= views(path@));
    out
}

/// The place that `path` names when it is read from `base`.
pub fn resolve_path(base: &str, path: &str) -> (resolved: String)
    ensures
        path_components(resolved@) == resolved_components(
            path_components(base@),
            path_components(path@),
        ),
        resolved@ == render(
            resolved_components(path_components(base@), path_components(path@)),
        ),
{
    let out = resolve_components(&components(base), &components(path));
    proof {
        lemma_path_components_well_formed(base@);
        lemma_path_components_well_formed(path@);
        lemma_resolved_well_formed(path_components(base@), path_components(path@));
        lemma_render_components(views(out@));
    }
    render_components(&out)
}

/// Whether a component list starts with another.
pub open spec fn starts_with(path: Seq<ComponentView>, base: Seq<ComponentView>) -> bool {
    base.len() <= path.len() && path.take(base.len() as int) == base
}

/// What is left of a path behind its start is a path.
pub proof fn lemma_skip_well_formed(list: Seq<ComponentView>, n: int)
    requires
        well_formed(list),
        0 <= n <= list.len(),
    ensures
        well_formed(list.skip(n)),
{
    assert forall|i: int| 0 <= i < list.skip(n).len() implies #[trigger] list.skip(n)[i] == list[i
        + n] by {}
}

fn clone_from(list: &Vec<PathComponent>, start: usize, end: usize) -> (out: Vec<PathComponent>)
    requires
        start <= end <= list.len(),
    ensures
        views(out@) == views(list@).subrange(start as int, end as int),
{
    let mut out: Vec<PathComponent> = Vec::new();
    let mut k: usize = start;
    assert(views(out@) =~= views(list@).subrange(start as int, start as int));
    while k < end
        invariant
            start <= k <= end <= list.len(),
            views(out@) == views(list@).subrange(start as int, k as int),
        decreases end - k,
    {
        let ghost before = views(out@);
        out.push(list[k].clone());
        assert(views(out@) =~= before.push(views(list@)[k as int]));
        k = k + 1;
        assert(views(out@) =~= views(list@).subrange(start as int, k as int));
    }
    out
}

/// What remains of a component list behind `base`, if it starts with `base`.
pub fn strip_component_prefix(path: &Vec<PathComponent>, base: &Vec<PathComponent>) -> (rest: Option<
    Vec<PathComponent>,
>)
    ensures
        rest is Some == starts_with(views(path@), views(base@)),
        rest matches Some(rest) ==> views(rest@) == views(path@).skip(base.len() as int),
{
    let shared = shared_prefix(path, base);
    proof {
        lemma_common_prefix(views(path@), views(base@));
        assert(views(base@).take(base.len() as int) =~= views(base@));
    }
    if shared == base.len() {
        let rest = clone_from(path, shared, path.len());
        assert(views(rest@) =~= views(path@).skip(base.len() as int));
        Some(rest)
    } else {
        proof {
            let k = shared as int;
            if starts_with(views(path@), views(base@)) {
                assert(views(path@).take(base.len() as int)[k] == views(base@)[k]);
            }
        }
        None
    }
}

/// What remains of `path` behind `base`, if it starts with `base`.
pub fn strip_prefix(path: &str, base: &str) -> (rest: Option<String>)
    ensures
        rest is Some == starts_with(path_components(path@), path_components(base@)),
        rest matches Some(rest) ==> path_components(rest@) == path_components(path@).skip(
            path_components(base@).len() as int,
        ),
        rest matches Some(rest) ==> rest@ == render(
            path_components(path@).skip(path_components(base@).len() as int),
        ),
{
    let whole = components(path);
    let base_list = components(base);
    match strip_component_prefix(&whole, &base_list) {
        Some(rest) => {
            proof {
                lemma_path_components_well_formed(path@);
                lemma_skip_well_formed(path_components(path@), base_list.len() as int);
                lemma_render_components(views(rest@));
            }
            Some(render_components(&rest))
        },
        None => None,
    }
}

/// The directory that holds the last component, if there is one.
pub open spec fn parent_components(path: Seq<ComponentView>) -> Option<Seq<ComponentView>> {
    if path.len() == 0 || path.last() is RootDir {
        None
    } else {
        Some(path.drop_last())
    }
}

/// The directory that holds the last component, if there is one.
pub fn parent(path: &Vec<PathComponent>) -> (dir: Option<Vec<PathComponent>>)
    ensures
        match parent_components(views(path@)) {
            None => dir is None,
            Some(list) => dir matches Some(dir) && views(dir@) == list,
        },
{
    if path.len() == 0 {
        return None;
    }
    assert(views(path@).last() == path@.last()@);
    if component_eq(&path[path.len() - 1], &PathComponent::RootDir) {
        return None;
    }
    let dir = clone_from(path, 0, path.len() - 1);
    assert(views(dir@) =~= views(path@).drop_last());
    Some(dir)
}

/// The path that arises by appending `path` to the directory `dir`.
pub open spec fn joined_components(
    dir: Seq<ComponentView>,
    path: Seq<ComponentView>,
) -> Seq<ComponentView> {
    if dir.len() == 0 || (path.len() > 0 && path[0] is RootDir) {
        path
    } else if path.len() > 0 && path[0] is CurDir {
        dir + path.skip(1)
    } else {
        dir + path
    }
}

/// The path that arises by appending `path` to the directory `dir`.
pub fn join(dir: &Vec<PathComponent>, path: &Vec<PathComponent>) -> (out: Vec<PathComponent>)
    ensures
        views(out@) == joined_components(views(dir@), views(path@)),
{
    if dir.len() == 0 || (path.len() > 0 && component_eq(&path[0], &PathComponent::RootDir)) {
        let out = clone_from(path, 0, path.len());
        assert(views(out@) =~= views(path@));
        return out;
    }
    let mut out = clone_from(dir, 0, dir.len());
    assert(views(out@) =~= views(dir@));
    let start: usize = if path.len() > 0 && component_eq(&path[0], &PathComponent::CurDir) {
        1
    } else {
        0
    };
    let mut rest = clone_from(path, start, path.len());
    let ghost tail = views(rest@);
    out.append(&mut rest);
    assert(views(out@) =~= views(dir@) + tail);
    assert(views(out@) =~= joined_components(views(dir@), views(path@)));
    out
}

/// The name of the file or directory that a path leads to, if it ends in a name.
pub open spec fn last_name(path: Seq<ComponentView>) -> Option<Seq<char>> {
    if path.len() == 0 {
        None
    } else {
        match path.last() {
            ComponentView::Normal(name) => Some(name),
            _ => None,
        }
    }
}

/// The name of the file or directory that a path leads to, if it ends in a name.
pub fn file_name(path: &str) -> (name: Option<String>)
    ensures
        match last_name(path_components(path@)) {
            Some(want) => name matches Some(name) && name@ == want,
            None => name is None,
        },
{
    let list = components(path);
    if list.len() == 0 {
        return None;
    }
    assert(path_components(path@).last() == list@.last()@);
    match &list[list.len() - 1] {
        PathComponent::Normal(name) => Some(name.clone()),
        _ => None,
    }
}

/// Whether a path starts at the root.
pub open spec fn absolute(path: Seq<ComponentView>) -> bool {
    path.len() > 0 && path[0] is RootDir
}

/// Whether `path` starts at the root.
pub fn is_absolute(path: &str) -> (res: bool)
    ensures
        res == absolute(path_components(path@)),
{
    let list = components(path);
    list.len() > 0 && component_eq(&list[0], &PathComponent::RootDir)
}

/// The pairs for which the way from `base` to `path` leads back to `path`: behind the shared
/// part, `path` has only names; a `base` at the root needs a `path` at the root; and a `base`
/// that starts with `.` needs a `path` that starts likewise, or at the root, or not at all.
pub open spec fn leads_back(base: Seq<ComponentView>, path: Seq<ComponentView>) -> bool {
    &&& forall|i: int|
        common_prefix(base, path) <= i < path.len() ==> !(#[trigger] path[i] is CurDir) && !(
        path[i] is ParentDir)
    &&& absolute(base) ==> absolute(path)
    &&& base.len() > 0 && base[0] is CurDir ==> path.len() == 0 || path[0] is CurDir
        || path[0] is RootDir
}

pub proof fn lemma_resolved_concat(
    base: Seq<ComponentView>,
    a: Seq<ComponentView>,
    b: Seq<ComponentView>,
)
    ensures
        resolved_components(base, a + b) == resolved_components(resolved_components(base, a), b),
    decreases b.len(),
{
    if b.len() == 0 {
        assert(a + b =~= a);
    } else {
        assert((a + b).drop_last() =~= a + b.drop_last());
        lemma_resolved_concat(base, a, b.drop_last());
    }
}

pub proof fn lemma_resolved_parents(base: Seq<ComponentView>, n: nat)
    requires
        n <= base.len(),
        forall|i: int| base.len() - n <= i < base.len() ==> !(#[trigger] base[i] is RootDir),
    ensures
        resolved_components(base, parent_dirs(n)) == base.take(base.len() - n),
    decreases n,
{
    if n == 0 {
        assert(base.take(base.len() as int) =~= base);
    } else {
        let shorter = parent_dirs(n).drop_last();
        assert(shorter =~= parent_dirs((n - 1) as nat));
        lemma_resolved_parents(base, (n - 1) as nat);
        let before = base.take(base.len() - n + 1);
        assert(before.last() == base[base.len() - n]);
        assert(before.drop_last() =~= base.take(base.len() - n));
    }
}

proof fn lemma_resolved_parents_at_root(n: nat)
    ensures
        resolved_components(seq![ComponentView::RootDir], parent_dirs(n)) == seq![
            ComponentView::RootDir,
        ],
    decreases n,
{
    if n > 0 {
        assert(parent_dirs(n).drop_last() =~= parent_dirs((n - 1) as nat));
        lemma_resolved_parents_at_root((n - 1) as nat);
    }
}

pub proof fn lemma_resolved_names(base: Seq<ComponentView>, names: Seq<ComponentView>)
    requires
        forall|i: int| 0 <= i < names.len() ==> #[trigger] names[i] is Normal,
    ensures
        resolved_components(base, names) == base + names,
    decreases names.len(),
{
    if names.len() == 0 {
        assert(base + names =~= base);
    } else {
        lemma_resolved_names(base, names.drop_last());
        assert((base + names.drop_last()).push(names.last()) =~= base + names);
    }
}

/// What stands before a root does not show in the text.
pub proof fn lemma_render_from_root(before: Seq<ComponentView>, list: Seq<ComponentView>)
    requires
        absolute(list),
    ensures
        render(before + list) == render(list),
    decreases list.len(),
{
    assert((before + list).drop_last() =~= before + list.drop_last());
    assert((before + list).last() == list.last());
    if list.len() > 1 {
        lemma_render_from_root(before, list.drop_last());
    }
}

/// Reading the way from `base` to `path` from `base` gives `path` again.
#[verifier::spinoff_prover]
#[verifier::rlimit(50)]
pub proof fn law_resolve_undoes_relativize(base: Seq<char>, path: Seq<char>)
    requires
        leads_back(path_components(base), path_components(path)),
    ensures
        resolved_components(
            path_components(base),
            path_components(
                render(relative_components(path_components(base), path_components(path))),
            ),
        ) == path_components(path),
{
    let b = path_components(base);
    let p = path_components(path);
    lemma_path_components_well_formed(base);
    lemma_path_components_well_formed(path);
    lemma_common_prefix(b, p);
    let k = common_prefix(b, p) as int;
    let relative = relative_components(b, p);
    if k == 0 && absolute(p) {
        // Everything behind the root is a name.
        let names = p.skip(1);
        assert forall|i: int| 0 <= i < names.len() implies #[trigger] names[i] is Normal by {
            assert(names[i] == p[i + 1]);
        }
        let root = seq![ComponentView::RootDir];
        assert(p =~= root + names);
        if b.len() > 0 && b[0] is CurDir {
            let ups = parent_dirs((b.len() - 1) as nat);
            assert(relative =~= root + ups + names);
            assert forall|i: int| 0 <= i < relative.len() implies match #[trigger] relative[i] {
                ComponentView::RootDir => i == 0,
                ComponentView::CurDir => i == 0,
                ComponentView::ParentDir => true,
                ComponentView::Normal(name) => valid_name(name),
            } by {
                if i >= b.len() {
                    assert(relative[i] == p[i - b.len() + 1]);
                }
            }
            lemma_render_components(relative);
            lemma_resolved_concat(b, root + ups, names);
            lemma_resolved_concat(b, root, ups);
            assert(root.drop_last() =~= Seq::empty());
            assert(resolved_components(b, root) == root);
            lemma_resolved_parents_at_root((b.len() - 1) as nat);
            lemma_resolved_names(root, names);
        } else {
            assert(p.skip(0) =~= p);
            lemma_render_from_root(parent_dirs(b.len()), p);
            lemma_render_components(p);
            lemma_resolved_concat(b, root, names);
            assert(root.drop_last() =~= Seq::empty());
            assert(resolved_components(b, root) == root);
            lemma_resolved_names(root, names);
        }
    } else {
        let names = p.skip(k);
        assert forall|i: int| 0 <= i < names.len() implies #[trigger] names[i] is Normal by {
            assert(names[i] == p[i + k]);
        }
        let ups = parent_dirs((b.len() - k) as nat);
        if b.len() > 0 && b[0] is CurDir && p.len() > 0 {
            if k == 0 {
                assert(b[0] != p[0]);
            } else {
                assert(b.take(k)[0] == p.take(k)[0]);
            }
            assert(p[0] == b[0]);
        }
        assert(relative == ups + names);
        assert forall|i: int| 0 <= i < relative.len() implies match #[trigger] relative[i] {
            ComponentView::RootDir => i == 0,
            ComponentView::CurDir => i == 0,
            ComponentView::ParentDir => true,
            ComponentView::Normal(name) => valid_name(name),
        } by {
            if i >= ups.len() {
                assert(relative[i] == names[i - ups.len()]);
                assert(relative[i] == p[i - ups.len() + k]);
            }
        }
        lemma_render_components(relative);
        assert forall|i: int| k <= i < b.len() implies !(#[trigger] b[i] is RootDir) by {
            if k == 0 && absolute(b) {
                assert(b[0] != p[0]);
            }
        }
        lemma_resolved_concat(b, ups, names);
        lemma_resolved_parents(b, (b.len() - k) as nat);
        lemma_resolved_names(b.take(k), names);
        assert(b.take(k) + names =~= p) by {
            assert(p =~= p.take(k) + p.skip(k));
        }
    }
}

/// Reading `a` from `base` and then `b` from there leads where the two together lead.
pub proof fn law_resolve_in_two_steps(
    base: Seq<ComponentView>,
    a: Seq<ComponentView>,
    b: Seq<ComponentView>,
)
    ensures
        resolved_components(base, joined_components(a, b)) == resolved_components(
            resolved_components(base, a),
            b,
        ),
{
    if b.len() > 0 && (b[0] is RootDir || b[0] is CurDir) {
        let first = b.take(1);
        let rest = b.skip(1);
        let middle = resolved_components(base, a);
        assert(b =~= first + rest);
        assert(first.drop_last() =~= Seq::empty());
        assert(resolved_components(base, Seq::empty()) == base);
        assert(resolved_components(middle, Seq::empty()) == middle);
        lemma_resolved_concat(base, first, rest);
        lemma_resolved_concat(middle, first, rest);
        lemma_resolved_concat(base, a, rest);
    } else {
        lemma_resolved_concat(base, a, b);
    }
}

proof fn lemma_common_prefix_at_least(a: Seq<ComponentView>, b: Seq<ComponentView>, k: int)
    requires
        0 <= k <= a.len(),
        k <= b.len(),
        a.take(k) == b.take(k),
    ensures
        common_prefix(a, b) >= k,
{
    lemma_common_prefix(a, b);
    let c = common_prefix(a, b) as int;
    if c < k {
        assert(a.take(k)[c] == a[c] && b.take(k)[c] == b[c]);
    }
}

proof fn lemma_resolved_is_near(base: Seq<ComponentView>, way: Seq<ComponentView>)
    requires
        forall|i: int| 0 <= i < way.len() ==> !(#[trigger] way[i] is RootDir),
    ensures
        ({
            let place = resolved_components(base, way);
            &&& base.len() + place.len() - 2 * common_prefix(base, place) <= way.len()
            &&& place.len() > 0 && (place[0] is RootDir || place[0] is CurDir) ==> base.len() > 0
                && base[0] == place[0]
        }),
    decreases way.len(),
{
    if way.len() == 0 {
        lemma_common_prefix_at_least(base, base, base.len() as int);
    } else {
        let shorter = way.drop_last();
        assert forall|i: int| 0 <= i < shorter.len() implies !(#[trigger] shorter[i] is RootDir) by {
            assert(way[i] == shorter[i]);
        }
        lemma_resolved_is_near(base, shorter);
        let before = resolved_components(base, shorter);
        let place = resolved_components(base, way);
        lemma_common_prefix(base, before);
        let k = common_prefix(base, before) as int;
        assert(way[way.len() - 1] == way.last());
        match way.last() {
            ComponentView::ParentDir => {
                if place != before {
                    let kept = if k <= place.len() {
                        k
                    } else {
                        k - 1
                    };
                    assert(base.take(kept) =~= base.take(k).take(kept));
                    assert(place.take(kept) =~= before.take(k).take(kept));
                    lemma_common_prefix_at_least(base, place, kept);
                }
            },
            ComponentView::Normal(_) => {
                assert(place.take(k) =~= before.take(k));
                lemma_common_prefix_at_least(base, place, k);
            },
            _ => {},
        }
    }
}

/// No relative path that leads from `base` to `path` has fewer components than the one that
/// relativizing gives.
pub proof fn law_relative_path_is_shortest(base: Seq<char>, path: Seq<char>, way: Seq<char>)
    requires
        !absolute(path_components(way)),
        resolved_components(path_components(base), path_components(way)) == path_components(path),
    ensures
        path_components(
            render(relative_components(path_components(base), path_components(path))),
        ).len() <= path_components(way).len(),
{
    let b = path_components(base);
    let p = path_components(path);
    let w = path_components(way);
    let relative = relative_components(b, p);
    lemma_path_components_well_formed(base);
    lemma_path_components_well_formed(path);
    lemma_path_components_well_formed(way);
    lemma_resolved_is_near(b, w);
    lemma_common_prefix(b, p);
    let k = common_prefix(b, p) as int;
    assert(well_formed(relative)) by {
        assert forall|i: int| 0 <= i < relative.len() implies match #[trigger] relative[i] {
            ComponentView::RootDir => i == 0,
            ComponentView::CurDir => i == 0,
            ComponentView::ParentDir => true,
            ComponentView::Normal(name) => valid_name(name),
        } by {
            if b.len() > 0 && b[0] is CurDir && p.len() > 0 && p[0] != b[0] {
                if i == 0 {
                    assert(relative[0] == p[0]);
                } else if i >= b.len() {
                    assert(relative[i] == p[i - b.len() + 1]);
                }
            } else if i >= b.len() - k {
                assert(relative[i] == p[i - (b.len() - k) + k]);
            }
        }
    }
    lemma_render_components(relative);
}

/// The component of a piece of a path, if it has one.
spec fn later_component(piece: Seq<char>) -> Seq<ComponentView> {
    if piece.len() == 0 || piece == seq!['.'] {
        Seq::empty()
    } else if piece == seq!['.', '.'] {
        seq![ComponentView::ParentDir]
    } else {
        seq![ComponentView::Normal(piece)]
    }
}

/// The pieces of a text are what stands between its separators: a text without a separator is one
/// piece, and those of two texts with a separator between them are those of both.
pub proof fn law_pieces(a: Seq<char>, b: Seq<char>)
    ensures
        split(a.push('/') + b) == split(a) + split(b),
        !a.contains('/') ==> split(a) == seq![a],
    decreases b.len(),
{
    lemma_split_nonempty(a);
    if b.len() == 0 {
        assert(a.push('/') + b =~= a.push('/'));
        assert(a.push('/').drop_last() =~= a);
        assert(split(a) + split(b) =~= split(a).push(Seq::empty()));
    } else {
        law_pieces(a, b.drop_last());
        let text = a.push('/') + b;
        let shorter = b.drop_last();
        assert(text.drop_last() =~= a.push('/') + shorter);
        assert(text.last() == b.last());
        lemma_split_nonempty(shorter);
        assert((split(a) + split(shorter)).last() == split(shorter).last());
        assert((split(a) + split(shorter)).drop_last() =~= split(a) + split(shorter).drop_last());
        assert(split(text) =~= split(a) + split(b));
    }
    if !a.contains('/') {
        let none = Seq::<char>::empty();
        lemma_split_append(none, a);
        assert(none + a =~= a);
        assert(split(none) =~= seq![none]);
        assert(split(a) =~= seq![a]);
    }
}

/// How a text is read as a path. A text without a separator is a name, unless it is empty, a `.` or
/// a `..`. After a separator, an empty piece and a `.` are left out; a separator at the start is
/// the root.
pub proof fn law_components(text: Seq<char>, piece: Seq<char>)
    requires
        !piece.contains('/'),
    ensures
        piece.len() == 0 ==> path_components(piece).len() == 0,
        piece == seq!['.'] ==> path_components(piece) == seq![ComponentView::CurDir],
        piece == seq!['.', '.'] ==> path_components(piece) == seq![ComponentView::ParentDir],
        piece.len() > 0 && piece != seq!['.'] && piece != seq!['.', '.'] ==> path_components(piece)
            == seq![ComponentView::Normal(piece)],
        ({
            let before = if text.len() == 0 {
                seq![ComponentView::RootDir]
            } else {
                path_components(text)
            };
            let after = path_components(text.push('/') + piece);
            if piece.len() == 0 || piece == seq!['.'] {
                after == before
            } else if piece == seq!['.', '.'] {
                after == before.push(ComponentView::ParentDir)
            } else {
                after == before.push(ComponentView::Normal(piece))
            }
        }),
{
    law_pieces(piece, Seq::empty());
    law_pieces(text, piece);
    let one = seq![piece];
    assert(one.drop_last() =~= Seq::empty());
    assert(one.last() == piece);
    assert(piece_components(Seq::empty()) =~= Seq::empty());
    assert(root_components(piece).len() == 0) by {
        if piece.len() > 0 {
            assert(piece.contains(piece[0]));
        }
    }
    assert(path_components(piece) =~= piece_components(one));
    let pieces = split(text).push(piece);
    lemma_split_nonempty(text);
    assert(split(text) + seq![piece] =~= pieces);
    assert(pieces.drop_last() =~= split(text));
    let longer = text.push('/') + piece;
    if text.len() == 0 {
        assert(longer[0] == '/');
        let none = seq![Seq::<char>::empty()];
        assert(split(text) =~= none);
        assert(none.drop_last() =~= Seq::empty());
        assert(piece_components(none) =~= Seq::empty());
    } else {
        assert(longer[0] == text[0]);
    }
    assert(path_components(longer) =~= root_components(longer) + piece_components(split(text))
        + later_component(piece));
    if text.len() == 0 {
        assert(path_components(longer) =~= seq![ComponentView::RootDir] + later_component(piece));
    } else {
        assert(path_components(longer) =~= path_components(text) + later_component(piece));
    }
}

proof fn lemma_more_pieces(a: Seq<Seq<char>>, b: Seq<Seq<char>>)
    requires
        a.len() > 0,
    ensures
        piece_components(a + b) == piece_components(a) + (if piece_components(b).len() > 0
            && piece_components(b)[0] is CurDir {
            piece_components(b).skip(1)
        } else {
            piece_components(b)
        }),
        b.len() == 0 ==> piece_components(b).len() == 0,
    decreases b.len(),
{
    if b.len() == 0 {
        assert(a + b =~= a);
        assert(piece_components(a) + piece_components(b) =~= piece_components(a));
    } else {
        lemma_more_pieces(a, b.drop_last());
        assert((a + b).drop_last() =~= a + b.drop_last());
        assert((a + b).last() == b.last());
        let shorter = piece_components(b.drop_last());
        if let Some(component) = piece_component(b.len() == 1, b.last()) {
            assert(piece_components(b) == shorter.push(component));
            if shorter.len() > 0 {
                assert(shorter.push(component).skip(1) =~= shorter.skip(1).push(component));
                assert(shorter.push(component)[0] == shorter[0]);
            } else {
                assert(shorter.push(component).skip(1) =~= Seq::empty());
                assert(b.len() > 1 ==> !(component is CurDir));
            }
        }
        assert(piece_components(a + b) =~= piece_components(a) + (if piece_components(b).len() > 0
            && piece_components(b)[0] is CurDir {
            piece_components(b).skip(1)
        } else {
            piece_components(b)
        }));
    }
}

/// Joining a path to a directory gives the path that is written with a separator between the two;
/// an absolute path stays what it is, and so does any path that is joined to nothing.
pub proof fn law_joined(dir: Seq<char>, path: Seq<char>)
    ensures
        dir.len() > 0 && (path.len() == 0 || path[0] != '/') ==> joined_components(
            path_components(dir),
            path_components(path),
        ) == path_components(dir.push('/') + path),
        path.len() > 0 && path[0] == '/' ==> joined_components(
            path_components(dir),
            path_components(path),
        ) == path_components(path),
        dir.len() == 0 ==> joined_components(path_components(dir), path_components(path))
            == path_components(path),
{
    if dir.len() == 0 {
        assert(dir =~= Seq::empty());
        lemma_components_of_short_texts();
    }
    if dir.len() > 0 && (path.len() == 0 || path[0] != '/') {
        law_pieces(dir, path);
        lemma_split_nonempty(dir);
        lemma_more_pieces(split(dir), split(path));
        lemma_not_empty(dir);
        lemma_split_pieces(path);
        lemma_piece_components_well_formed(split(path));
        let text = dir.push('/') + path;
        assert(text[0] == dir[0]);
        let own = piece_components(split(path));
        assert(path_components(path) =~= own);
        if own.len() > 0 && own[0] is CurDir {
            assert(path_components(text) =~= path_components(dir) + own.skip(1));
        } else {
            assert(path_components(text) =~= path_components(dir) + own);
        }
    }
}

proof fn lemma_not_empty(text: Seq<char>)
    requires
        text.len() > 0,
    ensures
        path_components(text).len() > 0,
    decreases text.len(),
{
    if text[0] != '/' {
        lemma_first_piece(text);
        lemma_first_component(split(text));
    }
}

proof fn lemma_first_piece(text: Seq<char>)
    requires
        text.len() > 0,
        text[0] != '/',
    ensures
        split(text).len() > 0,
        split(text)[0].len() > 0,
    decreases text.len(),
{
    let shorter = text.drop_last();
    lemma_split_nonempty(shorter);
    if text.len() == 1 {
        law_pieces(text, Seq::empty());
    } else {
        lemma_first_piece(shorter);
    }
}

proof fn lemma_first_component(pieces: Seq<Seq<char>>)
    requires
        pieces.len() > 0,
        pieces[0].len() > 0,
    ensures
        piece_components(pieces).len() > 0,
    decreases pieces.len(),
{
    if pieces.len() > 1 {
        lemma_first_component(pieces.drop_last());
    }
}

/// The text of a path has no more separators than it needs: its pieces are the texts of the
/// components, one for one, and that of the root is empty.
pub proof fn law_rendered_text(list: Seq<ComponentView>)
    requires
        well_formed(list),
    ensures
        list.len() == 0 ==> render(list).len() == 0,
        list == seq![ComponentView::RootDir] ==> render(list) == seq!['/'],
        list.len() > 0 && list != seq![ComponentView::RootDir] ==> split(render(list)).len()
            == list.len() && forall|i: int|
            #![trigger list[i]]
            0 <= i < list.len() ==> match list[i] {
                ComponentView::RootDir => split(render(list))[i].len() == 0,
                ComponentView::CurDir => split(render(list))[i] == seq!['.'],
                ComponentView::ParentDir => split(render(list))[i] == seq!['.', '.'],
                ComponentView::Normal(name) => split(render(list))[i] == name,
            },
    decreases list.len(),
{
    if list.len() > 0 {
        let shorter = list.drop_last();
        let last = list.last();
        assert(list[list.len() - 1] == last);
        let own = component_text(last);
        assert(well_formed(shorter)) by {
            assert forall|i: int|
                #![trigger shorter[i]]
                0 <= i < shorter.len() implies match shorter[i] {
                ComponentView::RootDir => i == 0,
                ComponentView::CurDir => i == 0,
                ComponentView::ParentDir => true,
                ComponentView::Normal(name) => valid_name(name),
            } by {
                assert(shorter[i] == list[i]);
            }
        }
        law_rendered_text(shorter);
        if last is RootDir {
            assert(list =~= seq![ComponentView::RootDir]);
        } else {
            assert(!own.contains('/'));
            law_pieces(own, Seq::empty());
            assert(list != seq![ComponentView::RootDir]) by {
                assert(seq![ComponentView::RootDir][0] is RootDir);
            }
            if shorter.len() == 0 {
                assert(render(list) =~= own);
            } else if shorter == seq![ComponentView::RootDir] {
                let none = Seq::<char>::empty();
                law_pieces(none, own);
                assert(none.push('/') + own =~= render(list));
                assert(split(render(list)) =~= seq![none, own]);
                assert(list[0] == shorter[0]);
            } else {
                let text = render(shorter);
                let n = shorter.len() - 1;
                assert(shorter[n] == shorter.last());
                assert(split(text).last().len() > 0) by {
                    if shorter[n] is RootDir {
                        assert(shorter =~= seq![ComponentView::RootDir]);
                    }
                }
                assert(text.len() > 0);
                assert(text.last() != '/');
                law_pieces(text, own);
                assert(render(list) == text.push('/') + own);
                assert(split(render(list)) =~= split(text).push(own));
                assert forall|i: int|
                    #![trigger list[i]]
                    0 <= i < list.len() implies match list[i] {
                    ComponentView::RootDir => split(render(list))[i].len() == 0,
                    ComponentView::CurDir => split(render(list))[i] == seq!['.'],
                    ComponentView::ParentDir => split(render(list))[i] == seq!['.', '.'],
                    ComponentView::Normal(name) => split(render(list))[i] == name,
                } by {
                    if i < shorter.len() {
                        assert(shorter[i] == list[i]);
                    }
                }
            }
        }
    } else {
        assert(list =~= Seq::empty());
    }
}

/// A path starts with another exactly if the other's components are the first of its own; its
/// parent is all of it but the last component, which the root does not have; its name is the last
/// component, if that is a name; it is absolute exactly if it starts with the root.
pub proof fn law_parts(path: Seq<ComponentView>, base: Seq<ComponentView>)
    ensures
        starts_with(path, base) <==> base.is_prefix_of(path),
        match parent_components(path) {
            Some(dir) => path.len() > 0 && path == dir.push(path.last()) && !(path.last()
                is RootDir),
            None => path.len() == 0 || path.last() is RootDir,
        },
        match last_name(path) {
            Some(name) => path.len() > 0 && path.last() == ComponentView::Normal(name),
            None => path.len() == 0 || !(path.last() is Normal),
        },
        absolute(path) <==> seq![ComponentView::RootDir].is_prefix_of(path),
{
    let root = seq![ComponentView::RootDir];
    if path.len() > 0 {
        assert(path =~= path.drop_last().push(path.last()));
        assert(path.subrange(0, 1) =~= seq![path[0]]);
        if path[0] is RootDir {
            assert(path.subrange(0, 1) =~= root);
        } else if root.is_prefix_of(path) {
            assert(root[0] == path.subrange(0, 1)[0]);
        }
    }
}

/// Going along a path, a name leads below, a `.` nowhere, the root to the root, and a `..` back to
/// where the last component was not yet gone along, but never above the root or the start.
pub proof fn law_resolve_steps(
    base: Seq<ComponentView>,
    path: Seq<ComponentView>,
    name: Seq<char>,
)
    ensures
        resolved_components(base, Seq::empty()) == base,
        ({
            let here = resolved_components(base, path);
            &&& resolved_components(base, path.push(ComponentView::Normal(name))) == here.push(
                ComponentView::Normal(name),
            )
            &&& resolved_components(base, path.push(ComponentView::CurDir)) == here
            &&& resolved_components(base, path.push(ComponentView::RootDir)) == seq![
                ComponentView::RootDir,
            ]
            &&& here.len() > 0 && !(here.last() is RootDir) ==> resolved_components(
                base,
                path.push(ComponentView::ParentDir),
            ).push(here.last()) == here
            &&& here.len() == 0 || here.last() is RootDir ==> resolved_components(
                base,
                path.push(ComponentView::ParentDir),
            ) == here
        }),
{
    let here = resolved_components(base, path);
    assert(path.push(ComponentView::Normal(name)).drop_last() =~= path);
    assert(path.push(ComponentView::CurDir).drop_last() =~= path);
    assert(path.push(ComponentView::RootDir).drop_last() =~= path);
    assert(path.push(ComponentView::ParentDir).drop_last() =~= path);
    if here.len() > 0 {
        assert(here.drop_last().push(here.last()) =~= here);
    }
}

/// The way from one path to another goes up once for each component that the first does not share
/// with the second, and then down along what is left of the second. Only from a path that starts
/// with a `.`, to one that does not, it starts with the first component of the second.
pub proof fn law_way(base: Seq<ComponentView>, path: Seq<ComponentView>, shared: nat)
    requires
        shared <= base.len(),
        shared <= path.len(),
        forall|i: int| 0 <= i < shared ==> #[trigger] base[i] == path[i],
        shared < base.len() && shared < path.len() ==> base[shared as int] != path[shared as int],
    ensures
        ({
            let way = relative_components(base, path);
            if shared == 0 && base.len() > 0 && base[0] is CurDir && path.len() > 0 {
                &&& way.len() == base.len() - 1 + path.len()
                &&& way[0] == path[0]
                &&& forall|i: int| 1 <= i < base.len() ==> #[trigger] way[i] is ParentDir
                &&& forall|i: int|
                    1 <= i < path.len() ==> #[trigger] path[i] == way[base.len() - 1 + i]
            } else {
                &&& way.len() == (base.len() - shared) + (path.len() - shared)
                &&& forall|i: int|
                    0 <= i < base.len() - shared ==> #[trigger] way[i] is ParentDir
                &&& forall|i: int|
                    shared <= i < path.len() ==> #[trigger] path[i] == way[base.len() - shared + (i
                        - shared)]
            }
        }),
{
    assert(base.take(shared as int) =~= path.take(shared as int));
    lemma_common_prefix_unique(base, path, shared as int);
}

/// Components show what they hold, one for one.
pub proof fn law_views(list: Seq<PathComponent>, i: int)
    requires
        0 <= i < list.len(),
    ensures
        views(list).len() == list.len(),
        views(list)[i] is RootDir <==> list[i] is RootDir,
        views(list)[i] is CurDir <==> list[i] is CurDir,
        views(list)[i] is ParentDir <==> list[i] is ParentDir,
        list[i] matches PathComponent::Normal(name) ==> views(list)[i] == ComponentView::Normal(
            name@,
        ),
{
}

} // verus!
