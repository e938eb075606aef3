//! The order of paths: component by component.
use crate::path;
use crate::path::{components, to_chars, ComponentView, PathComponent};
use vstd::prelude::*;

verus! {

/// How two things stand to each other.
#[derive(Clone, Copy, Debug, PartialEq, Eq, Structural)]
pub enum Placement {
    Before,
    Same,
    After,
}

/// How two texts stand to each other: by the first character in which they differ.
pub open spec fn text_placement(a: Seq<char>, b: Seq<char>) -> Placement
    decreases a.len(),
{
    if a.len() == 0 {
        if b.len() == 0 {
            Placement::Same
        } else {
            Placement::Before
        }
    } else if b.len() == 0 {
        Placement::After
    } else if a[0] < b[0] {
        Placement::Before
    } else if b[0] < a[0] {
        Placement::After
    } else {
        text_placement(a.skip(1), b.skip(1))
    }
}

/// The place of a sort of component: the root, then `.`, then `..`, then names.
pub open spec fn component_rank(c: ComponentView) -> int {
    match c {
        ComponentView::RootDir => 0,
        ComponentView::CurDir => 1,
        ComponentView::ParentDir => 2,
        ComponentView::Normal(_) => 3,
    }
}

/// How two components stand to each other.
pub open spec fn component_placement(a: ComponentView, b: ComponentView) -> Placement {
    match (a, b) {
        (ComponentView::Normal(x), ComponentView::Normal(y)) => text_placement(x, y),
        _ => if component_rank(a) < component_rank(b) {
            Placement::Before
        } else if component_rank(b) < component_rank(a) {
            Placement::After
        } else {
            Placement::Same
        },
    }
}

/// How two paths stand to each other: by the first component in which they differ.
pub open spec fn path_placement(a: Seq<ComponentView>, b: Seq<ComponentView>) -> Placement
    decreases a.len(),
{
    if a.len() == 0 {
        if b.len() == 0 {
            Placement::Same
        } else {
            Placement::Before
        }
    } else if b.len() == 0 {
        Placement::After
    } else {
        match component_placement(a[0], b[0]) {
            Placement::Same => path_placement(a.skip(1), b.skip(1)),
            other => other,
        }
    }
}

/// How two texts stand to each other.
pub fn compare_texts(a: &str, b: &str) -> (res: Placement)
    ensures
        res == text_placement(a@, b@),
{
    let xs = to_chars(a);
    let ys = to_chars(b);
    let mut i: usize = 0;
    assert(xs@.skip(0) =~= a@ && ys@.skip(0) =~= b@);
    while i < xs.len() && i < ys.len()
        invariant
            i <= xs.len(),
            i <= ys.len(),
            text_placement(a@, b@) == text_placement(xs@.skip(i as int), ys@.skip(i as int)),
        decreases xs.len() - i,
    {
        assert(xs@.skip(i as int).skip(1) =~= xs@.skip(i as int + 1));
        assert(ys@.skip(i as int).skip(1) =~= ys@.skip(i as int + 1));
        if xs[i] < ys[i] {
            return Placement::Before;
        }
        if ys[i] < xs[i] {
            return Placement::After;
        }
        i = i + 1;
    }
    if i < xs.len() {
        Placement::After
    } else if i < ys.len() {
        Placement::Before
    } else {
        Placement::Same
    }
}

fn rank(c: &PathComponent) -> (res: u8)
    ensures
        res == component_rank(c@),
{
    match c {
        PathComponent::RootDir => 0,
        PathComponent::CurDir => 1,
        PathComponent::ParentDir => 2,
        PathComponent::Normal(_) => 3,
    }
}

/// How two components stand to each other.
pub fn compare_components(a: &PathComponent, b: &PathComponent) -> (res: Placement)
    ensures
        res == component_placement(a@, b@),
{
    if let (PathComponent::Normal(x), PathComponent::Normal(y)) = (a, b) {
        return compare_texts(x.as_str(), y.as_str());
    }
    let left = rank(a);
    let right = rank(b);
    if left < right {
        Placement::Before
    } else if right < left {
        Placement::After
    } else {
        Placement::Same
    }
}

/// How two paths stand to each other.
pub fn place_paths(a: &str, b: &str) -> (res: Placement)
    ensures
        res == path_placement(path::path_components(a@), path::path_components(b@)),
{
    let xs = components(a);
    let ys = components(b);
    let ghost left = path::path_components(a@);
    let ghost right = path::path_components(b@);
    let mut i: usize = 0;
    assert(left.skip(0) =~= left && right.skip(0) =~= right);
    while i < xs.len() && i < ys.len()
        invariant
            i <= xs.len(),
            i <= ys.len(),
            left == path::views(xs@),
            right == path::views(ys@),
            left == path::path_components(a@),
            right == path::path_components(b@),
            path_placement(left, right) == path_placement(
                left.skip(i as int),
                right.skip(i as int),
            ),
        decreases xs.len() - i,
    {
        assert(left.skip(i as int)[0] == xs@[i as int]@);
        assert(right.skip(i as int)[0] == ys@[i as int]@);
        assert(left.skip(i as int).skip(1) =~= left.skip(i as int + 1));
        assert(right.skip(i as int).skip(1) =~= right.skip(i as int + 1));
        match compare_components(&xs[i], &ys[i]) {
            Placement::Same => {},
            other => {
                return other;
            },
        }
        i = i + 1;
    }
    if i < xs.len() {
        Placement::After
    } else if i < ys.len() {
        Placement::Before
    } else {
        Placement::Same
    }
}

/// The other way round.
pub open spec fn reversed(p: Placement) -> Placement {
    match p {
        Placement::Before => Placement::After,
        Placement::Same => Placement::Same,
        Placement::After => Placement::Before,
    }
}

proof fn lemma_text_placement(a: Seq<char>, b: Seq<char>)
    ensures
        text_placement(a, b) == Placement::Same <==> a == b,
        text_placement(b, a) == reversed(text_placement(a, b)),
    decreases a.len(),
{
    if a.len() > 0 && b.len() > 0 && a[0] == b[0] {
        lemma_text_placement(a.skip(1), b.skip(1));
        assert(a =~= seq![a[0]] + a.skip(1));
        assert(b =~= seq![b[0]] + b.skip(1));
    } else if a.len() == 0 && b.len() == 0 {
        assert(a =~= b);
    }
}

proof fn lemma_text_transitive(a: Seq<char>, b: Seq<char>, c: Seq<char>)
    requires
        text_placement(a, b) == Placement::Before,
        text_placement(b, c) == Placement::Before,
    ensures
        text_placement(a, c) == Placement::Before,
    decreases a.len(),
{
    if a.len() > 0 && b.len() > 0 && c.len() > 0 && a[0] == b[0] && b[0] == c[0] {
        lemma_text_transitive(a.skip(1), b.skip(1), c.skip(1));
    }
}

proof fn lemma_component_placement(a: ComponentView, b: ComponentView)
    ensures
        component_placement(a, b) == Placement::Same <==> a == b,
        component_placement(b, a) == reversed(component_placement(a, b)),
{
    if let (ComponentView::Normal(x), ComponentView::Normal(y)) = (a, b) {
        lemma_text_placement(x, y);
    }
}

/// Paths stand in one order: two are at the same place exactly when they are the same path, and
/// if one is before another then that one is after it.
pub proof fn law_paths_compare(a: Seq<ComponentView>, b: Seq<ComponentView>)
    ensures
        path_placement(a, b) == Placement::Same <==> a == b,
        path_placement(b, a) == reversed(path_placement(a, b)),
    decreases a.len(),
{
    if a.len() > 0 && b.len() > 0 {
        lemma_component_placement(a[0], b[0]);
        if a[0] == b[0] {
            law_paths_compare(a.skip(1), b.skip(1));
            assert(a =~= seq![a[0]] + a.skip(1));
            assert(b =~= seq![b[0]] + b.skip(1));
        }
    } else if a.len() == 0 && b.len() == 0 {
        assert(a =~= b);
    }
}

/// A path that is before a second that is before a third is before the third.
pub proof fn law_path_order_transitive(
    a: Seq<ComponentView>,
    b: Seq<ComponentView>,
    c: Seq<ComponentView>,
)
    requires
        path_placement(a, b) == Placement::Before,
        path_placement(b, c) == Placement::Before,
    ensures
        path_placement(a, c) == Placement::Before,
    decreases a.len(),
{
    if a.len() > 0 && b.len() > 0 && c.len() > 0 {
        lemma_component_placement(a[0], b[0]);
        lemma_component_placement(b[0], c[0]);
        lemma_component_placement(a[0], c[0]);
        if a[0] == b[0] && b[0] == c[0] {
            law_path_order_transitive(a.skip(1), b.skip(1), c.skip(1));
        } else if a[0] != b[0] && b[0] != c[0] {
            match (a[0], b[0], c[0]) {
                (
                    ComponentView::Normal(x),
                    ComponentView::Normal(y),
                    ComponentView::Normal(z),
                ) => {
                    lemma_text_transitive(x, y, z);
                },
                _ => {},
            }
        }
    }
}

/// The first place at which two texts differ decides their order; if there is none, the shorter
/// comes first.
pub proof fn law_text_order(a: Seq<char>, b: Seq<char>, k: int)
    requires
        0 <= k <= a.len(),
        k <= b.len(),
        forall|i: int| 0 <= i < k ==> #[trigger] a[i] == b[i],
    ensures
        k < a.len() && k < b.len() && a[k] < b[k] ==> text_placement(a, b) is Before,
        k < a.len() && k < b.len() && b[k] < a[k] ==> text_placement(a, b) is After,
        k == a.len() && k < b.len() ==> text_placement(a, b) is Before,
        k == b.len() && k < a.len() ==> text_placement(a, b) is After,
        k == a.len() && k == b.len() ==> text_placement(a, b) is Same,
    decreases k,
{
    if k > 0 {
        let x = a.skip(1);
        let y = b.skip(1);
        assert(a[0] == b[0]);
        assert forall|i: int| 0 <= i < k - 1 implies #[trigger] x[i] == y[i] by {
            assert(a[i + 1] == b[i + 1]);
        }
        law_text_order(x, y, k - 1);
    }
}

/// The root comes before a `.`, that before a `..`, and that before a name; names come in the order
/// of their texts.
pub proof fn law_component_order(name: Seq<char>, other: Seq<char>)
    ensures
        component_placement(ComponentView::RootDir, ComponentView::CurDir) is Before,
        component_placement(ComponentView::CurDir, ComponentView::ParentDir) is Before,
        component_placement(ComponentView::RootDir, ComponentView::ParentDir) is Before,
        component_placement(ComponentView::RootDir, ComponentView::Normal(name)) is Before,
        component_placement(ComponentView::CurDir, ComponentView::Normal(name)) is Before,
        component_placement(ComponentView::ParentDir, ComponentView::Normal(name)) is Before,
        component_placement(ComponentView::Normal(name), ComponentView::Normal(other))
            == text_placement(name, other),
{
}

/// The first component in which two paths differ decides their order; if there is none, the
/// shorter comes first. So a directory comes before what it holds.
pub proof fn law_path_order(a: Seq<ComponentView>, b: Seq<ComponentView>, k: int)
    requires
        0 <= k <= a.len(),
        k <= b.len(),
        forall|i: int| 0 <= i < k ==> #[trigger] a[i] == b[i],
    ensures
        k < a.len() && k < b.len() && a[k] != b[k] ==> path_placement(a, b) == component_placement(
            a[k],
            b[k],
        ),
        k == a.len() && k < b.len() ==> path_placement(a, b) is Before,
        k == b.len() && k < a.len() ==> path_placement(a, b) is After,
        k == a.len() && k == b.len() ==> path_placement(a, b) is Same,
    decreases k,
{
    if a.len() > 0 && b.len() > 0 {
        lemma_component_placement(a[0], b[0]);
    }
    if k > 0 {
        let x = a.skip(1);
        let y = b.skip(1);
        assert(a[0] == b[0]);
        assert forall|i: int| 0 <= i < k - 1 implies #[trigger] x[i] == y[i] by {
            assert(a[i + 1] == b[i + 1]);
        }
        law_path_order(x, y, k - 1);
    }
}

} // verus!
