//! Lists that are kept under paths.
use crate::path;
use crate::path::{same_path, ComponentView};
use vstd::prelude::*;

verus! {

/// What is kept under one path.
#[derive(Debug, PartialEq)]
pub struct PathGroup<T> {
    pub path: String,
    pub items: Vec<T>,
}

/// Lists under paths; two texts of the same path are one path.
#[derive(Debug)]
pub struct PathMap<T> {
    groups: Vec<PathGroup<T>>,
}

/// Whether something is kept under a path.
pub open spec fn has_path<T>(groups: Seq<PathGroup<T>>, list: Seq<ComponentView>) -> bool {
    exists|i: int|
        0 <= i < groups.len() && path::path_components((#[trigger] groups[i]).path@) == list
}

/// Where the list of a path stands.
pub open spec fn path_index<T>(groups: Seq<PathGroup<T>>, list: Seq<ComponentView>) -> int {
    choose|i: int|
        0 <= i < groups.len() && path::path_components((#[trigger] groups[i]).path@) == list
}

/// Whether no path stands twice.
pub open spec fn distinct_paths<T>(groups: Seq<PathGroup<T>>) -> bool {
    forall|i: int, j: int|
        0 <= i < j < groups.len() ==> path::path_components((#[trigger] groups[i]).path@)
            != path::path_components((#[trigger] groups[j]).path@)
}

/// The lists, by path.
pub open spec fn as_map<T>(groups: Seq<PathGroup<T>>) -> Map<Seq<ComponentView>, Seq<T>> {
    Map::new(
        |list: Seq<ComponentView>| has_path(groups, list),
        |list: Seq<ComponentView>| groups[path_index(groups, list)].items@,
    )
}

/// The lists after more was put under a path.
pub open spec fn extended<T>(
    map: Map<Seq<ComponentView>, Seq<T>>,
    list: Seq<ComponentView>,
    items: Seq<T>,
) -> Map<Seq<ComponentView>, Seq<T>> {
    map.insert(
        list,
        (if map.contains_key(list) {
            map[list]
        } else {
            Seq::empty()
        }) + items,
    )
}

proof fn lemma_at<T>(groups: Seq<PathGroup<T>>, i: int)
    requires
        distinct_paths(groups),
        0 <= i < groups.len(),
    ensures
        as_map(groups).contains_key(path::path_components(groups[i].path@)),
        as_map(groups)[path::path_components(groups[i].path@)] == groups[i].items@,
{
    let list = path::path_components(groups[i].path@);
    assert(has_path(groups, list));
    let k = path_index(groups, list);
    assert(path::path_components(groups[k].path@) == list);
    if k < i {
        assert(path::path_components(groups[k].path@) != path::path_components(groups[i].path@));
    } else if i < k {
        assert(path::path_components(groups[i].path@) != path::path_components(groups[k].path@));
    }
}

proof fn lemma_extend_at<T>(before: Seq<PathGroup<T>>, after: Seq<PathGroup<T>>, i: int, items: Seq<T>)
    requires
        distinct_paths(before),
        0 <= i < before.len(),
        after.len() == before.len(),
        after[i].path == before[i].path,
        after[i].items@ == before[i].items@ + items,
        forall|j: int| 0 <= j < before.len() && j != i ==> #[trigger] after[j] == before[j],
    ensures
        distinct_paths(after),
        as_map(after) == extended(as_map(before), path::path_components(before[i].path@), items),
{
    let key = path::path_components(before[i].path@);
    assert forall|j: int| 0 <= j < before.len() implies (#[trigger] after[j]).path == before[j].path by {}
    assert(distinct_paths(after)) by {
        assert forall|j: int, k: int| 0 <= j < k < after.len() implies path::path_components(
            (#[trigger] after[j]).path@,
        ) != path::path_components((#[trigger] after[k]).path@) by {
            assert(path::path_components(before[j].path@) != path::path_components(before[k].path@));
        }
    }
    lemma_at(before, i);
    let want = extended(as_map(before), key, items);
    assert forall|list: Seq<ComponentView>| #[trigger] as_map(after).contains_key(list)
        == want.contains_key(list) by {
        if has_path(before, list) {
            let j = path_index(before, list);
            assert(path::path_components(after[j].path@) == list);
        }
        if has_path(after, list) {
            let j = path_index(after, list);
            assert(path::path_components(before[j].path@) == list);
        }
    }
    assert forall|list: Seq<ComponentView>| #[trigger] as_map(after).contains_key(list) implies as_map(
        after,
    )[list] == want[list] by {
        let j = path_index(after, list);
        assert(path::path_components(after[j].path@) == list);
        lemma_at(after, j);
        lemma_at(before, j);
        if j != i {
            if j < i {
                assert(path::path_components(before[j].path@) != path::path_components(
                    before[i].path@,
                ));
            } else {
                assert(path::path_components(before[i].path@) != path::path_components(
                    before[j].path@,
                ));
            }
        }
    }
    assert(as_map(after) =~= want);
}

proof fn lemma_extend_new<T>(before: Seq<PathGroup<T>>, group: PathGroup<T>)
    requires
        distinct_paths(before),
        !has_path(before, path::path_components(group.path@)),
    ensures
        distinct_paths(before.push(group)),
        as_map(before.push(group)) == extended(
            as_map(before),
            path::path_components(group.path@),
            group.items@,
        ),
{
    let after = before.push(group);
    let n = before.len() as int;
    let key = path::path_components(group.path@);
    assert(distinct_paths(after)) by {
        assert forall|j: int, k: int| 0 <= j < k < after.len() implies path::path_components(
            (#[trigger] after[j]).path@,
        ) != path::path_components((#[trigger] after[k]).path@) by {
            if k < n {
                assert(path::path_components(before[j].path@) != path::path_components(
                    before[k].path@,
                ));
            } else {
                assert(after[j] == before[j]);
            }
        }
    }
    let want = extended(as_map(before), key, group.items@);
    assert(after[n] == group);
    assert forall|list: Seq<ComponentView>| #[trigger] as_map(after).contains_key(list)
        == want.contains_key(list) by {
        if has_path(before, list) {
            let j = path_index(before, list);
            assert(path::path_components(after[j].path@) == list);
        }
        if has_path(after, list) {
            let j = path_index(after, list);
            if j < n {
                assert(path::path_components(before[j].path@) == list);
            }
        }
    }
    assert forall|list: Seq<ComponentView>| #[trigger] as_map(after).contains_key(list) implies as_map(
        after,
    )[list] == want[list] by {
        let j = path_index(after, list);
        assert(path::path_components(after[j].path@) == list);
        lemma_at(after, j);
        if j < n {
            assert(after[j] == before[j]);
            lemma_at(before, j);
        } else {
            assert(want[list] =~= group.items@);
        }
    }
    assert(as_map(after) =~= want);
}

impl<T> View for PathMap<T> {
    type V = Map<Seq<ComponentView>, Seq<T>>;

    closed spec fn view(&self) -> Map<Seq<ComponentView>, Seq<T>> {
        as_map(self.groups@)
    }
}

impl<T> PathMap<T> {
    /// No path stands twice.
    pub closed spec fn wf(&self) -> bool {
        distinct_paths(self.groups@)
    }

    /// Nothing is kept.
    pub fn new() -> (res: Self)
        ensures
            res.wf(),
            res@ == Map::<Seq<ComponentView>, Seq<T>>::empty(),
    {
        let res = PathMap { groups: Vec::new() };
        assert(res@ =~= Map::empty());
        res
    }

    /// Puts more under a path.
    pub fn extend(&mut self, path: String, items: Vec<T>)
        requires
            old(self).wf(),
        ensures
            final(self).wf(),
            final(self)@ == extended(old(self)@, path::path_components(path@), items@),
    {
        let ghost before = self.groups@;
        match self.position(path.as_str()) {
            Some(i) => {
                let ghost more = items@;
                let mut items = items;
                self.groups[i].items.append(&mut items);
                proof {
                    lemma_extend_at(before, self.groups@, i as int, more);
                }
            },
            None => {
                let group = PathGroup { path, items };
                proof {
                    lemma_extend_new(before, group);
                }
                self.groups.push(group);
            },
        }
    }

    fn position(&self, path: &str) -> (res: Option<usize>)
        ensures
            match res {
                Some(i) => i < self.groups.len() && path::path_components(
                    self.groups@[i as int].path@,
                ) == path::path_components(path@),
                None => !has_path(self.groups@, path::path_components(path@)),
            },
    {
        let mut i: usize = 0;
        while i < self.groups.len()
            invariant
                i <= self.groups.len(),
                forall|j: int|
                    0 <= j < i ==> path::path_components((#[trigger] self.groups@[j]).path@)
                        != path::path_components(path@),
            decreases self.groups.len() - i,
        {
            if same_path(self.groups[i].path.as_str(), path) {
                return Some(i);
            }
            i = i + 1;
        }
        None
    }

    /// What is kept, path by path.
    pub fn into_groups(self) -> (groups: Vec<PathGroup<T>>)
        requires
            self.wf(),
        ensures
            distinct_paths(groups@),
            as_map(groups@) == self@,
    {
        self.groups
    }
}

/// What stands under a path are the items of the one group whose path has its components.
pub proof fn law_groups<T>(groups: Seq<PathGroup<T>>, list: Seq<ComponentView>)
    requires
        distinct_paths(groups),
    ensures
        forall|i: int, j: int|
            0 <= i < groups.len() && 0 <= j < groups.len() && path::path_components(
                (#[trigger] groups[i]).path@,
            ) == path::path_components((#[trigger] groups[j]).path@) ==> i == j,
        as_map(groups).contains_key(list) <==> exists|i: int|
            0 <= i < groups.len() && path::path_components((#[trigger] groups[i]).path@) == list,
        forall|i: int|
            0 <= i < groups.len() && path::path_components((#[trigger] groups[i]).path@) == list
                ==> as_map(groups)[list] == groups[i].items@,
{
    assert forall|i: int|
        0 <= i < groups.len() && path::path_components(
            (#[trigger] groups[i]).path@,
        ) == list implies as_map(groups)[list] == groups[i].items@ by {
        lemma_at(groups, i);
    }
}

/// What is put under a path comes after what stood there, and nothing else changes.
pub proof fn law_extended<T>(
    map: Map<Seq<ComponentView>, Seq<T>>,
    list: Seq<ComponentView>,
    items: Seq<T>,
    other: Seq<ComponentView>,
)
    ensures
        extended(map, list, items).contains_key(list),
        map.contains_key(list) ==> extended(map, list, items)[list] == map[list] + items,
        !map.contains_key(list) ==> extended(map, list, items)[list] == items,
        other != list ==> extended(map, list, items).contains_key(other) == map.contains_key(other),
        other != list && map.contains_key(other) ==> extended(map, list, items)[other]
            == map[other],
{
    assert(Seq::<T>::empty() + items =~= items);
}

} // verus!
