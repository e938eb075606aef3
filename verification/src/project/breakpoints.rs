//! The breakpoints of a project, as they are saved and sent to debug adapters.
use super::{Project, ProjectView};
use crate::buffer;
use crate::event::Effect;
use crate::ids::{BufferId, DebugAdapterClientId, PayloadId, ProjectEntryId};
use crate::path;
use crate::path::ComponentView;
use crate::path_map;
use crate::path_map::PathMap;
use crate::project_path::ProjectPath;
use crate::seqs;
use crate::worktree;
use vstd::prelude::*;

verus! {

/// The breakpoints of one file.
#[derive(Debug, PartialEq)]
pub struct FileBreakpoints {
    pub path: ProjectPath,
    pub breakpoints: Vec<PayloadId>,
}

/// A breakpoint as it is saved: where it is depends on the buffer, if the file is open.
#[derive(Debug, PartialEq)]
pub struct SerializedBreakpoint {
    pub breakpoint: PayloadId,
    pub buffer: Option<BufferId>,
    /// The path below the root of the worktree.
    pub path: String,
}

/// What a debug adapter is told of the breakpoints of one file.
#[derive(Debug, PartialEq)]
pub struct BreakpointUpdate<T> {
    pub client_id: DebugAdapterClientId,
    pub abs_path: String,
    pub breakpoints: Vec<T>,
    /// Whether the debug adapter is to ignore them.
    pub ignore: bool,
}

/// What a [`BreakpointUpdate`] says.
pub struct UpdateView<T> {
    pub client_id: DebugAdapterClientId,
    pub abs_path: Seq<char>,
    pub breakpoints: Seq<T>,
    pub ignore: bool,
}

impl<T> View for BreakpointUpdate<T> {
    type V = UpdateView<T>;

    open spec fn view(&self) -> UpdateView<T> {
        UpdateView {
            client_id: self.client_id,
            abs_path: self.abs_path@,
            breakpoints: self.breakpoints@,
            ignore: self.ignore,
        }
    }
}

/// A change of the breakpoints of an open file.
#[derive(Debug, PartialEq)]
pub struct BreakpointToggle {
    pub project_path: ProjectPath,
    pub breakpoint: PayloadId,
    pub abs_path: String,
    pub buffer_id: BufferId,
    pub edit_action: PayloadId,
}

/// A breakpoint as it is saved.
pub open spec fn serialized(
    breakpoints: Seq<PayloadId>,
    buffer: Option<BufferId>,
    path: String,
) -> Seq<SerializedBreakpoint> {
    breakpoints.map_values(
        |breakpoint: PayloadId| SerializedBreakpoint { breakpoint, buffer, path },
    )
}

/// The breakpoints of a file, if there are any.
pub open spec fn breakpoints_at(store: Seq<FileBreakpoints>, path: ProjectPath) -> Option<
    FileBreakpoints,
> {
    seqs::find_first(store, |file: FileBreakpoints| file.path.place() == path.place())
}

impl ProjectView {
    /// The open buffer of a file.
    pub open spec fn buffer_at(self, path: ProjectPath) -> Option<BufferId> {
        match self.buffer_store.with_path(path) {
            Some(buffer) => Some(buffer.id),
            None => None,
        }
    }

    /// The breakpoints of a file as they are saved.
    pub open spec fn serialized_file(self, file: FileBreakpoints) -> Seq<SerializedBreakpoint> {
        serialized(file.breakpoints@, self.buffer_at(file.path), file.path.path)
    }

    /// The path under which the breakpoints of a file are kept, if it has one: where the file
    /// lies, or its path below the root of its worktree.
    pub open spec fn breakpoint_key(
        self,
        file: FileBreakpoints,
        as_abs_path: bool,
        abs_path: Option<String>,
    ) -> Option<Seq<ComponentView>> {
        if !as_abs_path {
            Some(path::path_components(file.path.path@))
        } else {
            match (self.worktree_store.with_id(file.path.worktree_id), abs_path) {
                (Some(_), Some(abs_path)) => Some(path::path_components(abs_path@)),
                _ => None,
            }
        }
    }

    /// All breakpoints, by path; files that have no path are left out.
    pub open spec fn breakpoints_by_path(
        self,
        files: Seq<FileBreakpoints>,
        as_abs_path: bool,
        abs_paths: Seq<Option<String>>,
    ) -> Map<Seq<ComponentView>, Seq<SerializedBreakpoint>>
        decreases files.len(),
    {
        if files.len() == 0 {
            Map::empty()
        } else {
            let before = self.breakpoints_by_path(files.drop_last(), as_abs_path, abs_paths);
            match self.breakpoint_key(files.last(), as_abs_path, abs_paths[files.len() - 1]) {
                Some(key) => path_map::extended(before, key, self.serialized_file(files.last())),
                None => before,
            }
        }
    }

    /// All breakpoints that are saved, by worktree.
    pub open spec fn saved_breakpoints(self, store: Seq<FileBreakpoints>, n: int) -> Map<
        Seq<ComponentView>,
        Seq<SerializedBreakpoint>,
    >
        decreases n,
    {
        if n <= 0 {
            Map::empty()
        } else {
            let before = self.saved_breakpoints(store, n - 1);
            match self.stored_file(store, store[n - 1].path) {
                Some((abs_path, list)) => path_map::extended(
                    before,
                    path::path_components(abs_path),
                    list,
                ),
                None => before,
            }
        }
    }

    /// The breakpoints of a file as they are saved, with the place of its worktree; those of a file
    /// that is not open are saved without a buffer.
    pub open spec fn stored_file(self, store: Seq<FileBreakpoints>, path: ProjectPath) -> Option<
        (Seq<char>, Seq<SerializedBreakpoint>),
    > {
        match (self.worktree_store.with_id(path.worktree_id), breakpoints_at(store, path)) {
            (Some(worktree), Some(file)) => Some(
                (
                    worktree.abs_path@,
                    serialized(file.breakpoints@, self.buffer_at(path), path.path),
                ),
            ),
            _ => None,
        }
    }

    /// The breakpoints of an open file as they are saved, with the place of its worktree.
    pub open spec fn saved_file(self, store: Seq<FileBreakpoints>, path: ProjectPath) -> Option<
        (Seq<char>, Seq<SerializedBreakpoint>),
    > {
        if self.buffer_at(path) is Some {
            self.stored_file(store, path)
        } else {
            None
        }
    }

    /// Where a debug adapter finds an open file, and its buffer; a file that is not open has no
    /// such place.
    pub open spec fn open_file(self, path: ProjectPath, abs_path: Option<String>) -> Option<
        (BufferId, String),
    > {
        match (self.buffer_store.with_path(path), abs_path) {
            (Some(buffer), Some(abs_path)) => match buffer.file_path() {
                Some(own) => if self.worktree_store.with_id(own.worktree_id) is Some {
                    Some((buffer.id, abs_path))
                } else {
                    None
                },
                None => None,
            },
            _ => None,
        }
    }

    /// What a debug adapter is told of the breakpoints of all open files.
    pub open spec fn open_updates(
        self,
        files: Seq<FileBreakpoints>,
        abs_paths: Seq<Option<String>>,
        client_id: DebugAdapterClientId,
        ignore: bool,
    ) -> Seq<UpdateView<(PayloadId, BufferId)>>
        decreases files.len(),
    {
        if files.len() == 0 {
            Seq::empty()
        } else {
            let before = self.open_updates(files.drop_last(), abs_paths, client_id, ignore);
            match self.open_file(files.last().path, abs_paths[files.len() - 1]) {
                Some((id, abs_path)) => before.push(
                    UpdateView {
                        client_id,
                        abs_path: abs_path@,
                        breakpoints: source_breakpoints(files.last().breakpoints@, id),
                        ignore,
                    },
                ),
                None => before,
            }
        }
    }
}

/// Breakpoints together with the buffer in which they are.
pub open spec fn source_breakpoints(breakpoints: Seq<PayloadId>, id: BufferId) -> Seq<
    (PayloadId, BufferId),
> {
    breakpoints.map_values(|breakpoint: PayloadId| (breakpoint, id))
}

/// What a list of updates says.
pub open spec fn update_views<T>(updates: Seq<BreakpointUpdate<T>>) -> Seq<UpdateView<T>> {
    updates.map_values(|update: BreakpointUpdate<T>| update@)
}

/// The lists of updates, by path.
pub open spec fn update_groups<T>(updates: Seq<BreakpointUpdate<T>>) -> Seq<path_map::PathGroup<T>> {
    updates.map_values(
        |update: BreakpointUpdate<T>|
            path_map::PathGroup { path: update.abs_path, items: update.breakpoints },
    )
}

fn serialize(breakpoints: &Vec<PayloadId>, buffer: Option<BufferId>, path: &String) -> (list: Vec<
    SerializedBreakpoint,
>)
    ensures
        list@ == serialized(breakpoints@, buffer, *path),
{
    let ghost want = serialized(breakpoints@, buffer, *path);
    let mut list: Vec<SerializedBreakpoint> = Vec::new();
    let mut i: usize = 0;
    while i < breakpoints.len()
        invariant
            i <= breakpoints.len(),
            want == serialized(breakpoints@, buffer, *path),
            list@ == want.take(i as int),
        decreases breakpoints.len() - i,
    {
        list.push(SerializedBreakpoint { breakpoint: breakpoints[i], buffer, path: path.clone() });
        i = i + 1;
        assert(list@ =~= want.take(i as int));
    }
    assert(list@ =~= want);
    list
}

fn file_breakpoints<'a>(store: &'a Vec<FileBreakpoints>, path: &ProjectPath) -> (res: Option<
    &'a FileBreakpoints,
>)
    ensures
        crate::worktree::found(res, breakpoints_at(store@, *path)),
{
    let ghost p = |file: FileBreakpoints| file.path.place() == path.place();
    let mut i: usize = 0;
    while i < store.len()
        invariant
            i <= store.len(),
            p == (|file: FileBreakpoints| file.path.place() == path.place()),
            forall|j: int| 0 <= j < i ==> !p(#[trigger] store@[j]),
        decreases store.len() - i,
    {
        if store[i].path == *path {
            proof {
                seqs::lemma_find_first_at(store@, p, i as int);
            }
            return Some(&store[i]);
        }
        i = i + 1;
    }
    proof {
        seqs::lemma_find_first_none(store@, p);
    }
    None
}

impl Project {
    fn open_buffer_id(&self, path: &ProjectPath) -> (res: Option<BufferId>)
        ensures
            res == self@.buffer_at(*path),
    {
        match self.get_open_buffer(path) {
            Some(buffer) => Some(buffer.id),
            None => None,
        }
    }

    /// All breakpoints, by path. With `as_abs_path` these are the places on the machine;
    /// `abs_paths` gives, file by file, what the worktrees make of the paths.
    pub fn all_breakpoints(
        &self,
        files: &Vec<FileBreakpoints>,
        as_abs_path: bool,
        abs_paths: &Vec<Option<String>>,
    ) -> (res: PathMap<SerializedBreakpoint>)
        requires
            abs_paths.len() == files.len(),
        ensures
            res.wf(),
            res@ == self@.breakpoints_by_path(files@, as_abs_path, abs_paths@),
    {
        let mut all: PathMap<SerializedBreakpoint> = PathMap::new();
        let mut i: usize = 0;
        while i < files.len()
            invariant
                i <= files.len(),
                abs_paths.len() == files.len(),
                all.wf(),
                all@ == self@.breakpoints_by_path(files@.take(i as int), as_abs_path, abs_paths@),
            decreases files.len() - i,
        {
            assert(files@.take(i as int + 1).drop_last() =~= files@.take(i as int));
            let file = &files[i];
            let key: Option<String> = if as_abs_path {
                match (self.worktree_for_id(file.path.worktree_id), &abs_paths[i]) {
                    (Some(_), Some(abs_path)) => Some(abs_path.clone()),
                    _ => None,
                }
            } else {
                Some(file.path.path.clone())
            };
            if let Some(key) = key {
                let buffer = self.open_buffer_id(&file.path);
                all.extend(key, serialize(&file.breakpoints, buffer, &file.path.path));
            }
            i = i + 1;
        }
        assert(files@.take(i as int) =~= files@);
        all
    }

    /// Tells a debug adapter of all breakpoints, file by file.
    pub fn send_breakpoints(
        &self,
        client_id: DebugAdapterClientId,
        files: &Vec<FileBreakpoints>,
        abs_paths: &Vec<Option<String>>,
        ignore: bool,
    ) -> (updates: Vec<BreakpointUpdate<SerializedBreakpoint>>)
        requires
            abs_paths.len() == files.len(),
        ensures
            path_map::distinct_paths(update_groups(updates@)),
            path_map::as_map(update_groups(updates@)) == self@.breakpoints_by_path(
                files@,
                true,
                abs_paths@,
            ),
            forall|i: int|
                0 <= i < updates.len() ==> (#[trigger] updates@[i]).client_id == client_id
                    && updates@[i].ignore == ignore,
    {
        let mut groups = self.all_breakpoints(files, true, abs_paths).into_groups();
        let ghost all = groups@;
        let mut updates: Vec<BreakpointUpdate<SerializedBreakpoint>> = Vec::new();
        let ghost mut n: int = 0;
        assert(all.skip(0) =~= all);
        assert(update_groups(updates@) =~= all.take(0));
        while groups.len() > 0
            invariant
                0 <= n <= all.len(),
                groups@ == all.skip(n),
                update_groups(updates@) == all.take(n),
                forall|i: int|
                    0 <= i < updates.len() ==> (#[trigger] updates@[i]).client_id == client_id
                        && updates@[i].ignore == ignore,
            decreases groups.len(),
        {
            let group = groups.remove(0);
            let ghost before = update_groups(updates@);
            updates.push(
                BreakpointUpdate {
                    client_id,
                    abs_path: group.path,
                    breakpoints: group.items,
                    ignore,
                },
            );
            proof {
                assert(update_groups(updates@) =~= before.push(group));
                assert(before.push(group) =~= all.take(n + 1));
                assert(groups@ =~= all.skip(n + 1));
                n = n + 1;
            }
        }
        assert(all.take(n) =~= all);
        updates
    }

    /// The breakpoints of a file as they are saved, with the place of its worktree. There are none
    /// if no buffer is open for the file; `serialize_breakpoints` gives those of closed files too.
    pub fn serialize_breakpoints_for_project_path(
        &self,
        store: &Vec<FileBreakpoints>,
        project_path: &ProjectPath,
    ) -> (res: Option<(String, Vec<SerializedBreakpoint>)>)
        ensures
            match self@.saved_file(store@, *project_path) {
                Some((abs_path, list)) => res matches Some((place, saved)) && place@ == abs_path
                    && saved@ == list,
                None => res is None,
            },
    {
        if self.open_buffer_id(project_path).is_none() {
            return None;
        }
        self.serialize_stored(store, project_path)
    }

    fn serialize_stored(&self, store: &Vec<FileBreakpoints>, project_path: &ProjectPath) -> (res:
        Option<(String, Vec<SerializedBreakpoint>)>)
        ensures
            match self@.stored_file(store@, *project_path) {
                Some((abs_path, list)) => res matches Some((place, saved)) && place@ == abs_path
                    && saved@ == list,
                None => res is None,
            },
    {
        let buffer = self.open_buffer_id(project_path);
        let abs_path = match self.worktree_for_id(project_path.worktree_id) {
            Some(worktree) => worktree.abs_path.clone(),
            None => return None,
        };
        match file_breakpoints(store, project_path) {
            Some(file) => Some(
                (abs_path, serialize(&file.breakpoints, buffer, &project_path.path)),
            ),
            None => None,
        }
    }

    /// All breakpoints as they are saved, by worktree; none if the user does not want them saved.
    /// Those of a closed file are saved without a buffer.
    pub fn serialize_breakpoints(&self, store: &Vec<FileBreakpoints>, save_breakpoints: bool) -> (
    res: PathMap<SerializedBreakpoint>)
        ensures
            res.wf(),
            res@ == (if save_breakpoints {
                self@.saved_breakpoints(store@, store.len() as int)
            } else {
                Map::empty()
            }),
    {
        let mut result: PathMap<SerializedBreakpoint> = PathMap::new();
        if !save_breakpoints {
            return result;
        }
        let mut i: usize = 0;
        while i < store.len()
            invariant
                i <= store.len(),
                result.wf(),
                result@ == self@.saved_breakpoints(store@, i as int),
            decreases store.len() - i,
        {
            if let Some((abs_path, list)) = self.serialize_stored(store, &store[i].path) {
                result.extend(abs_path, list);
            }
            i = i + 1;
        }
        result
    }

    /// Lets a debug adapter ignore the breakpoints, or no longer: the setting of the adapter is
    /// toggled, and then the adapter is told of the breakpoints of the open files. `ignored` says
    /// whether the adapter ignores them so far; `abs_paths` gives, file by file, what the worktrees
    /// make of the paths.
    pub fn toggle_ignore_breakpoints(
        &self,
        client_id: DebugAdapterClientId,
        files: &Vec<FileBreakpoints>,
        abs_paths: &Vec<Option<String>>,
        ignored: bool,
    ) -> (res: (Vec<Effect>, Vec<BreakpointUpdate<(PayloadId, BufferId)>>))
        requires
            abs_paths.len() == files.len(),
        ensures
            res.0@ == seq![Effect::ToggleIgnoreBreakpoints(client_id)],
            update_views(res.1@) == self@.open_updates(files@, abs_paths@, client_id, !ignored),
    {
        let ignore = !ignored;
        let mut updates: Vec<BreakpointUpdate<(PayloadId, BufferId)>> = Vec::new();
        let mut i: usize = 0;
        assert(update_views(updates@) =~= Seq::empty());
        while i < files.len()
            invariant
                i <= files.len(),
                abs_paths.len() == files.len(),
                update_views(updates@) == self@.open_updates(
                    files@.take(i as int),
                    abs_paths@,
                    client_id,
                    ignore,
                ),
            decreases files.len() - i,
        {
            assert(files@.take(i as int + 1).drop_last() =~= files@.take(i as int));
            if let Some((id, abs_path)) = self.open_file_place(&files[i].path, &abs_paths[i]) {
                let ghost before = update_views(updates@);
                let breakpoints = in_buffer(&files[i].breakpoints, id);
                let ghost view = UpdateView {
                    client_id,
                    abs_path: abs_path@,
                    breakpoints: breakpoints@,
                    ignore,
                };
                updates.push(BreakpointUpdate { client_id, abs_path, breakpoints, ignore });
                assert(update_views(updates@) =~= before.push(view));
            }
            i = i + 1;
        }
        assert(files@.take(i as int) =~= files@);
        (vec![Effect::ToggleIgnoreBreakpoints(client_id)], updates)
    }

    fn open_file_place(&self, path: &ProjectPath, abs_path: &Option<String>) -> (res: Option<
        (BufferId, String),
    >)
        ensures
            res == self@.open_file(*path, *abs_path),
    {
        let buffer = match self.get_open_buffer(path) {
            Some(buffer) => buffer,
            None => return None,
        };
        let own = match buffer.project_path() {
            Some(own) => own,
            None => return None,
        };
        match (self.worktree_for_id(own.worktree_id), abs_path) {
            (Some(_), Some(abs_path)) => Some((buffer.id, abs_path.clone())),
            _ => None,
        }
    }

    /// Changes a breakpoint of an open buffer; `abs_path` is what the worktree of its file makes
    /// of the path. Nothing happens to a buffer that is not open or has no place on the machine.
    pub fn toggle_breakpoint(
        &self,
        buffer_id: BufferId,
        breakpoint: PayloadId,
        edit_action: PayloadId,
        abs_path: Option<String>,
    ) -> (res: Option<BreakpointToggle>)
        ensures
            res == (match (self@.buffer_store.with_id(buffer_id), abs_path) {
                (Some(buffer), Some(abs_path)) => match buffer.file_path() {
                    Some(project_path) => if self@.worktree_store.with_id(
                        project_path.worktree_id,
                    ) is Some {
                        Some(
                            BreakpointToggle {
                                project_path,
                                breakpoint,
                                abs_path,
                                buffer_id: buffer.id,
                                edit_action,
                            },
                        )
                    } else {
                        None
                    },
                    None => None,
                },
                _ => None,
            }),
    {
        let buffer = match self.buffer_for_id(buffer_id) {
            Some(buffer) => buffer,
            None => return None,
        };
        let project_path = match buffer.project_path() {
            Some(path) => path,
            None => return None,
        };
        if self.worktree_for_id(project_path.worktree_id).is_none() {
            return None;
        }
        match abs_path {
            Some(abs_path) => Some(
                BreakpointToggle {
                    project_path,
                    breakpoint,
                    abs_path,
                    buffer_id: buffer.id,
                    edit_action,
                },
            ),
            None => None,
        }
    }
}

/// All breakpoints of a file that has a path are found under the path, and whatever is found under
/// a path is a breakpoint of a file with that path.
pub proof fn law_all_breakpoints_found(
    view: ProjectView,
    files: Seq<FileBreakpoints>,
    as_abs_path: bool,
    abs_paths: Seq<Option<String>>,
    key: Seq<ComponentView>,
    item: SerializedBreakpoint,
)
    requires
        abs_paths.len() >= files.len(),
    ensures
        ({
            let map = view.breakpoints_by_path(files, as_abs_path, abs_paths);
            (map.contains_key(key) && map[key].contains(item)) <==> exists|i: int|
                0 <= i < files.len() && view.breakpoint_key(
                    #[trigger] files[i],
                    as_abs_path,
                    abs_paths[i],
                ) == Some(key) && view.serialized_file(files[i]).contains(item)
        }),
    decreases files.len(),
{
    if files.len() > 0 {
        let rest = files.drop_last();
        let n = files.len() - 1;
        law_all_breakpoints_found(view, rest, as_abs_path, abs_paths, key, item);
        let before = view.breakpoints_by_path(rest, as_abs_path, abs_paths);
        let map = view.breakpoints_by_path(files, as_abs_path, abs_paths);
        let own = view.serialized_file(files[n]);
        if view.breakpoint_key(files[n], as_abs_path, abs_paths[n]) == Some(key) {
            let first = if before.contains_key(key) {
                before[key]
            } else {
                Seq::empty()
            };
            lemma_contains_either(first, own, item);
            assert(map[key] == first + own);
        }
        if before.contains_key(key) && before[key].contains(item) {
            let i = choose|i: int|
                0 <= i < rest.len() && view.breakpoint_key(
                    #[trigger] rest[i],
                    as_abs_path,
                    abs_paths[i],
                ) == Some(key) && view.serialized_file(rest[i]).contains(item);
            assert(files[i] == rest[i]);
        }
        if exists|i: int|
            0 <= i < files.len() && view.breakpoint_key(
                #[trigger] files[i],
                as_abs_path,
                abs_paths[i],
            ) == Some(key) && view.serialized_file(files[i]).contains(item) {
            let i = choose|i: int|
                0 <= i < files.len() && view.breakpoint_key(
                    #[trigger] files[i],
                    as_abs_path,
                    abs_paths[i],
                ) == Some(key) && view.serialized_file(files[i]).contains(item);
            if i < n {
                assert(rest[i] == files[i]);
            }
        }
    }
}

proof fn lemma_contains_either<T>(a: Seq<T>, b: Seq<T>, x: T)
    ensures
        (a + b).contains(x) <==> a.contains(x) || b.contains(x),
{
    if a.contains(x) {
        let i = choose|i: int| 0 <= i < a.len() && a[i] == x;
        assert((a + b)[i] == x);
    }
    if b.contains(x) {
        let i = choose|i: int| 0 <= i < b.len() && b[i] == x;
        assert((a + b)[a.len() + i] == x);
    }
    if (a + b).contains(x) {
        let i = choose|i: int| 0 <= i < (a + b).len() && (a + b)[i] == x;
        if i < a.len() {
            assert(a[i] == x);
        } else {
            assert(b[i - a.len()] == x);
        }
    }
}

/// Breakpoints are saved under the place of a worktree of the project, and there all that belong to
/// files of that worktree; an open file's are those that are found for its path alone.
pub proof fn law_saved_by_worktree(
    view: ProjectView,
    store: Seq<FileBreakpoints>,
    n: int,
    key: Seq<ComponentView>,
    item: SerializedBreakpoint,
)
    requires
        0 <= n <= store.len(),
    ensures
        ({
            let map = view.saved_breakpoints(store, n);
            (map.contains_key(key) && map[key].contains(item)) <==> exists|i: int|
                0 <= i < n && (view.stored_file(store, (#[trigger] store[i]).path) matches Some(
                    (place, list),
                ) && path::path_components(place) == key && list.contains(item))
        }),
        view.saved_breakpoints(store, n).contains_key(key) ==> exists|i: int|
            0 <= i < n && (view.worktree_store.with_id((#[trigger] store[i]).path.worktree_id)
                matches Some(worktree) && path::path_components(worktree.abs_path@) == key),
        forall|path: ProjectPath|
            view.buffer_at(path) is Some ==> #[trigger] view.saved_file(store, path)
                == view.stored_file(store, path),
    decreases n,
{
    if n > 0 {
        law_saved_by_worktree(view, store, n - 1, key, item);
        let before = view.saved_breakpoints(store, n - 1);
        let map = view.saved_breakpoints(store, n);
        match view.stored_file(store, store[n - 1].path) {
            Some((place, list)) => {
                if path::path_components(place) == key {
                    let first = if before.contains_key(key) {
                        before[key]
                    } else {
                        Seq::empty()
                    };
                    lemma_contains_either(first, list, item);
                    assert(map[key] == first + list);
                }
            },
            None => {},
        }
    }
}

fn in_buffer(breakpoints: &Vec<PayloadId>, id: BufferId) -> (list: Vec<(PayloadId, BufferId)>)
    ensures
        list@ == source_breakpoints(breakpoints@, id),
{
    let ghost want = source_breakpoints(breakpoints@, id);
    let mut list: Vec<(PayloadId, BufferId)> = Vec::new();
    let mut i: usize = 0;
    while i < breakpoints.len()
        invariant
            i <= breakpoints.len(),
            want == source_breakpoints(breakpoints@, id),
            list@ == want.take(i as int),
        decreases breakpoints.len() - i,
    {
        list.push((breakpoints[i], id));
        i = i + 1;
        assert(list@ =~= want.take(i as int));
    }
    assert(list@ =~= want);
    list
}

/// Whether a list holds the breakpoints of a file, in their order, each with the path of the file
/// and with the first open buffer of the file, if there is one.
pub open spec fn saves(
    view: ProjectView,
    breakpoints: Seq<PayloadId>,
    path: ProjectPath,
    list: Seq<SerializedBreakpoint>,
) -> bool {
    &&& list.len() == breakpoints.len()
    &&& forall|i: int|
        #![trigger list[i]]
        0 <= i < list.len() ==> list[i].breakpoint == breakpoints[i] && list[i].path == path.path
            && open_as(view, path, list[i].buffer)
}

/// Whether this is the first open buffer of a file.
pub open spec fn open_as(view: ProjectView, path: ProjectPath, id: Option<BufferId>) -> bool {
    match id {
        Some(id) => exists|k: int|
            #![trigger view.buffer_store.buffers@[k]]
            buffer::first_buffer_at(view.buffer_store.buffers@, path, k)
                && view.buffer_store.buffers@[k].id == id,
        None => forall|k: int|
            0 <= k < view.buffer_store.buffers@.len() ==> !buffer::holds_file(
                #[trigger] view.buffer_store.buffers@[k],
                path,
            ),
    }
}

proof fn lemma_buffer_at(view: ProjectView, path: ProjectPath)
    ensures
        open_as(view, path, view.buffer_at(path)),
{
    buffer::law_buffer_lookups(view.buffer_store, BufferId(1), path);
    if let Some(found) = view.buffer_store.with_path(path) {
        let k = choose|k: int| #[trigger]
            view.buffer_store.buffers@[k] == found && buffer::first_buffer_at(
                view.buffer_store.buffers@,
                path,
                k,
            );
        assert(view.buffer_store.buffers@[k] == found);
    }
}

/// Whether a breakpoint of a file stands under a path, saved with the path of the file.
pub open spec fn stands_under(
    map: Map<Seq<ComponentView>, Seq<SerializedBreakpoint>>,
    key: Seq<ComponentView>,
    file: FileBreakpoints,
    b: int,
) -> bool {
    map.contains_key(key) && exists|n: int|
        0 <= n < map[key].len() && (#[trigger] map[key][n]).breakpoint == file.breakpoints@[b]
            && map[key][n].path == file.path.path
}

/// Whether what is saved is a breakpoint of a file whose path has these components.
pub open spec fn comes_from(
    files: Seq<FileBreakpoints>,
    key: Seq<ComponentView>,
    item: SerializedBreakpoint,
) -> bool {
    exists|i: int, b: int|
        #![trigger files[i].breakpoints@[b]]
        0 <= i < files.len() && 0 <= b < files[i].breakpoints@.len() && path::path_components(
            files[i].path.path@,
        ) == key && files[i].breakpoints@[b] == item.breakpoint && files[i].path.path == item.path
}

/// Without the places on the machine, the breakpoints of every file stand under its whole path
/// below the root, and under no other; so those of two files stand under one path exactly if their
/// paths have the same components.
pub proof fn law_keys_are_whole_paths(
    view: ProjectView,
    files: Seq<FileBreakpoints>,
    abs_paths: Seq<Option<String>>,
    key: Seq<ComponentView>,
)
    ensures
        ({
            let map = view.breakpoints_by_path(files, false, abs_paths);
            &&& map.contains_key(key) <==> exists|i: int|
                0 <= i < files.len() && path::path_components((#[trigger] files[i]).path.path@)
                    == key
            &&& forall|i: int, b: int|
                0 <= i < files.len() && 0 <= b < files[i].breakpoints@.len()
                    && path::path_components(files[i].path.path@) == key ==> #[trigger] stands_under(
                    map,
                    key,
                    files[i],
                    b,
                )
            &&& forall|n: int|
                map.contains_key(key) && 0 <= n < map[key].len() ==> comes_from(
                    files,
                    key,
                    #[trigger] map[key][n],
                )
        }),
        forall|i: int, j: int|
            0 <= i < files.len() && 0 <= j < files.len() ==> (view.breakpoint_key(
                #[trigger] files[i],
                false,
                abs_paths[i],
            ) == view.breakpoint_key(#[trigger] files[j], false, abs_paths[j])
                <==> path::path_components(files[i].path.path@) == path::path_components(
                files[j].path.path@,
            )),
    decreases files.len(),
{
    let map = view.breakpoints_by_path(files, false, abs_paths);
    if files.len() > 0 {
        let rest = files.drop_last();
        let last = files.len() - 1;
        let before = view.breakpoints_by_path(rest, false, abs_paths);
        let own = path::path_components(files[last].path.path@);
        law_keys_are_whole_paths(view, rest, abs_paths, key);
        if before.contains_key(key) {
            let i = choose|i: int|
                0 <= i < rest.len() && path::path_components((#[trigger] rest[i]).path.path@) == key;
            assert(files[i] == rest[i]);
        }
        assert(map.contains_key(key) <==> exists|i: int|
            0 <= i < files.len() && path::path_components((#[trigger] files[i]).path.path@) == key)
            by {
            if exists|i: int|
                0 <= i < files.len() && path::path_components((#[trigger] files[i]).path.path@)
                    == key {
                let i = choose|i: int|
                    0 <= i < files.len() && path::path_components((#[trigger] files[i]).path.path@)
                        == key;
                if i < last {
                    assert(rest[i] == files[i]);
                }
            }
        }
        let first = if before.contains_key(own) {
            before[own]
        } else {
            Seq::empty()
        };
        let added = view.serialized_file(files[last]);
        assert(map[own] == first + added);
        assert forall|i: int, b: int|
            0 <= i < files.len() && 0 <= b < files[i].breakpoints@.len() && path::path_components(
                files[i].path.path@,
            ) == key implies #[trigger] stands_under(map, key, files[i], b) by {
            if i == last {
                assert(map[own][first.len() + b] == added[b]);
            } else {
                assert(rest[i] == files[i]);
                assert(rest[i].breakpoints@[b] == files[i].breakpoints@[b]);
                assert(stands_under(before, key, rest[i], b));
                let n = choose|n: int|
                    0 <= n < before[key].len() && (#[trigger] before[key][n]).breakpoint
                        == rest[i].breakpoints@[b] && before[key][n].path == rest[i].path.path;
                assert(map[key][n] == before[key][n]);
            }
        }
        assert forall|n: int| map.contains_key(key) && 0 <= n < map[key].len() implies comes_from(
            files,
            key,
            #[trigger] map[key][n],
        ) by {
            if key == own && n >= first.len() {
                let b = n - first.len();
                assert(map[key][n] == added[b]);
                assert(files[last].breakpoints@[b] == map[key][n].breakpoint);
            } else {
                assert(map[key][n] == before[key][n]);
                assert(comes_from(rest, key, before[key][n]));
                let (i, b) = choose|i: int, b: int|
                    #![trigger rest[i].breakpoints@[b]]
                    0 <= i < rest.len() && 0 <= b < rest[i].breakpoints@.len()
                        && path::path_components(rest[i].path.path@) == key
                        && rest[i].breakpoints@[b] == before[key][n].breakpoint
                        && rest[i].path.path == before[key][n].path;
                assert(files[i].breakpoints@[b] == rest[i].breakpoints@[b]);
            }
        }
    }
}

/// With one file more, its breakpoints come after those that stand under its path, which is its
/// path below the root or, if places on the machine are asked for, where it lies: a file whose
/// worktree is gone or that lies nowhere adds nothing. Nothing else changes.
pub proof fn law_one_file_more(
    view: ProjectView,
    files: Seq<FileBreakpoints>,
    file: FileBreakpoints,
    as_abs_path: bool,
    abs_paths: Seq<Option<String>>,
    other: Seq<ComponentView>,
)
    requires
        abs_paths.len() == files.len() + 1,
    ensures
        view.breakpoints_by_path(Seq::empty(), as_abs_path, abs_paths).dom() == Set::<
            Seq<ComponentView>,
        >::empty(),
        ({
            let before = view.breakpoints_by_path(files, as_abs_path, abs_paths);
            let after = view.breakpoints_by_path(files.push(file), as_abs_path, abs_paths);
            let known = exists|w: int|
                0 <= w < view.worktree_store.worktrees@.len() && (
                #[trigger] view.worktree_store.worktrees@[w]).id == file.path.worktree_id;
            let place = abs_paths[files.len() as int];
            if as_abs_path && !(known && place is Some) {
                after == before
            } else {
                let key = if as_abs_path {
                    path::path_components(place->0@)
                } else {
                    path::path_components(file.path.path@)
                };
                let first = if before.contains_key(key) {
                    before[key]
                } else {
                    Seq::empty()
                };
                &&& after.contains_key(key)
                &&& after[key].len() >= first.len() && after[key].take(first.len() as int) == first
                &&& saves(
                    view,
                    file.breakpoints@,
                    file.path,
                    after[key].skip(first.len() as int),
                )
                &&& other != key ==> after.contains_key(other) == before.contains_key(other)
                &&& other != key && before.contains_key(other) ==> after[other] == before[other]
            }
        }),
{
    let before = view.breakpoints_by_path(files, as_abs_path, abs_paths);
    let after = view.breakpoints_by_path(files.push(file), as_abs_path, abs_paths);
    assert(files.push(file).drop_last() =~= files);
    worktree::law_worktree_lookups(
        view.worktree_store,
        file.path.worktree_id,
        ProjectEntryId(0),
        Seq::empty(),
    );
    lemma_buffer_at(view, file.path);
    if let Some(key) = view.breakpoint_key(file, as_abs_path, abs_paths[files.len() as int]) {
        let first = if before.contains_key(key) {
            before[key]
        } else {
            Seq::empty()
        };
        assert(after[key].take(first.len() as int) =~= first);
        assert(after[key].skip(first.len() as int) =~= view.serialized_file(file));
    }
}

/// The breakpoints that are kept for a path are those of the first file at that place.
pub proof fn law_kept_breakpoints(store: Seq<FileBreakpoints>, path: ProjectPath)
    ensures
        match breakpoints_at(store, path) {
            Some(file) => exists|k: int|
                0 <= k < store.len() && #[trigger] store[k] == file && same_place(file.path, path)
                    && forall|j: int| 0 <= j < k ==> !same_place((#[trigger] store[j]).path, path),
            None => forall|j: int|
                0 <= j < store.len() ==> !same_place((#[trigger] store[j]).path, path),
        },
{
    let there = |file: FileBreakpoints| file.path.place() == path.place();
    seqs::lemma_find_first_index(store, there);
    if let Some(file) = breakpoints_at(store, path) {
        let k = choose|k: int|
            0 <= k < store.len() && store[k] == file && there(store[k]) && forall|j: int|
                0 <= j < k ==> !there(#[trigger] store[j]);
        assert(store[k] == file);
        assert forall|j: int| 0 <= j < k implies !same_place((#[trigger] store[j]).path, path) by {
            assert(!there(store[j]));
        }
    } else {
        assert forall|j: int| 0 <= j < store.len() implies !same_place(
            (#[trigger] store[j]).path,
            path,
        ) by {
            assert(!there(store[j]));
        }
    }
}

/// Whether two paths lie in one worktree and have the same components.
pub open spec fn same_place(a: ProjectPath, b: ProjectPath) -> bool {
    a.worktree_id == b.worktree_id && path::path_components(a.path@) == path::path_components(
        b.path@,
    )
}

/// The breakpoints of a file are saved under the place of the first worktree with its identifier
/// exactly if there is such a worktree and some are kept for the file; those of a file that is not
/// open are left out where only open files are asked for.
pub proof fn law_file_saved(view: ProjectView, store: Seq<FileBreakpoints>, path: ProjectPath)
    ensures
        match view.stored_file(store, path) {
            Some((place, list)) => exists|w: int|
                worktree::first_with_id(view.worktree_store.worktrees@, path.worktree_id, w)
                    && #[trigger] view.worktree_store.worktrees@[w].abs_path@ == place && (
                breakpoints_at(store, path) matches Some(file) && saves(
                    view,
                    file.breakpoints@,
                    path,
                    list,
                )),
            None => breakpoints_at(store, path) is None || forall|w: int|
                0 <= w < view.worktree_store.worktrees@.len()
                    ==> (#[trigger] view.worktree_store.worktrees@[w]).id != path.worktree_id,
        },
        (exists|k: int|
            0 <= k < view.buffer_store.buffers@.len() && buffer::holds_file(
                #[trigger] view.buffer_store.buffers@[k],
                path,
            )) ==> view.saved_file(store, path) == view.stored_file(store, path),
        (forall|k: int|
            0 <= k < view.buffer_store.buffers@.len() ==> !buffer::holds_file(
                #[trigger] view.buffer_store.buffers@[k],
                path,
            )) ==> view.saved_file(store, path) is None,
{
    lemma_buffer_at(view, path);
    if let Some(id) = view.buffer_at(path) {
        let k = choose|k: int|
            #![trigger view.buffer_store.buffers@[k]]
            buffer::first_buffer_at(view.buffer_store.buffers@, path, k)
                && view.buffer_store.buffers@[k].id == id;
        assert(buffer::holds_file(view.buffer_store.buffers@[k], path));
    }
    worktree::lemma_first_with_id(view.worktree_store, path.worktree_id);
    worktree::law_worktree_lookups(
        view.worktree_store,
        path.worktree_id,
        ProjectEntryId(0),
        Seq::empty(),
    );
    if let Some((place, list)) = view.stored_file(store, path) {
        let found = view.worktree_store.with_id(path.worktree_id)->0;
        let w = choose|w: int| #[trigger]
            view.worktree_store.worktrees@[w] == found && worktree::first_with_id(
                view.worktree_store.worktrees@,
                path.worktree_id,
                w,
            );
        assert(view.worktree_store.worktrees@[w].abs_path@ == place);
    }
}

/// What is saved of one file more comes after what is saved under the place of its worktree; a file
/// of which nothing is saved changes nothing.
pub proof fn law_one_more_saved(
    view: ProjectView,
    store: Seq<FileBreakpoints>,
    n: int,
    other: Seq<ComponentView>,
)
    requires
        0 <= n < store.len(),
    ensures
        view.saved_breakpoints(store, 0).dom() == Set::<Seq<ComponentView>>::empty(),
        ({
            let before = view.saved_breakpoints(store, n);
            let after = view.saved_breakpoints(store, n + 1);
            match view.stored_file(store, store[n].path) {
                Some((place, list)) => {
                    let key = path::path_components(place);
                    &&& after.contains_key(key)
                    &&& before.contains_key(key) ==> after[key] == before[key] + list
                    &&& !before.contains_key(key) ==> after[key] == list
                    &&& other != key ==> after.contains_key(other) == before.contains_key(other)
                    &&& other != key && before.contains_key(other) ==> after[other]
                        == before[other]
                },
                None => after == before,
            }
        }),
{
    if let Some((place, list)) = view.stored_file(store, store[n].path) {
        path_map::law_extended(
            view.saved_breakpoints(store, n),
            path::path_components(place),
            list,
            other,
        );
    }
}

/// A debug adapter is told of one file more exactly if a buffer is open for the file, its worktree
/// is one of the project and it lies somewhere: after all others, where it lies, all its
/// breakpoints in their order, each with the first open buffer.
pub proof fn law_one_update_more(
    view: ProjectView,
    files: Seq<FileBreakpoints>,
    file: FileBreakpoints,
    abs_paths: Seq<Option<String>>,
    client_id: DebugAdapterClientId,
    ignore: bool,
)
    requires
        abs_paths.len() == files.len() + 1,
    ensures
        view.open_updates(Seq::empty(), abs_paths, client_id, ignore).len() == 0,
        ({
            let before = view.open_updates(files, abs_paths, client_id, ignore);
            let after = view.open_updates(files.push(file), abs_paths, client_id, ignore);
            let place = abs_paths[files.len() as int];
            let known = exists|w: int|
                0 <= w < view.worktree_store.worktrees@.len() && (
                #[trigger] view.worktree_store.worktrees@[w]).id == file.path.worktree_id;
            let open = exists|k: int|
                0 <= k < view.buffer_store.buffers@.len() && buffer::holds_file(
                    #[trigger] view.buffer_store.buffers@[k],
                    file.path,
                );
            if known && open && place is Some {
                &&& after.len() == before.len() + 1 && after.drop_last() == before
                &&& after.last().client_id == client_id && after.last().ignore == ignore
                &&& after.last().abs_path == place->0@
                &&& after.last().breakpoints.len() == file.breakpoints@.len()
                &&& forall|i: int|
                    #![trigger after.last().breakpoints[i]]
                    0 <= i < file.breakpoints@.len() ==> after.last().breakpoints[i].0
                        == file.breakpoints@[i] && open_as(
                        view,
                        file.path,
                        Some(after.last().breakpoints[i].1),
                    )
            } else {
                after == before
            }
        }),
{
    let after = view.open_updates(files.push(file), abs_paths, client_id, ignore);
    assert(files.push(file).drop_last() =~= files);
    buffer::law_buffer_lookups(view.buffer_store, BufferId(1), file.path);
    lemma_buffer_at(view, file.path);
    worktree::law_worktree_lookups(
        view.worktree_store,
        file.path.worktree_id,
        ProjectEntryId(0),
        Seq::empty(),
    );
    if let Some(found) = view.buffer_store.with_path(file.path) {
        let k = choose|k: int| #[trigger]
            view.buffer_store.buffers@[k] == found && buffer::first_buffer_at(
                view.buffer_store.buffers@,
                file.path,
                k,
            );
        assert(buffer::holds_file(view.buffer_store.buffers@[k], file.path));
    }
    assert(after.drop_last() =~= view.open_updates(files, abs_paths, client_id, ignore)
        || after == view.open_updates(files, abs_paths, client_id, ignore));
}

/// What updates say is what they hold, one for one.
pub proof fn law_updates<T>(updates: Seq<BreakpointUpdate<T>>, i: int)
    requires
        0 <= i < updates.len(),
    ensures
        update_views(updates).len() == updates.len(),
        update_groups(updates).len() == updates.len(),
        update_views(updates)[i].client_id == updates[i].client_id,
        update_views(updates)[i].abs_path == updates[i].abs_path@,
        update_views(updates)[i].breakpoints == updates[i].breakpoints@,
        update_views(updates)[i].ignore == updates[i].ignore,
        update_groups(updates)[i].path == updates[i].abs_path,
        update_groups(updates)[i].items == updates[i].breakpoints,
{
}

} // verus!
