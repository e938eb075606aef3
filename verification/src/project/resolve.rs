//! Finding out what a path in a text stands for.
use super::{Project, ProjectClientState, ProjectView};
use crate::buffer::Buffer;
use crate::event::{ProjectError, SSH_PROJECT_ID};
use crate::ids::{PayloadId, WorktreeId};
use crate::path;
use crate::path::{
    components, file_name, is_absolute, join, parent, resolve_components, strip_component_prefix,
    ComponentView, PathComponent,
};
use crate::project_path::{ProjectPath, ResolvedPath};
use crate::seqs;
use crate::tilde;
use crate::tilde::expand_tilde;
use crate::worktree;
use crate::worktree::{Entry, Worktree};
use vstd::prelude::*;

verus! {

/// Who is asked whether a path exists.
#[derive(Debug, PartialEq)]
pub enum PathQuery {
    /// The file system of this machine.
    Local { path: String },
    /// The ssh server.
    Remote { project_id: u64, path: String },
    /// Nobody: the path is not found.
    Nobody,
}

/// What the ssh server says of a path.
#[derive(Debug, PartialEq)]
pub struct PathMetadata {
    pub exists: bool,
    pub path: String,
    pub is_dir: bool,
}

/// How a path that was found in a buffer is resolved.
#[derive(Debug, PartialEq)]
pub enum BufferPathQuery {
    /// The path is one of the machine.
    Absolute(PathQuery),
    /// The path was looked up in the worktrees.
    InWorktrees(Option<ResolvedPath>),
}

/// Who is asked what a directory holds.
#[derive(Debug, PartialEq)]
pub enum DirectoryQuery {
    /// The file system of this machine.
    Local { path: String },
    /// The ssh server.
    Remote { project_id: u64, path: String },
}

/// The paths that a path in a buffer may stand for: the path itself, and the path as seen from the
/// directory of the file.
pub open spec fn candidates(path: Seq<char>, buffer: Buffer) -> Seq<Seq<ComponentView>> {
    let own = path::path_components(path);
    match buffer.file {
        Some(file) => match path::parent_components(path::path_components(file.path@)) {
            Some(dir) => seq![own, path::joined_components(dir, own)],
            None => seq![own],
        },
        None => seq![own],
    }
}

/// Where a candidate leads in a worktree, seen from the root entry.
pub open spec fn seen_from_root(root: Seq<ComponentView>, candidate: Seq<ComponentView>) -> Seq<
    ComponentView,
> {
    let resolved = path::resolved_components(root, candidate);
    if path::starts_with(resolved, root) {
        resolved.skip(root.len() as int)
    } else {
        resolved
    }
}

/// The entry of a worktree that a candidate leads to.
pub open spec fn candidate_entry(worktree: Worktree, candidate: Seq<ComponentView>) -> Option<
    Entry,
> {
    match worktree.root_entry {
        Some(root) => worktree.entry_at_components(
            seen_from_root(path::path_components(root.path@), candidate),
        ),
        None => None,
    }
}

/// The entry of a worktree that the first candidate with an entry leads to.
pub open spec fn first_candidate(worktree: Worktree, list: Seq<Seq<ComponentView>>) -> Option<Entry>
    decreases list.len(),
{
    if list.len() == 0 {
        None
    } else {
        match candidate_entry(worktree, list[0]) {
            Some(entry) => Some(entry),
            None => first_candidate(worktree, list.skip(1)),
        }
    }
}

/// The entry that the candidates lead to in the first worktree where they lead to one.
pub open spec fn first_hit(worktrees: Seq<Worktree>, list: Seq<Seq<ComponentView>>) -> Option<
    (WorktreeId, Entry),
>
    decreases worktrees.len(),
{
    if worktrees.len() == 0 {
        None
    } else {
        match first_candidate(worktrees[0], list) {
            Some(entry) => Some((worktrees[0].id, entry)),
            None => first_hit(worktrees.skip(1), list),
        }
    }
}

/// A path of the project.
pub open spec fn in_project(hit: Option<(WorktreeId, Entry)>) -> Option<ResolvedPath> {
    match hit {
        Some((worktree_id, entry)) => Some(
            ResolvedPath::ProjectPath {
                project_path: ProjectPath { worktree_id, path: entry.path },
                is_dir: entry.is_dir,
            },
        ),
        None => None,
    }
}

/// The views of a list of paths.
pub open spec fn path_views(list: Seq<Vec<PathComponent>>) -> Seq<Seq<ComponentView>> {
    list.map_values(|p: Vec<PathComponent>| path::views(p@))
}

impl ProjectView {
    /// Whether this is the question whether a path exists, if `home` is the directory of the user.
    pub open spec fn asks_for_path(
        self,
        path: Seq<char>,
        home: Option<String>,
        query: PathQuery,
    ) -> bool {
        if self.local() {
            query matches PathQuery::Local { path: asked } && tilde::tilde_expansion(
                path,
                tilde::home_text(home),
                asked@,
            )
        } else if self.ssh_client is Some {
            query matches PathQuery::Remote { project_id, path: asked } && project_id
                == SSH_PROJECT_ID && asked@ == path
        } else {
            query is Nobody
        }
    }
}

fn candidate_in(worktree: &Worktree, candidate: &Vec<PathComponent>) -> (res: Option<Entry>)
    ensures
        res == candidate_entry(*worktree, path::views(candidate@)),
{
    match &worktree.root_entry {
        Some(root) => {
            let root_list = components(root.path.as_str());
            let resolved = resolve_components(&root_list, candidate);
            let found = match strip_component_prefix(&resolved, &root_list) {
                Some(stripped) => worktree.entry_for_components(&stripped),
                None => worktree.entry_for_components(&resolved),
            };
            match found {
                Some(entry) => Some(entry.clone()),
                None => None,
            }
        },
        None => None,
    }
}

fn first_candidate_in(worktree: &Worktree, list: &Vec<Vec<PathComponent>>) -> (res: Option<Entry>)
    ensures
        res == first_candidate(*worktree, path_views(list@)),
{
    let ghost views = path_views(list@);
    let mut i: usize = 0;
    assert(views.skip(0) =~= views);
    while i < list.len()
        invariant
            i <= list.len(),
            views == path_views(list@),
            first_candidate(*worktree, views) == first_candidate(*worktree, views.skip(i as int)),
        decreases list.len() - i,
    {
        assert(views.skip(i as int)[0] == path::views(list@[i as int]@));
        assert(views.skip(i as int).skip(1) =~= views.skip(i as int + 1));
        if let Some(entry) = candidate_in(worktree, &list[i]) {
            return Some(entry);
        }
        i = i + 1;
    }
    None
}

impl Project {
    /// How `path`, which was found in `buffer`, is resolved; `home` is the directory of the user on
    /// this machine.
    pub fn resolve_path_in_buffer(&self, path: &str, buffer: &Buffer, home: Option<String>) -> (res:
        BufferPathQuery)
        ensures
            if path::absolute(path::path_components(path@)) || (path@.len() > 0 && path@[0] == '~') {
                res matches BufferPathQuery::Absolute(query) && self@.asks_for_path(
                    path@,
                    home,
                    query,
                )
            } else {
                res == BufferPathQuery::InWorktrees(
                    in_project(
                        first_hit(self@.worktree_store.worktrees@, candidates(path@, *buffer)),
                    ),
                )
            },
    {
        let at_home = path.unicode_len() > 0 && path.get_char(0) == '~';
        if is_absolute(path) || at_home {
            BufferPathQuery::Absolute(self.resolve_abs_path(path, home))
        } else {
            BufferPathQuery::InWorktrees(self.resolve_path_in_worktrees(path, buffer))
        }
    }

    /// Who is asked whether a path of the machine exists; `home` is the directory of the user on
    /// this machine.
    pub fn resolve_abs_path(&self, path: &str, home: Option<String>) -> (res: PathQuery)
        ensures
            self@.asks_for_path(path@, home, res),
    {
        if self.is_local() {
            PathQuery::Local { path: expand_tilde(path, home) }
        } else if self.ssh_client.is_some() {
            PathQuery::Remote { project_id: SSH_PROJECT_ID, path: path.to_owned() }
        } else {
            PathQuery::Nobody
        }
    }

    /// Who is asked whether a file of the machine exists; `file_only` is applied to the answer.
    pub fn resolve_abs_file_path(&self, path: &str, home: Option<String>) -> (res: PathQuery)
        ensures
            self@.asks_for_path(path@, home, res),
    {
        self.resolve_abs_path(path, home)
    }

    fn resolve_path_in_worktrees(&self, path: &str, buffer: &Buffer) -> (res: Option<ResolvedPath>)
        ensures
            res == in_project(
                first_hit(self@.worktree_store.worktrees@, candidates(path@, *buffer)),
            ),
    {
        let own = components(path);
        let mut list: Vec<Vec<PathComponent>> = Vec::new();
        let mut joined: Option<Vec<PathComponent>> = None;
        if let Some(file) = &buffer.file {
            let file_path = components(file.path.as_str());
            if let Some(dir) = parent(&file_path) {
                joined = Some(join(&dir, &own));
            }
        }
        list.push(own);
        if let Some(joined) = joined {
            list.push(joined);
        }
        let ghost views = path_views(list@);
        assert(views =~= candidates(path@, *buffer));
        let ghost worktrees = self.worktree_store.worktrees@;
        let mut i: usize = 0;
        assert(worktrees.skip(0) =~= worktrees);
        while i < self.worktree_store.worktrees.len()
            invariant
                i <= self.worktree_store.worktrees.len(),
                worktrees == self.worktree_store.worktrees@,
                views == path_views(list@),
                first_hit(worktrees, views) == first_hit(worktrees.skip(i as int), views),
                views == candidates(path@, *buffer),
                worktrees == self@.worktree_store.worktrees@,
            decreases self.worktree_store.worktrees.len() - i,
        {
            assert(worktrees.skip(i as int).skip(1) =~= worktrees.skip(i as int + 1));
            if let Some(entry) = first_candidate_in(&self.worktree_store.worktrees[i], &list) {
                return Some(
                    ResolvedPath::ProjectPath {
                        project_path: ProjectPath {
                            worktree_id: self.worktree_store.worktrees[i].id,
                            path: entry.path,
                        },
                        is_dir: entry.is_dir,
                    },
                );
            }
            i = i + 1;
        }
        None
    }

    /// Who is asked what a directory holds; `home` is the directory of the user on this machine.
    pub fn list_directory(&self, query: String, home: Option<String>) -> (res: Result<
        DirectoryQuery,
        ProjectError,
    >)
        ensures
            if self@.local() {
                res matches Ok(DirectoryQuery::Local { path }) && tilde::tilde_expansion(
                    query@,
                    tilde::home_text(home),
                    path@,
                )
            } else if self@.ssh_client is Some {
                res == Ok::<DirectoryQuery, ProjectError>(
                    DirectoryQuery::Remote { project_id: SSH_PROJECT_ID, path: query },
                )
            } else {
                res == Err::<DirectoryQuery, ProjectError>(ProjectError::CannotListDirectory)
            },
    {
        if self.is_local() {
            Ok(DirectoryQuery::Local { path: expand_tilde(query.as_str(), home) })
        } else if self.ssh_client.is_some() {
            Ok(DirectoryQuery::Remote { project_id: SSH_PROJECT_ID, path: query })
        } else {
            Err(ProjectError::CannotListDirectory)
        }
    }
}

/// A path that was resolved in the worktrees exists: it is that of an entry of a worktree, and it
/// says rightly whether that is a directory.
pub proof fn law_resolved_path_exists(worktrees: Seq<Worktree>, list: Seq<Seq<ComponentView>>)
    requires
        in_project(first_hit(worktrees, list)) is Some,
    ensures
        exists|i: int, j: int|
            #![trigger worktrees[i].entries@[j]]
            0 <= i < worktrees.len() && 0 <= j < worktrees[i].entries@.len() && in_project(
                first_hit(worktrees, list),
            ) == Some(
                ResolvedPath::ProjectPath {
                    project_path: ProjectPath {
                        worktree_id: worktrees[i].id,
                        path: worktrees[i].entries@[j].path,
                    },
                    is_dir: worktrees[i].entries@[j].is_dir,
                },
            ),
    decreases worktrees.len(),
{
    match first_candidate(worktrees[0], list) {
        Some(entry) => {
            lemma_first_candidate(worktrees[0], list);
            let j = choose|j: int|
                0 <= j < worktrees[0].entries@.len() && worktrees[0].entries@[j] == entry;
            assert(worktrees[0].entries@[j] == entry);
        },
        None => {
            let rest = worktrees.skip(1);
            law_resolved_path_exists(rest, list);
            let (i, j) = choose|i: int, j: int|
                #![trigger rest[i].entries@[j]]
                0 <= i < rest.len() && 0 <= j < rest[i].entries@.len() && in_project(
                    first_hit(rest, list),
                ) == Some(
                    ResolvedPath::ProjectPath {
                        project_path: ProjectPath {
                            worktree_id: rest[i].id,
                            path: rest[i].entries@[j].path,
                        },
                        is_dir: rest[i].entries@[j].is_dir,
                    },
                );
            assert(worktrees[i + 1].entries@[j] == rest[i].entries@[j]);
        },
    }
}

proof fn lemma_first_candidate(worktree: Worktree, list: Seq<Seq<ComponentView>>)
    requires
        first_candidate(worktree, list) is Some,
    ensures
        worktree.entries@.contains(first_candidate(worktree, list)->0),
    decreases list.len(),
{
    match candidate_entry(worktree, list[0]) {
        Some(_) => {
            let want = seen_from_root(
                path::path_components(worktree.root_entry->0.path@),
                list[0],
            );
            seqs::lemma_find_first_meaning(
                worktree.entries@,
                |e: Entry| path::path_components(e.path@) == want,
            );
        },
        None => {
            lemma_first_candidate(worktree, list.skip(1));
        },
    }
}

/// A path of this machine; `is_dir` is `None` if it does not exist or cannot be looked at.
pub fn resolved_locally(path: String, is_dir: Option<bool>) -> (res: Option<ResolvedPath>)
    ensures
        res == (match is_dir {
            Some(is_dir) => Some(ResolvedPath::AbsPath { path, is_dir }),
            None => None,
        }),
{
    match is_dir {
        Some(is_dir) => Some(ResolvedPath::AbsPath { path, is_dir }),
        None => None,
    }
}

/// A path of the ssh server's machine; `None` stands for a server that does not answer.
pub fn resolved_remotely(response: Option<PathMetadata>) -> (res: Option<ResolvedPath>)
    ensures
        res == (match response {
            Some(metadata) => if metadata.exists {
                Some(ResolvedPath::AbsPath { path: metadata.path, is_dir: metadata.is_dir })
            } else {
                None
            },
            None => None,
        }),
{
    match response {
        Some(metadata) => {
            if metadata.exists {
                Some(ResolvedPath::AbsPath { path: metadata.path, is_dir: metadata.is_dir })
            } else {
                None
            }
        },
        None => None,
    }
}

/// What is left of a resolved path if only files are wanted.
pub fn file_only(resolved: Option<ResolvedPath>) -> (res: Option<ResolvedPath>)
    ensures
        res == (match resolved {
            Some(path) => if path.names_dir() {
                None
            } else {
                Some(path)
            },
            None => None,
        }),
{
    match resolved {
        Some(path) => {
            if path.is_file() {
                Some(path)
            } else {
                None
            }
        },
        None => None,
    }
}

/// The names that the entries of a directory have.
pub open spec fn entry_names(entries: Seq<Result<String, PayloadId>>) -> Seq<Seq<char>>
    decreases entries.len(),
{
    if entries.len() == 0 {
        Seq::empty()
    } else {
        let before = entry_names(entries.drop_last());
        match entries.last() {
            Ok(entry) => match path::last_name(path::path_components(entry@)) {
                Some(name) => before.push(name),
                None => before,
            },
            Err(_) => before,
        }
    }
}

/// The failure that reading a directory ends with, if there is one.
pub open spec fn read_failure(entries: Seq<Result<String, PayloadId>>) -> Option<PayloadId>
    decreases entries.len(),
{
    if entries.len() == 0 {
        None
    } else {
        match read_failure(entries.drop_last()) {
            Some(error) => Some(error),
            None => match entries.last() {
                Err(error) => Some(error),
                Ok(_) => None,
            },
        }
    }
}

proof fn lemma_read_failure_stays(entries: Seq<Result<String, PayloadId>>, n: int)
    requires
        0 <= n <= entries.len(),
        read_failure(entries.take(n)) is Some,
    ensures
        read_failure(entries) == read_failure(entries.take(n)),
    decreases entries.len() - n,
{
    if n < entries.len() {
        assert(entries.take(n + 1).drop_last() =~= entries.take(n));
        lemma_read_failure_stays(entries, n + 1);
    } else {
        assert(entries.take(n) =~= entries);
    }
}

/// The texts of a list of names.
pub open spec fn texts(names: Seq<String>) -> Seq<Seq<char>> {
    names.map_values(|name: String| name@)
}

/// What a directory of this machine holds, by name; an entry that cannot be read makes the whole
/// fail.
pub fn directory_names(entries: &Vec<Result<String, PayloadId>>) -> (res: Result<
    Vec<String>,
    PayloadId,
>)
    ensures
        match read_failure(entries@) {
            Some(error) => res == Err::<Vec<String>, PayloadId>(error),
            None => res matches Ok(names) && texts(names@) == entry_names(entries@),
        },
{
    let mut names: Vec<String> = Vec::new();
    let mut i: usize = 0;
    assert(texts(names@) =~= entry_names(entries@.take(0)));
    while i < entries.len()
        invariant
            i <= entries.len(),
            read_failure(entries@.take(i as int)) is None,
            texts(names@) == entry_names(entries@.take(i as int)),
        decreases entries.len() - i,
    {
        assert(entries@.take(i as int + 1).drop_last() =~= entries@.take(i as int));
        match &entries[i] {
            Ok(entry) => {
                if let Some(name) = file_name(entry.as_str()) {
                    let ghost before = texts(names@);
                    names.push(name);
                    assert(texts(names@) =~= before.push(name@));
                }
            },
            Err(error) => {
                proof {
                    lemma_read_failure_stays(entries@, i as int + 1);
                }
                return Err(*error);
            },
        }
        i = i + 1;
    }
    assert(entries@.take(i as int) =~= entries@);
    Ok(names)
}

/// Where directories are listed.
pub enum DirectoryLister<'a> {
    /// In a project.
    Project(&'a Project),
    /// On this machine.
    Local,
}

impl<'a> DirectoryLister<'a> {
    /// Whether the directories lie on this machine.
    pub open spec fn here(self) -> bool {
        match self {
            DirectoryLister::Project(project) => project@.local(),
            DirectoryLister::Local => true,
        }
    }

    /// The worktree in which the listing starts.
    pub open spec fn first_worktree(self) -> Option<Worktree> {
        match self {
            DirectoryLister::Project(project) => {
                let shown = worktree::visible(project@.worktree_store.worktrees@);
                if shown.len() > 0 {
                    Some(shown[0])
                } else {
                    None
                }
            },
            DirectoryLister::Local => None,
        }
    }

    /// Whether the directories lie on this machine.
    pub fn is_local(&self) -> (res: bool)
        ensures
            res == self.here(),
    {
        match self {
            DirectoryLister::Local => true,
            DirectoryLister::Project(project) => project.is_local(),
        }
    }

    /// The path with a leading `~` expanded to `home`, if the directories lie on this machine.
    pub fn resolve_tilde(&self, path: &String, home: Option<String>) -> (res: String)
        ensures
            self.here() ==> tilde::tilde_expansion(path@, tilde::home_text(home), res@),
            !self.here() ==> res == *path,
    {
        if self.is_local() {
            expand_tilde(path.as_str(), home)
        } else {
            path.clone()
        }
    }

    /// The path with which the listing starts.
    pub fn default_query(&self) -> (res: String)
        ensures
            match self.first_worktree() {
                Some(worktree) => res == worktree.abs_path,
                None => res@ == "~/"@,
            },
    {
        if let DirectoryLister::Project(project) = self {
            let trees = project.visible_worktrees();
            assert(trees.len() == worktree::targets(trees@).len());
            if trees.len() > 0 {
                assert(worktree::targets(trees@)[0] == *trees@[0]);
                return trees[0].abs_path.clone();
            }
        }
        "~/".to_owned()
    }

    /// Who is asked what a directory holds; `home` is the directory of the user on this machine.
    pub fn list_directory(&self, path: String, home: Option<String>) -> (res: Result<
        DirectoryQuery,
        ProjectError,
    >)
        ensures
            match self {
                DirectoryLister::Local => res matches Ok(DirectoryQuery::Local { path: asked })
                    && tilde::tilde_expansion(path@, tilde::home_text(home), asked@),
                DirectoryLister::Project(project) => if project@.local() {
                    res matches Ok(DirectoryQuery::Local { path: asked }) && tilde::tilde_expansion(
                        path@,
                        tilde::home_text(home),
                        asked@,
                    )
                } else if project@.ssh_client is Some {
                    res == Ok::<DirectoryQuery, ProjectError>(
                        DirectoryQuery::Remote { project_id: SSH_PROJECT_ID, path },
                    )
                } else {
                    res == Err::<DirectoryQuery, ProjectError>(ProjectError::CannotListDirectory)
                },
            },
    {
        match self {
            DirectoryLister::Project(project) => project.list_directory(path, home),
            DirectoryLister::Local => Ok(
                DirectoryQuery::Local { path: expand_tilde(path.as_str(), home) },
            ),
        }
    }
}

/// Whether all components are names.
pub open spec fn all_names(list: Seq<ComponentView>) -> bool {
    forall|i: int| 0 <= i < list.len() ==> #[trigger] list[i] is Normal
}

/// Whether a worktree has no entry whose path has these components.
pub open spec fn nothing_at(worktree: Worktree, list: Seq<ComponentView>) -> bool {
    forall|k: int|
        0 <= k < worktree.entries@.len() ==> path::path_components(
            (#[trigger] worktree.entries@[k]).path@,
        ) != list
}

/// Whether a path of names in a buffer leads to the entry at `k` of a worktree: the path is that of
/// the entry, or no entry has the path and the entry's path is that of the directory of the
/// buffer's file, followed by the names.
pub open spec fn leads_to(worktree: Worktree, path: Seq<char>, buffer: Buffer, k: int) -> bool {
    let names = path::path_components(path);
    &&& worktree.root_entry is Some
    &&& {
        ||| worktree::first_entry_at(worktree, names, k)
        ||| nothing_at(worktree, names) && (buffer.file matches Some(file)
            && worktree::first_entry_at(
            worktree,
            path::path_components(file.path@).drop_last() + names,
            k,
        ))
    }
}

proof fn lemma_seen_from_root(root: Seq<ComponentView>, names: Seq<ComponentView>)
    requires
        all_names(names),
    ensures
        seen_from_root(root, names) == names,
{
    path::lemma_resolved_names(root, names);
    assert((root + names).take(root.len() as int) =~= root);
    assert((root + names).skip(root.len() as int) =~= names);
}

proof fn lemma_first_entry(worktree: Worktree, list: Seq<ComponentView>, k: int)
    requires
        0 <= k < worktree.entries@.len(),
        path::path_components(worktree.entries@[k].path@) == list,
    ensures
        exists|j: int| #[trigger] worktree::first_entry_at(worktree, list, j),
{
    worktree::lemma_entry_at(worktree, list);
    let entry = worktree.entry_at_components(list);
    assert(entry is Some);
    let j = choose|j: int| #[trigger]
        worktree.entries@[j] == entry->0 && worktree::first_entry_at(worktree, list, j);
    assert(worktree::first_entry_at(worktree, list, j));
}

proof fn lemma_first_candidate_leads(worktree: Worktree, path: Seq<char>, buffer: Buffer)
    requires
        all_names(path::path_components(path)),
        buffer.file matches Some(file) ==> path::path_components(file.path@).len() > 0
            && all_names(path::path_components(file.path@)),
    ensures
        match first_candidate(worktree, candidates(path, buffer)) {
            Some(entry) => exists|k: int|
                #[trigger] worktree.entries@[k] == entry && leads_to(worktree, path, buffer, k),
            None => forall|k: int| !#[trigger] leads_to(worktree, path, buffer, k),
        },
{
    let names = path::path_components(path);
    let list = candidates(path, buffer);
    if worktree.root_entry is Some {
        let root = path::path_components(worktree.root_entry->0.path@);
        lemma_seen_from_root(root, names);
        worktree::lemma_entry_at(worktree, names);
        assert(list[0] == names);
        if let Some(entry) = worktree.entry_at_components(names) {
            let k = choose|k: int| #[trigger]
                worktree.entries@[k] == entry && worktree::first_entry_at(worktree, names, k);
            assert(leads_to(worktree, path, buffer, k));
        } else if let Some(file) = buffer.file {
            let dir = path::path_components(file.path@).drop_last();
            assert(all_names(dir + names)) by {
                assert forall|i: int| 0 <= i < (dir + names).len() implies #[trigger] (dir
                    + names)[i] is Normal by {
                    if i < dir.len() {
                        assert(path::path_components(file.path@)[i] is Normal);
                    } else {
                        assert(names[i - dir.len()] is Normal);
                    }
                }
            }
            assert(path::path_components(file.path@).last() is Normal);
            if names.len() > 0 {
                assert(names[0] is Normal);
            }
            assert(path::joined_components(dir, names) =~= dir + names);
            assert(list =~= seq![names, dir + names]);
            lemma_seen_from_root(root, dir + names);
            worktree::lemma_entry_at(worktree, dir + names);
            let rest = list.skip(1);
            assert(rest[0] == dir + names);
            assert(first_candidate(worktree, rest.skip(1)) is None);
            if let Some(entry) = worktree.entry_at_components(dir + names) {
                let k = choose|k: int| #[trigger]
                    worktree.entries@[k] == entry && worktree::first_entry_at(
                        worktree,
                        dir + names,
                        k,
                    );
                assert(leads_to(worktree, path, buffer, k));
            }
        } else {
            assert(first_candidate(worktree, list.skip(1)) is None);
        }
    } else {
        lemma_no_root(worktree, list);
    }
}

proof fn lemma_no_root(worktree: Worktree, list: Seq<Seq<ComponentView>>)
    requires
        worktree.root_entry is None,
    ensures
        first_candidate(worktree, list) is None,
    decreases list.len(),
{
    if list.len() > 0 {
        lemma_no_root(worktree, list.skip(1));
    }
}

proof fn lemma_first_hit(worktrees: Seq<Worktree>, list: Seq<Seq<ComponentView>>)
    ensures
        match first_hit(worktrees, list) {
            Some((id, entry)) => exists|w: int|
                0 <= w < worktrees.len() && (#[trigger] worktrees[w]).id == id && first_candidate(
                    worktrees[w],
                    list,
                ) == Some(entry) && forall|v: int|
                    0 <= v < w ==> first_candidate(#[trigger] worktrees[v], list) is None,
            None => forall|v: int|
                0 <= v < worktrees.len() ==> first_candidate(
                    #[trigger] worktrees[v],
                    list,
                ) is None,
        },
    decreases worktrees.len(),
{
    if worktrees.len() > 0 {
        let rest = worktrees.skip(1);
        lemma_first_hit(rest, list);
        if first_candidate(worktrees[0], list) is Some {
            assert(worktrees[0].id == worktrees[0].id);
        } else if let Some((id, entry)) = first_hit(rest, list) {
            let w = choose|w: int|
                0 <= w < rest.len() && (#[trigger] rest[w]).id == id && first_candidate(
                    rest[w],
                    list,
                ) == Some(entry) && forall|v: int|
                    0 <= v < w ==> first_candidate(#[trigger] rest[v], list) is None;
            assert(worktrees[w + 1] == rest[w]);
            assert forall|v: int| 0 <= v < w + 1 implies first_candidate(
                #[trigger] worktrees[v],
                list,
            ) is None by {
                if v > 0 {
                    assert(rest[v - 1] == worktrees[v]);
                }
            }
        } else {
            assert forall|v: int| 0 <= v < worktrees.len() implies first_candidate(
                #[trigger] worktrees[v],
                list,
            ) is None by {
                if v > 0 {
                    assert(rest[v - 1] == worktrees[v]);
                }
            }
        }
    }
}

/// A path of names in a buffer is resolved to an entry of the first worktree where it leads to one,
/// be it from the root of the worktree or from the directory of the buffer's file; it is not found
/// exactly if it leads nowhere in any.
pub proof fn law_resolved_in_worktrees(
    worktrees: Seq<Worktree>,
    path: Seq<char>,
    buffer: Buffer,
    res: Option<ResolvedPath>,
)
    requires
        res == in_project(first_hit(worktrees, candidates(path, buffer))),
        all_names(path::path_components(path)),
        buffer.file matches Some(file) ==> path::path_components(file.path@).len() > 0
            && all_names(path::path_components(file.path@)),
    ensures
        res is None <==> forall|w: int, k: int|
            0 <= w < worktrees.len() ==> !#[trigger] leads_to(worktrees[w], path, buffer, k),
        res is Some ==> exists|w: int, k: int|
            0 <= w < worktrees.len() && #[trigger] leads_to(worktrees[w], path, buffer, k) && (
            forall|v: int, j: int|
                0 <= v < w ==> !#[trigger] leads_to(worktrees[v], path, buffer, j)) && res == Some(
                ResolvedPath::ProjectPath {
                    project_path: ProjectPath {
                        worktree_id: worktrees[w].id,
                        path: worktrees[w].entries@[k].path,
                    },
                    is_dir: worktrees[w].entries@[k].is_dir,
                },
            ),
{
    let list = candidates(path, buffer);
    lemma_first_hit(worktrees, list);
    assert forall|v: int, j: int|
        0 <= v < worktrees.len() && first_candidate(
            worktrees[v],
            list,
        ) is None implies !#[trigger] leads_to(worktrees[v], path, buffer, j) by {
        lemma_first_candidate_leads(worktrees[v], path, buffer);
    }
    match first_hit(worktrees, list) {
        Some((id, entry)) => {
            let w = choose|w: int|
                0 <= w < worktrees.len() && (#[trigger] worktrees[w]).id == id && first_candidate(
                    worktrees[w],
                    list,
                ) == Some(entry) && forall|v: int|
                    0 <= v < w ==> first_candidate(#[trigger] worktrees[v], list) is None;
            lemma_first_candidate_leads(worktrees[w], path, buffer);
            let k = choose|k: int| #[trigger]
                worktrees[w].entries@[k] == entry && leads_to(worktrees[w], path, buffer, k);
            assert(leads_to(worktrees[w], path, buffer, k));
        },
        None => {},
    }
}

/// If a worktree whose root entry is known has an entry whose path is that of the directory of a
/// buffer's file, followed by the names of a relative path, then that path is found from the
/// buffer. It stands for this very entry if no worktree before has an entry there or at the path
/// itself, this worktree has none at the path itself, and no entry before has the same path.
pub proof fn law_found_from_directory(
    worktrees: Seq<Worktree>,
    path: Seq<char>,
    buffer: Buffer,
    w: int,
    k: int,
)
    requires
        all_names(path::path_components(path)),
        buffer.file matches Some(file) && path::path_components(file.path@).len() > 0 && all_names(
            path::path_components(file.path@),
        ),
        0 <= w < worktrees.len(),
        worktrees[w].root_entry is Some,
        0 <= k < worktrees[w].entries@.len(),
        path::path_components(worktrees[w].entries@[k].path@) == path::path_components(
            buffer.file->0.path@,
        ).drop_last() + path::path_components(path),
    ensures
        in_project(first_hit(worktrees, candidates(path, buffer))) is Some,
        ({
            let names = path::path_components(path);
            let joined = path::path_components(buffer.file->0.path@).drop_last() + names;
            &&& forall|v: int|
                0 <= v < w ==> nothing_at(#[trigger] worktrees[v], names) && nothing_at(
                    worktrees[v],
                    joined,
                )
            &&& nothing_at(worktrees[w], names)
            &&& forall|j: int|
                0 <= j < k ==> path::path_components((#[trigger] worktrees[w].entries@[j]).path@)
                    != joined
        }) ==> in_project(first_hit(worktrees, candidates(path, buffer))) == Some(
            ResolvedPath::ProjectPath {
                project_path: ProjectPath {
                    worktree_id: worktrees[w].id,
                    path: worktrees[w].entries@[k].path,
                },
                is_dir: worktrees[w].entries@[k].is_dir,
            },
        ),
{
    let names = path::path_components(path);
    let joined = path::path_components(buffer.file->0.path@).drop_last() + names;
    let res = in_project(first_hit(worktrees, candidates(path, buffer)));
    law_resolved_in_worktrees(worktrees, path, buffer, res);
    lemma_first_entry(worktrees[w], joined, k);
    let first = choose|j: int| #[trigger] worktree::first_entry_at(worktrees[w], joined, j);
    if nothing_at(worktrees[w], names) {
        assert(leads_to(worktrees[w], path, buffer, first));
    } else {
        let own = choose|j: int|
            0 <= j < worktrees[w].entries@.len() && path::path_components(
                (#[trigger] worktrees[w].entries@[j]).path@,
            ) == names;
        lemma_first_entry(worktrees[w], names, own);
        let j = choose|j: int| #[trigger] worktree::first_entry_at(worktrees[w], names, j);
        assert(leads_to(worktrees[w], path, buffer, j));
    }
    if (forall|v: int|
        0 <= v < w ==> nothing_at(#[trigger] worktrees[v], names) && nothing_at(
            worktrees[v],
            joined,
        )) && nothing_at(worktrees[w], names) && (forall|j: int|
        0 <= j < k ==> path::path_components((#[trigger] worktrees[w].entries@[j]).path@)
            != joined) {
        let (v, j) = choose|v: int, j: int|
            0 <= v < worktrees.len() && #[trigger] leads_to(worktrees[v], path, buffer, j) && (
            forall|u: int, i: int|
                0 <= u < v ==> !#[trigger] leads_to(worktrees[u], path, buffer, i)) && res == Some(
                ResolvedPath::ProjectPath {
                    project_path: ProjectPath {
                        worktree_id: worktrees[v].id,
                        path: worktrees[v].entries@[j].path,
                    },
                    is_dir: worktrees[v].entries@[j].is_dir,
                },
            );
        if v < w {
            assert(nothing_at(worktrees[v], names) && nothing_at(worktrees[v], joined));
            assert(path::path_components(worktrees[v].entries@[j].path@) != names);
        }
        assert(leads_to(worktrees[w], path, buffer, first));
        assert(v == w);
        assert(path::path_components(worktrees[w].entries@[j].path@) != names);
        assert(worktree::first_entry_at(worktrees[w], joined, j));
        if j < k {
            assert(path::path_components(worktrees[w].entries@[j].path@) != joined);
        } else if k < j {
            assert(path::path_components(worktrees[w].entries@[k].path@) != joined);
        }
    }
}

/// Each `..` at the start of a path in a buffer leads one directory up from that of the buffer's
/// file, as long as there is one.
pub proof fn law_candidates_go_up(
    dir: Seq<ComponentView>,
    ups: nat,
    names: Seq<ComponentView>,
)
    requires
        all_names(dir),
        all_names(names),
        ups <= dir.len(),
    ensures
        seen_from_root(
            Seq::empty(),
            path::joined_components(dir, path::parent_dirs(ups) + names),
        ) == dir.take(dir.len() - ups) + names,
{
    let none = Seq::<ComponentView>::empty();
    let way = path::parent_dirs(ups) + names;
    path::law_resolve_in_two_steps(none, dir, way);
    path::lemma_resolved_names(none, dir);
    assert(none + dir =~= dir);
    path::lemma_resolved_concat(dir, path::parent_dirs(ups), names);
    assert forall|i: int| dir.len() - ups <= i < dir.len() implies !(#[trigger] dir[i] is RootDir) by {
        assert(dir[i] is Normal);
    }
    path::lemma_resolved_parents(dir, ups);
    path::lemma_resolved_names(dir.take(dir.len() - ups), names);
    let resolved = dir.take(dir.len() - ups) + names;
    assert(resolved.take(0) =~= none);
    assert(resolved.skip(0) =~= resolved);
}

/// A path in a buffer is tried as it is, and then, if the buffer has a file in a directory, from
/// that directory.
pub proof fn law_candidates(path: Seq<char>, buffer: Buffer)
    ensures
        candidates(path, buffer).len() >= 1,
        candidates(path, buffer)[0] == path::path_components(path),
        buffer.file is None ==> candidates(path, buffer).len() == 1,
        buffer.file matches Some(file) ==> (path::path_components(file.path@).len() > 0
            && !(path::path_components(file.path@).last() is RootDir) ==> candidates(
            path,
            buffer,
        ).len() == 2 && candidates(path, buffer)[1] == path::joined_components(
            path::path_components(file.path@).drop_last(),
            path::path_components(path),
        )),
{
}

/// A path of the machine is looked for on this machine, with the home directory in place of a `~`,
/// on the ssh server as it is written, and nowhere if the project is another user's.
pub proof fn law_who_is_asked(
    view: ProjectView,
    path: Seq<char>,
    home: Option<String>,
    query: PathQuery,
)
    ensures
        view.asks_for_path(path, home, query) <==> match (view.client_state, view.ssh_client) {
            (_, Some(_)) => query matches PathQuery::Remote { project_id, path: asked } && project_id
                == 0 && asked@ == path,
            (ProjectClientState::Remote { .. }, None) => query is Nobody,
            (_, None) => query matches PathQuery::Local { path: asked } && tilde::tilde_expansion(
                path,
                (if home is Some {
                    Some(home->0@)
                } else {
                    None
                }),
                asked@,
            ),
        },
{
}

/// The names that a directory holds are those of its entries in their order, each the last
/// component of the entry's path; reading it fails with the first entry that cannot be read.
pub proof fn law_directory_names(
    a: Seq<Result<String, PayloadId>>,
    b: Seq<Result<String, PayloadId>>,
    one: Result<String, PayloadId>,
)
    ensures
        entry_names(a + b) == entry_names(a) + entry_names(b),
        one matches Ok(entry) ==> (path::path_components(entry@).len() > 0 ==> (
        path::path_components(entry@).last() matches ComponentView::Normal(name) ==> entry_names(
            seq![one],
        ) == seq![name])),
        one matches Ok(entry) ==> (path::path_components(entry@).len() == 0
            || !(path::path_components(entry@).last() is Normal) ==> entry_names(
            seq![one],
        ).len() == 0),
        match read_failure(a) {
            Some(error) => exists|i: int|
                0 <= i < a.len() && #[trigger] a[i] == Err::<String, PayloadId>(error) && forall|
                    j: int,
                |
                    0 <= j < i ==> #[trigger] a[j] is Ok,
            None => forall|j: int| 0 <= j < a.len() ==> #[trigger] a[j] is Ok,
        },
    decreases a.len() + b.len(),
{
    assert(seq![one].drop_last() =~= Seq::empty());
    assert(seq![one].last() == one);
    assert(entry_names(Seq::empty()) =~= Seq::empty());
    if let Ok(entry) = one {
        if path::path_components(entry@).len() > 0 {
            if let ComponentView::Normal(name) = path::path_components(entry@).last() {
                assert(entry_names(seq![one]) =~= seq![name]);
            }
        }
    }
    if b.len() == 0 {
        assert(a + b =~= a);
        assert(entry_names(a) + entry_names(b) =~= entry_names(a));
    } else {
        law_directory_names(a, b.drop_last(), one);
        assert((a + b).drop_last() =~= a + b.drop_last());
        assert((a + b).last() == b.last());
        assert(entry_names(a + b) =~= entry_names(a) + entry_names(b));
    }
    lemma_read_failure(a);
}

proof fn lemma_read_failure(a: Seq<Result<String, PayloadId>>)
    ensures
        match read_failure(a) {
            Some(error) => exists|i: int|
                0 <= i < a.len() && #[trigger] a[i] == Err::<String, PayloadId>(error) && forall|
                    j: int,
                |
                    0 <= j < i ==> #[trigger] a[j] is Ok,
            None => forall|j: int| 0 <= j < a.len() ==> #[trigger] a[j] is Ok,
        },
    decreases a.len(),
{
    if a.len() > 0 {
        let rest = a.drop_last();
        lemma_read_failure(rest);
        if let Some(error) = read_failure(rest) {
            let i = choose|i: int|
                0 <= i < rest.len() && #[trigger] rest[i] == Err::<String, PayloadId>(error)
                    && forall|j: int| 0 <= j < i ==> #[trigger] rest[j] is Ok;
            assert(a[i] == rest[i]);
            assert forall|j: int| 0 <= j < i implies #[trigger] a[j] is Ok by {
                assert(rest[j] is Ok);
            }
        } else {
            assert forall|j: int| 0 <= j < rest.len() implies #[trigger] a[j] is Ok by {
                assert(rest[j] is Ok);
            }
            if let Err(error) = a.last() {
                assert(a[a.len() - 1] == Err::<String, PayloadId>(error));
            }
        }
    }
}

/// A listing starts in the first worktree of the project panel, and lies on this machine unless the
/// project is another user's or on an ssh server.
pub proof fn law_where_listing_starts(project: &Project)
    ensures
        DirectoryLister::Local.here(),
        DirectoryLister::Local.first_worktree() is None,
        DirectoryLister::Project(project).here() <==> !(project@.client_state is Remote)
            && project@.ssh_client is None,
        match DirectoryLister::Project(project).first_worktree() {
            Some(worktree) => exists|i: int|
                0 <= i < project@.worktree_store.worktrees@.len()
                    && #[trigger] project@.worktree_store.worktrees@[i] == worktree
                    && worktree.is_visible && forall|j: int|
                    0 <= j < i ==> !(#[trigger] project@.worktree_store.worktrees@[j]).is_visible,
            None => forall|j: int|
                0 <= j < project@.worktree_store.worktrees@.len()
                    ==> !(#[trigger] project@.worktree_store.worktrees@[j]).is_visible,
        },
{
    let trees = project@.worktree_store.worktrees@;
    let shown = |w: Worktree| w.is_visible;
    let any = |w: Worktree| true;
    let list = worktree::visible(trees);
    seqs::lemma_find_first_filtered(trees, shown, any, shown);
    seqs::lemma_find_first_index(trees, shown);
    if list.len() > 0 {
        seqs::lemma_find_first_at(list, any, 0);
        let i = choose|i: int|
            0 <= i < trees.len() && trees[i] == list[0] && shown(trees[i]) && forall|j: int|
                0 <= j < i ==> !shown(#[trigger] trees[j]);
        assert(trees[i] == list[0]);
        assert forall|j: int| 0 <= j < i implies !(#[trigger] trees[j]).is_visible by {
            assert(!shown(trees[j]));
        }
    } else {
        seqs::lemma_find_first_none(list, any);
        assert forall|j: int| 0 <= j < trees.len() implies !(#[trigger] trees[j]).is_visible by {
            assert(!shown(trees[j]));
        }
    }
}

/// The texts of a list of names are theirs, one for one, and a path that was found says itself
/// whether it is that of a directory.
pub proof fn law_texts(names: Seq<String>, resolved: ResolvedPath)
    ensures
        texts(names).len() == names.len(),
        forall|i: int| 0 <= i < names.len() ==> #[trigger] texts(names)[i] == names[i]@,
        resolved matches ResolvedPath::ProjectPath { is_dir, .. } ==> resolved.names_dir() == is_dir,
        resolved matches ResolvedPath::AbsPath { is_dir, .. } ==> resolved.names_dir() == is_dir,
{
}

/// Where a candidate leads in a worktree: along the path from the root entry, and then the way from
/// there back to the root entry is left out, if it goes through it. The entry is the first of the
/// worktree at that place; a worktree without a root entry has none.
pub proof fn law_candidate_entry(worktree: Worktree, candidate: Seq<ComponentView>)
    ensures
        worktree.root_entry is None ==> candidate_entry(worktree, candidate) is None,
        worktree.root_entry matches Some(entry) ==> {
            let root = path::path_components(entry.path@);
            let resolved = path::resolved_components(root, candidate);
            let seen = seen_from_root(root, candidate);
            &&& root.is_prefix_of(resolved) ==> root + seen == resolved
            &&& !root.is_prefix_of(resolved) ==> seen == resolved
            &&& match candidate_entry(worktree, candidate) {
                Some(found) => exists|k: int|
                    worktree::first_entry_at(worktree, seen, k) && #[trigger] worktree.entries@[k]
                        == found,
                None => nothing_at(worktree, seen),
            }
        },
{
    if let Some(entry) = worktree.root_entry {
        let root = path::path_components(entry.path@);
        let resolved = path::resolved_components(root, candidate);
        worktree::lemma_entry_at(worktree, seen_from_root(root, candidate));
        if root.is_prefix_of(resolved) {
            assert(resolved.take(root.len() as int) =~= root);
            assert(root + resolved.skip(root.len() as int) =~= resolved);
        } else if root.len() <= resolved.len() {
            assert(resolved.take(root.len() as int) =~= resolved.subrange(0, root.len() as int));
        }
    }
}

/// The candidates are tried in the first worktree, in their order, then in the second, and so on;
/// the first that leads to an entry counts.
pub proof fn law_first_hit(worktrees: Seq<Worktree>, list: Seq<Seq<ComponentView>>)
    ensures
        match first_hit(worktrees, list) {
            Some((id, entry)) => exists|w: int, c: int|
                0 <= w < worktrees.len() && 0 <= c < list.len() && #[trigger] candidate_entry(
                    worktrees[w],
                    list[c],
                ) == Some(entry) && worktrees[w].id == id && (forall|d: int|
                    0 <= d < c ==> #[trigger] candidate_entry(worktrees[w], list[d]) is None) && (
                forall|v: int, d: int|
                    0 <= v < w && 0 <= d < list.len() ==> #[trigger] candidate_entry(
                        worktrees[v],
                        list[d],
                    ) is None),
            None => forall|v: int, d: int|
                0 <= v < worktrees.len() && 0 <= d < list.len() ==> #[trigger] candidate_entry(
                    worktrees[v],
                    list[d],
                ) is None,
        },
{
    lemma_first_hit(worktrees, list);
    assert forall|v: int, d: int|
        0 <= v < worktrees.len() && 0 <= d < list.len() && first_candidate(
            worktrees[v],
            list,
        ) is None implies #[trigger] candidate_entry(worktrees[v], list[d]) is None by {
        lemma_candidate_index(worktrees[v], list);
    }
    if let Some((id, entry)) = first_hit(worktrees, list) {
        let w = choose|w: int|
            0 <= w < worktrees.len() && (#[trigger] worktrees[w]).id == id && first_candidate(
                worktrees[w],
                list,
            ) == Some(entry) && forall|v: int|
                0 <= v < w ==> first_candidate(#[trigger] worktrees[v], list) is None;
        lemma_candidate_index(worktrees[w], list);
        let c = choose|c: int|
            0 <= c < list.len() && #[trigger] candidate_entry(worktrees[w], list[c]) == Some(entry)
                && forall|d: int|
                0 <= d < c ==> #[trigger] candidate_entry(worktrees[w], list[d]) is None;
        assert(candidate_entry(worktrees[w], list[c]) == Some(entry));
    }
}

proof fn lemma_candidate_index(worktree: Worktree, list: Seq<Seq<ComponentView>>)
    ensures
        match first_candidate(worktree, list) {
            Some(entry) => exists|c: int|
                0 <= c < list.len() && #[trigger] candidate_entry(worktree, list[c]) == Some(entry)
                    && forall|d: int|
                    0 <= d < c ==> #[trigger] candidate_entry(worktree, list[d]) is None,
            None => forall|d: int|
                0 <= d < list.len() ==> #[trigger] candidate_entry(worktree, list[d]) is None,
        },
    decreases list.len(),
{
    if list.len() > 0 {
        let rest = list.skip(1);
        lemma_candidate_index(worktree, rest);
        if candidate_entry(worktree, list[0]) is None {
            if let Some(entry) = first_candidate(worktree, rest) {
                let c = choose|c: int|
                    0 <= c < rest.len() && #[trigger] candidate_entry(worktree, rest[c]) == Some(
                        entry,
                    ) && forall|d: int|
                        0 <= d < c ==> #[trigger] candidate_entry(worktree, rest[d]) is None;
                assert(list[c + 1] == rest[c]);
                assert(candidate_entry(worktree, list[c + 1]) == Some(entry));
                assert forall|d: int| 0 <= d < c + 1 implies #[trigger] candidate_entry(
                    worktree,
                    list[d],
                ) is None by {
                    if d > 0 {
                        assert(rest[d - 1] == list[d]);
                    }
                }
            } else {
                assert forall|d: int| 0 <= d < list.len() implies #[trigger] candidate_entry(
                    worktree,
                    list[d],
                ) is None by {
                    if d > 0 {
                        assert(rest[d - 1] == list[d]);
                    }
                }
            }
        }
    }
}

/// What was found in the worktrees is a path of the project, in the worktree and at the entry where
/// it was found; what was not found is none.
pub proof fn law_in_project(worktree_id: WorktreeId, entry: Entry)
    ensures
        in_project(None) is None,
        in_project(Some((worktree_id, entry))) matches Some(
            ResolvedPath::ProjectPath { project_path, is_dir },
        ) && project_path.worktree_id == worktree_id && project_path.path == entry.path && is_dir
            == entry.is_dir,
{
}

} // verus!
