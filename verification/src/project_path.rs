//! Places in a project.
use crate::ids::WorktreeId;
use crate::path;
use crate::path::{same_path, ComponentView};
use crate::path_order;
use crate::path_order::{place_paths, Placement};
use std::cmp::Ordering;
use vstd::prelude::*;
use vstd::std_specs::cmp::{PartialEqSpec, PartialOrdSpec};
use vstd::std_specs::convert::FromSpec;

verus! {

/// A path that is relative to the root of a worktree.
#[derive(Debug)]
pub struct ProjectPath {
    pub worktree_id: WorktreeId,
    pub path: String,
}

/// A project path as messages carry it.
#[derive(Debug, PartialEq)]
pub struct ProjectPathProto {
    pub worktree_id: u64,
    pub path: String,
}

/// Where settings are looked up.
#[derive(Debug)]
pub struct SettingsLocation<'a> {
    pub worktree_id: WorktreeId,
    pub path: &'a str,
}

impl ProjectPath {
    /// The place that the path names: two project paths are the same when their places are.
    pub open spec fn place(self) -> (WorktreeId, Seq<ComponentView>) {
        (self.worktree_id, path::path_components(self.path@))
    }

    /// The project path that a message carries.
    pub open spec fn of_proto(p: ProjectPathProto) -> ProjectPath {
        ProjectPath { worktree_id: WorktreeId(p.worktree_id), path: p.path }
    }

    /// The project path as a message carries it.
    pub open spec fn as_proto(self) -> ProjectPathProto {
        ProjectPathProto { worktree_id: self.worktree_id.0, path: self.path }
    }

    /// Reads a project path from a message.
    pub fn from_proto(p: ProjectPathProto) -> (res: Self)
        ensures
            res == ProjectPath::of_proto(p),
    {
        Self { worktree_id: WorktreeId::from_proto(p.worktree_id), path: p.path }
    }

    /// Writes the project path into a message.
    pub fn to_proto(&self) -> (res: ProjectPathProto)
        ensures
            res == self.as_proto(),
    {
        ProjectPathProto { worktree_id: self.worktree_id.to_proto(), path: self.path.clone() }
    }

    /// The root of a worktree.
    pub fn root_path(worktree_id: WorktreeId) -> (res: Self)
        ensures
            res.worktree_id == worktree_id,
            res.path@ == Seq::<char>::empty(),
    {
        Self { worktree_id, path: String::new() }
    }

    /// Where the settings for this path are looked up.
    pub fn settings_location<'a>(&'a self) -> (res: SettingsLocation<'a>)
        ensures
            res.worktree_id == self.worktree_id,
            res.path@ == self.path@,
    {
        SettingsLocation { worktree_id: self.worktree_id, path: self.path.as_str() }
    }
}

/// A project path that is sent and read again is the same, and so is a message.
pub proof fn law_proto_round_trip(path: ProjectPath, message: ProjectPathProto)
    ensures
        ProjectPath::of_proto(path.as_proto()) == path,
        ProjectPath::of_proto(message).as_proto() == message,
{
}

impl Clone for ProjectPath {
    fn clone(&self) -> (res: Self)
        ensures
            res == *self,
    {
        ProjectPath { worktree_id: self.worktree_id, path: self.path.clone() }
    }
}

impl PartialEq for ProjectPath {
    fn eq(&self, other: &Self) -> (same: bool) {
        self.worktree_id == other.worktree_id && same_path(self.path.as_str(), other.path.as_str())
    }
}

impl vstd::std_specs::cmp::PartialEqSpecImpl for ProjectPath {
    open spec fn obeys_eq_spec() -> bool {
        true
    }

    open spec fn eq_spec(&self, other: &Self) -> bool {
        self.place() == other.place()
    }
}

impl ProjectPath {
    /// How two project paths stand to each other: by worktree, and then by path.
    pub open spec fn placement(self, other: ProjectPath) -> Placement {
        if self.worktree_id.0 < other.worktree_id.0 {
            Placement::Before
        } else if other.worktree_id.0 < self.worktree_id.0 {
            Placement::After
        } else {
            path_order::path_placement(
                path::path_components(self.path@),
                path::path_components(other.path@),
            )
        }
    }

    /// How two project paths stand to each other: by worktree, and then by path.
    pub fn place_against(&self, other: &ProjectPath) -> (res: Placement)
        ensures
            res == self.placement(*other),
    {
        if self.worktree_id.0 < other.worktree_id.0 {
            Placement::Before
        } else if other.worktree_id.0 < self.worktree_id.0 {
            Placement::After
        } else {
            place_paths(self.path.as_str(), other.path.as_str())
        }
    }
}

impl PartialOrd for ProjectPath {
    fn partial_cmp(&self, other: &Self) -> (res: Option<Ordering>) {
        Some(
            match self.place_against(other) {
                Placement::Before => Ordering::Less,
                Placement::Same => Ordering::Equal,
                Placement::After => Ordering::Greater,
            },
        )
    }
}

impl vstd::std_specs::cmp::PartialOrdSpecImpl for ProjectPath {
    open spec fn obeys_partial_cmp_spec() -> bool {
        true
    }

    open spec fn partial_cmp_spec(&self, other: &Self) -> Option<Ordering> {
        Some(
            match self.placement(*other) {
                Placement::Before => Ordering::Less,
                Placement::Same => Ordering::Equal,
                Placement::After => Ordering::Greater,
            },
        )
    }
}

/// The order of project paths agrees with their equality, and has a direction.
pub proof fn law_project_paths_compare(a: ProjectPath, b: ProjectPath)
    ensures
        a.placement(b) == Placement::Same <==> a.place() == b.place(),
        b.placement(a) == path_order::reversed(a.placement(b)),
{
    path_order::law_paths_compare(
        path::path_components(a.path@),
        path::path_components(b.path@),
    );
}

impl From<(WorktreeId, String)> for ProjectPath {
    fn from(pair: (WorktreeId, String)) -> (res: Self) {
        ProjectPath { worktree_id: pair.0, path: pair.1 }
    }
}

impl vstd::std_specs::convert::FromSpecImpl<(WorktreeId, String)> for ProjectPath {
    open spec fn obeys_from_spec() -> bool {
        true
    }

    open spec fn from_spec(pair: (WorktreeId, String)) -> Self {
        ProjectPath { worktree_id: pair.0, path: pair.1 }
    }
}

/// A path that was found to exist, in the project or on the machine.
#[derive(Clone, Debug, PartialEq)]
pub enum ResolvedPath {
    ProjectPath { project_path: ProjectPath, is_dir: bool },
    AbsPath { path: String, is_dir: bool },
}

impl ResolvedPath {
    /// Whether the path names a directory.
    pub open spec fn names_dir(self) -> bool {
        match self {
            ResolvedPath::ProjectPath { is_dir, .. } => is_dir,
            ResolvedPath::AbsPath { is_dir, .. } => is_dir,
        }
    }

    /// The path on the machine, if it is one.
    pub fn abs_path(&self) -> (res: Option<&String>)
        ensures
            match self {
                ResolvedPath::AbsPath { path, .. } => res == Some(path),
                ResolvedPath::ProjectPath { .. } => res is None,
            },
    {
        match self {
            ResolvedPath::AbsPath { path, .. } => Some(path),
            _ => None,
        }
    }

    /// The path in the project, if it is one.
    pub fn project_path(&self) -> (res: Option<&ProjectPath>)
        ensures
            match self {
                ResolvedPath::ProjectPath { project_path, .. } => res == Some(project_path),
                ResolvedPath::AbsPath { .. } => res is None,
            },
    {
        match self {
            ResolvedPath::ProjectPath { project_path, .. } => Some(project_path),
            _ => None,
        }
    }

    /// Whether the path names a file.
    pub fn is_file(&self) -> (res: bool)
        ensures
            res == !self.names_dir(),
    {
        !self.is_dir()
    }

    /// Whether the path names a directory.
    pub fn is_dir(&self) -> (res: bool)
        ensures
            res == self.names_dir(),
    {
        match self {
            ResolvedPath::ProjectPath { is_dir, .. } => *is_dir,
            ResolvedPath::AbsPath { is_dir, .. } => *is_dir,
        }
    }
}

/// Two project paths are equal exactly if they lie in one worktree and have the same components;
/// they are ordered by their worktrees, and by their paths within one.
pub proof fn law_project_path_order(a: ProjectPath, b: ProjectPath)
    ensures
        a.place() == b.place() <==> a.worktree_id == b.worktree_id && path::path_components(a.path@)
            == path::path_components(b.path@),
        a.eq_spec(&b) <==> a.worktree_id == b.worktree_id && path::path_components(a.path@)
            == path::path_components(b.path@),
        a.worktree_id.0 < b.worktree_id.0 ==> a.placement(b) is Before && b.placement(a) is After,
        a.worktree_id == b.worktree_id ==> a.placement(b) == path_order::path_placement(
            path::path_components(a.path@),
            path::path_components(b.path@),
        ),
        a.partial_cmp_spec(&b) == Some(Ordering::Less) <==> a.placement(b) is Before,
        a.partial_cmp_spec(&b) == Some(Ordering::Equal) <==> a.placement(b) is Same,
        a.partial_cmp_spec(&b) == Some(Ordering::Greater) <==> a.placement(b) is After,
{
}

/// A message carries the number of the worktree and the path as it is written.
pub proof fn law_proto_fields(path: ProjectPath, message: ProjectPathProto)
    ensures
        path.as_proto().worktree_id == path.worktree_id.0,
        path.as_proto().path == path.path,
        ProjectPath::of_proto(message).worktree_id.0 == message.worktree_id,
        ProjectPath::of_proto(message).path == message.path,
{
}

/// A pair of a worktree and a path is the project path of the two.
pub proof fn law_pair(worktree_id: WorktreeId, path: String)
    ensures
        <ProjectPath as FromSpec<(WorktreeId, String)>>::from_spec((worktree_id, path)).worktree_id
            == worktree_id,
        <ProjectPath as FromSpec<(WorktreeId, String)>>::from_spec((worktree_id, path)).path == path,
{
}

} // verus!
