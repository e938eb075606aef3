use project::buffer::{Buffer, BufferFile};
use project::event::Effect;
use project::ids::{BufferId, DebugAdapterClientId, PayloadId, WorktreeId};
use project::path_map::{PathGroup, PathMap};
use project::project::breakpoints::{
    BreakpointToggle, BreakpointUpdate, FileBreakpoints, SerializedBreakpoint,
};
use project::project::Project;
use project::project_path::ProjectPath;
use project::worktree::Worktree;

fn path(id: u64, text: &str) -> ProjectPath {
    ProjectPath { worktree_id: WorktreeId(id), path: text.to_string() }
}

fn file(id: u64, text: &str, breakpoints: &[u64]) -> FileBreakpoints {
    FileBreakpoints {
        path: path(id, text),
        breakpoints: breakpoints.iter().map(|b| PayloadId(*b)).collect(),
    }
}

fn saved(breakpoint: u64, buffer: Option<u64>, path: &str) -> SerializedBreakpoint {
    SerializedBreakpoint {
        breakpoint: PayloadId(breakpoint),
        buffer: buffer.map(BufferId),
        path: path.to_string(),
    }
}

fn open(id: u64, worktree: u64, path: &str) -> Buffer {
    Buffer {
        id: BufferId(id),
        file: Some(BufferFile {
            worktree_id: WorktreeId(worktree),
            path: path.to_string(),
            entry_id: None,
            is_private: false,
        }),
        is_dirty: false,
    }
}

fn project() -> Project {
    let tree = |id: u64| Worktree {
        id: WorktreeId(id),
        root_name: "p".to_string(),
        abs_path: format!("/p{}", id),
        is_visible: true,
        is_local: true,
        root_entry: None,
        entries: vec![],
    };
    let mut project = Project::local(PayloadId(1), None).0;
    project.set_worktrees(vec![tree(1), tree(2)]);
    project.set_buffers(vec![open(7, 1, "a.rs")]);
    project
}

fn files() -> Vec<FileBreakpoints> {
    vec![
        file(1, "a.rs", &[10, 11]),
        file(2, "a.rs", &[20]),
        file(3, "c.rs", &[30]),
        file(2, "b.rs", &[40]),
    ]
}

fn abs_paths() -> Vec<Option<String>> {
    vec![
        Some("/p1/a.rs".to_string()),
        Some("/p2/a.rs".to_string()),
        Some("/p3/c.rs".to_string()),
        None,
    ]
}

fn groups(map: PathMap<SerializedBreakpoint>) -> Vec<(String, Vec<SerializedBreakpoint>)> {
    map.into_groups().into_iter().map(|g| (g.path, g.items)).collect()
}

#[test]
fn breakpoints_by_relative_path() {
    assert_eq!(
        groups(project().all_breakpoints(&files(), false, &abs_paths())),
        vec![
            (
                "a.rs".to_string(),
                vec![
                    saved(10, Some(7), "a.rs"),
                    saved(11, Some(7), "a.rs"),
                    saved(20, None, "a.rs")
                ]
            ),
            ("c.rs".to_string(), vec![saved(30, None, "c.rs")]),
            ("b.rs".to_string(), vec![saved(40, None, "b.rs")]),
        ]
    );
}

#[test]
fn breakpoints_by_place_on_the_machine() {
    assert_eq!(
        groups(project().all_breakpoints(&files(), true, &abs_paths())),
        vec![
            (
                "/p1/a.rs".to_string(),
                vec![saved(10, Some(7), "a.rs"), saved(11, Some(7), "a.rs")]
            ),
            ("/p2/a.rs".to_string(), vec![saved(20, None, "a.rs")]),
        ]
    );
}

#[test]
fn a_debug_adapter_is_told_of_all_breakpoints() {
    let client_id = DebugAdapterClientId(3);
    let updates = project().send_breakpoints(client_id, &files(), &abs_paths(), true);
    assert_eq!(
        updates,
        vec![
            BreakpointUpdate {
                client_id,
                abs_path: "/p1/a.rs".to_string(),
                breakpoints: vec![saved(10, Some(7), "a.rs"), saved(11, Some(7), "a.rs")],
                ignore: true,
            },
            BreakpointUpdate {
                client_id,
                abs_path: "/p2/a.rs".to_string(),
                breakpoints: vec![saved(20, None, "a.rs")],
                ignore: true,
            },
        ]
    );
}

#[test]
fn breakpoints_are_saved_by_worktree() {
    let project = project();
    let (place, list) = project
        .serialize_breakpoints_for_project_path(&files(), &path(1, "a.rs"))
        .unwrap();
    assert_eq!(place, "/p1");
    assert_eq!(list, vec![saved(10, Some(7), "a.rs"), saved(11, Some(7), "a.rs")]);
    assert!(project
        .serialize_breakpoints_for_project_path(&files(), &path(3, "c.rs"))
        .is_none());
    assert!(project
        .serialize_breakpoints_for_project_path(&files(), &path(1, "none.rs"))
        .is_none());
    assert!(project
        .serialize_breakpoints_for_project_path(&files(), &path(2, "a.rs"))
        .is_none());
    assert_eq!(
        groups(project.serialize_breakpoints(&files(), true)),
        vec![
            (
                "/p1".to_string(),
                vec![saved(10, Some(7), "a.rs"), saved(11, Some(7), "a.rs")]
            ),
            (
                "/p2".to_string(),
                vec![saved(20, None, "a.rs"), saved(40, None, "b.rs")]
            ),
        ]
    );
    let mut project = project;
    project.set_buffers(vec![open(7, 1, "a.rs"), open(8, 2, "b.rs"), open(9, 2, "a.rs")]);
    assert_eq!(
        groups(project.serialize_breakpoints(&files(), true)),
        vec![
            (
                "/p1".to_string(),
                vec![saved(10, Some(7), "a.rs"), saved(11, Some(7), "a.rs")]
            ),
            (
                "/p2".to_string(),
                vec![saved(20, Some(9), "a.rs"), saved(40, Some(8), "b.rs")]
            ),
        ]
    );
    assert!(groups(project.serialize_breakpoints(&files(), false)).is_empty());
}

#[test]
fn ignoring_concerns_open_files() {
    let client_id = DebugAdapterClientId(3);
    for ignored in [false, true] {
        let (effects, updates) =
            project().toggle_ignore_breakpoints(client_id, &files(), &abs_paths(), ignored);
        assert_eq!(effects, vec![Effect::ToggleIgnoreBreakpoints(client_id)]);
        assert_eq!(
            updates,
            vec![BreakpointUpdate {
                client_id,
                abs_path: "/p1/a.rs".to_string(),
                breakpoints: vec![(PayloadId(10), BufferId(7)), (PayloadId(11), BufferId(7))],
                ignore: !ignored,
            }]
        );
    }
}

#[test]
fn toggling_needs_an_open_file_with_a_place() {
    let project = project();
    let place = || Some("/p1/a.rs".to_string());
    assert_eq!(
        project.toggle_breakpoint(BufferId(7), PayloadId(1), PayloadId(2), place()),
        Some(BreakpointToggle {
            project_path: path(1, "a.rs"),
            breakpoint: PayloadId(1),
            abs_path: "/p1/a.rs".to_string(),
            buffer_id: BufferId(7),
            edit_action: PayloadId(2),
        })
    );
    assert_eq!(project.toggle_breakpoint(BufferId(8), PayloadId(1), PayloadId(2), place()), None);
    assert_eq!(project.toggle_breakpoint(BufferId(7), PayloadId(1), PayloadId(2), None), None);
}

#[test]
fn lists_under_equal_paths_are_joined() {
    let mut map: PathMap<u8> = PathMap::new();
    map.extend("a/b".to_string(), vec![1]);
    map.extend("c".to_string(), vec![2]);
    map.extend("a//b/.".to_string(), vec![3, 4]);
    assert_eq!(
        map.into_groups(),
        vec![
            PathGroup { path: "a/b".to_string(), items: vec![1, 3, 4] },
            PathGroup { path: "c".to_string(), items: vec![2] },
        ]
    );
}
