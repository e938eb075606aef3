use project::event::{Effect, Event, ProjectError};
use project::ids::{PayloadId, ProjectEntryId, WorktreeId};
use project::project::tools::ToolchainRequest;
use project::project::worktrees::{DiagnosticSummary, EntryRequest};
use project::project::Project;
use project::project_path::ProjectPath;
use project::worktree::{Entry, Worktree};

fn entry(id: u64, path: &str, is_dir: bool) -> Entry {
    Entry { id: ProjectEntryId(id), path: path.to_string(), is_dir, is_ignored: false }
}

fn tree(id: u64, name: &str, is_visible: bool, is_local: bool) -> Worktree {
    Worktree {
        id: WorktreeId(id),
        root_name: name.to_string(),
        abs_path: format!("/home/{}", name),
        is_visible,
        is_local,
        root_entry: Some(entry(id * 10, "", true)),
        entries: vec![
            entry(id * 10, "", true),
            entry(id * 10 + 1, "src", true),
            entry(id * 10 + 2, "src/main.rs", false),
        ],
    }
}

fn project(trees: Vec<Worktree>) -> Project {
    let mut project = Project::local(PayloadId(1), None).0;
    project.set_worktrees(trees);
    project
}

fn path(id: u64, text: &str) -> ProjectPath {
    ProjectPath { worktree_id: WorktreeId(id), path: text.to_string() }
}

fn order(project: &Project) -> Vec<u64> {
    project.worktrees().iter().map(|w| w.id.0).collect()
}

fn three() -> Project {
    project(vec![
        tree(11, "a", true, true),
        tree(22, "b", true, true),
        tree(33, "c", true, true),
    ])
}

#[test]
fn moving_to_a_later_place() {
    let mut project = three();
    assert_eq!(project.move_worktree(WorktreeId(22), WorktreeId(33)), Ok(()));
    assert_eq!(order(&project), vec![11, 33, 22]);
}

#[test]
fn moving_to_an_earlier_place() {
    let mut project = three();
    assert_eq!(project.move_worktree(WorktreeId(22), WorktreeId(11)), Ok(()));
    assert_eq!(order(&project), vec![22, 11, 33]);
}

#[test]
fn moving_over_several_places_and_back() {
    let mut project = three();
    assert_eq!(project.move_worktree(WorktreeId(11), WorktreeId(33)), Ok(()));
    assert_eq!(order(&project), vec![22, 33, 11]);
    assert_eq!(project.move_worktree(WorktreeId(11), WorktreeId(22)), Ok(()));
    assert_eq!(order(&project), vec![11, 22, 33]);
    assert_eq!(project.move_worktree(WorktreeId(22), WorktreeId(22)), Ok(()));
    assert_eq!(order(&project), vec![11, 22, 33]);
}

#[test]
fn moving_what_is_not_there_is_refused() {
    let mut project = three();
    assert_eq!(
        project.move_worktree(WorktreeId(4), WorktreeId(11)),
        Err(ProjectError::WorktreeNotFound(WorktreeId(4)))
    );
    assert_eq!(
        project.move_worktree(WorktreeId(11), WorktreeId(5)),
        Err(ProjectError::WorktreeNotFound(WorktreeId(5)))
    );
    assert_eq!(order(&project), vec![11, 22, 33]);
}

#[test]
fn visible_worktrees_and_their_names() {
    let project = project(vec![
        tree(1, "a", true, true),
        tree(2, "b", false, true),
        tree(3, "c", true, false),
    ]);
    let ids: Vec<u64> = project.visible_worktrees().iter().map(|w| w.id.0).collect();
    assert_eq!(ids, vec![1, 3]);
    assert_eq!(project.worktree_root_names(), vec!["a", "c"]);
    assert_eq!(order(&project), vec![1, 2, 3]);
}

#[test]
fn worktrees_and_entries_are_found() {
    let mut project = three();
    assert_eq!(project.worktree_for_id(WorktreeId(22)).unwrap().root_name, "b");
    assert!(project.worktree_for_id(WorktreeId(9)).is_none());
    assert_eq!(project.worktree_id_for_entry(ProjectEntryId(222)), Some(WorktreeId(22)));
    assert_eq!(project.worktree_id_for_entry(ProjectEntryId(9)), None);
    assert!(project.entry_is_worktree_root(ProjectEntryId(220)));
    assert!(!project.entry_is_worktree_root(ProjectEntryId(221)));
    assert!(!project.entry_is_worktree_root(ProjectEntryId(9)));
    let found = project.path_for_entry(ProjectEntryId(332)).unwrap();
    assert_eq!(found, path(33, "src/main.rs"));
    assert_eq!(project.entry_for_path(&found).unwrap().id, ProjectEntryId(332));
    assert_eq!(
        project.entry_for_path(&path(33, "./src//main.rs")).map(|e| e.id),
        None
    );
    assert_eq!(
        project.entry_for_path(&path(33, "src//./main.rs")).map(|e| e.id),
        Some(ProjectEntryId(332))
    );
    project.set_worktrees_reordered(true);
    assert_eq!(order(&project), vec![11, 22, 33]);
}

#[test]
fn paths_of_the_machine_are_found() {
    let mut remote = tree(1, "a", true, false);
    remote.abs_path = "/home/b".to_string();
    let project = project(vec![remote, tree(2, "b", true, true)]);
    let (worktree, rest) = project.find_worktree("/home/b/src/x").unwrap();
    assert_eq!((worktree.id, rest.as_str()), (WorktreeId(1), "src/x"));
    let (worktree, rest) = project.find_local_worktree("/home/b//src/./x").unwrap();
    assert_eq!((worktree.id, rest.as_str()), (WorktreeId(2), "src/x"));
    assert_eq!(project.project_path_for_absolute_path("/home/b"), Some(path(2, "")));
    assert!(project.find_worktree("/home/bb").is_none());
    assert!(project.project_path_for_absolute_path("/elsewhere").is_none());
    assert_eq!(project.get_workspace_root(&path(2, "x")), Some("/home/b".to_string()));
    assert_eq!(project.get_workspace_root(&path(7, "x")), None);
    assert_eq!(
        project.absolute_path(&path(2, "x"), Some("/home/b/x".to_string())),
        Some("/home/b/x".to_string())
    );
    assert_eq!(project.absolute_path(&path(7, "x"), Some("/home/b/x".to_string())), None);
}

#[test]
fn visibility_of_paths() {
    let mut hidden = tree(2, "a", false, true);
    hidden.abs_path = "/home/a/inner".to_string();
    let project = project(vec![
        hidden,
        tree(1, "a", true, true),
        tree(3, "h", false, true),
        tree(4, "r", true, false),
    ]);
    assert_eq!(project.visibility_for_path("/home/a/inner/x"), Some(true));
    assert_eq!(project.visibility_for_path("/home/h/x"), Some(false));
    assert_eq!(project.visibility_for_path("/home/r/x"), None);
    let paths = |list: &[&str]| list.iter().map(|s| s.to_string()).collect::<Vec<_>>();
    assert_eq!(project.visibility_for_paths(&paths(&["/x", "/home/h", "/home/a"])), Some(true));
    assert_eq!(project.visibility_for_paths(&paths(&["/home/h", "/x"])), Some(false));
    assert_eq!(project.visibility_for_paths(&paths(&["/x"])), None);
    assert_eq!(project.visibility_for_paths(&paths(&[])), None);
}

#[test]
fn project_paths_by_name_and_by_entry() {
    let project = project(vec![
        tree(1, "hidden", false, true),
        tree(2, "b", true, true),
        tree(3, "c", true, true),
    ]);
    assert_eq!(project.find_project_path("c/lib/new.rs"), Some(path(3, "lib/new.rs")));
    assert_eq!(project.find_project_path("src/main.rs"), Some(path(2, "src/main.rs")));
    assert_eq!(project.find_project_path("hidden/src"), None);
    assert_eq!(project.find_project_path("missing.rs"), None);
}

#[test]
fn the_active_entry() {
    let mut project = three();
    assert_eq!(
        project.set_active_path(Some(path(22, "src"))),
        vec![
            Effect::SetActiveEntry(Some(ProjectEntryId(221))),
            Effect::Emit(Event::ActiveEntryChanged(Some(ProjectEntryId(221)))),
        ]
    );
    assert_eq!(project.active_entry(), Some(ProjectEntryId(221)));
    assert!(project.set_active_path(Some(path(22, "src/"))).is_empty());
    assert_eq!(
        project.set_active_path(Some(path(22, "nothing"))),
        vec![Effect::SetActiveEntry(None), Effect::Emit(Event::ActiveEntryChanged(None))]
    );
    assert!(project.set_active_path(None).is_empty());
}

#[test]
fn requests_about_entries() {
    let project = three();
    assert_eq!(
        project.create_entry(path(11, "new"), true),
        Ok(EntryRequest::Create {
            worktree_id: WorktreeId(11),
            path: "new".to_string(),
            is_directory: true
        })
    );
    assert_eq!(
        project.create_entry(path(4, "new"), true),
        Err(ProjectError::NoWorktreeForPath(path(4, "new")))
    );
    assert_eq!(
        project.copy_entry(ProjectEntryId(112), None, "copy".to_string()),
        Some(EntryRequest::Copy {
            worktree_id: WorktreeId(11),
            entry_id: ProjectEntryId(112),
            relative_worktree_source_path: None,
            new_path: "copy".to_string()
        })
    );
    assert_eq!(project.copy_entry(ProjectEntryId(5), None, "copy".to_string()), None);
    assert_eq!(
        project.rename_entry(ProjectEntryId(112), "other".to_string()),
        Ok(EntryRequest::Rename {
            worktree_id: WorktreeId(11),
            entry_id: ProjectEntryId(112),
            new_path: "other".to_string()
        })
    );
    assert_eq!(
        project.rename_entry(ProjectEntryId(5), "other".to_string()),
        Err(ProjectError::NoWorktreeForEntry(ProjectEntryId(5)))
    );
    assert_eq!(
        project.delete_entry(ProjectEntryId(331), true),
        Some(EntryRequest::Delete {
            worktree_id: WorktreeId(33),
            entry_id: ProjectEntryId(331),
            trash: true
        })
    );
    assert_eq!(project.delete_entry(ProjectEntryId(5), true), None);
    assert_eq!(
        project.expand_entry(WorktreeId(33), ProjectEntryId(331)),
        Some(EntryRequest::Expand {
            worktree_id: WorktreeId(33),
            entry_id: ProjectEntryId(331)
        })
    );
    assert_eq!(project.expand_entry(WorktreeId(34), ProjectEntryId(331)), None);
}

#[test]
fn diagnostics_are_added_up() {
    let summaries = vec![
        DiagnosticSummary { error_count: 1, warning_count: 2 },
        DiagnosticSummary { error_count: 3, warning_count: 0 },
    ];
    assert_eq!(
        three().diagnostic_summary(&summaries),
        DiagnosticSummary { error_count: 4, warning_count: 2 }
    );
    assert_eq!(
        three().diagnostic_summary(&vec![]),
        DiagnosticSummary { error_count: 0, warning_count: 0 }
    );
}

#[test]
fn repositories_of_local_worktrees() {
    let project = project(vec![tree(1, "a", true, true), tree(2, "b", true, false)]);
    assert_eq!(project.get_repo(&path(1, "x")).map(|w| w.id), Some(WorktreeId(1)));
    assert!(project.get_repo(&path(2, "x")).is_none());
    assert!(project.get_repo(&path(3, "x")).is_none());
    assert_eq!(project.get_first_worktree_root_repo().map(|w| w.id), Some(WorktreeId(1)));
    assert!(three_remote().get_first_worktree_root_repo().is_none());
}

fn three_remote() -> Project {
    project(vec![tree(1, "a", true, false), tree(2, "b", true, true)])
}

#[test]
fn toolchains_and_debug_adapters() {
    let project = three();
    assert_eq!(
        project.available_toolchains(WorktreeId(1), "Python".to_string()),
        Some(ToolchainRequest::List {
            worktree_id: WorktreeId(1),
            language_name: "Python".to_string()
        })
    );
    assert_eq!(
        project.activate_toolchain(WorktreeId(1), PayloadId(3)),
        Some(ToolchainRequest::Activate { worktree_id: WorktreeId(1), toolchain: PayloadId(3) })
    );
    assert_eq!(
        project.active_toolchain(WorktreeId(1), "Python".to_string()),
        Some(ToolchainRequest::Active {
            worktree_id: WorktreeId(1),
            language_name: "Python".to_string()
        })
    );
    assert_eq!(
        project.start_debug_adapter_client_from_task(Some(PayloadId(7))),
        vec![Effect::StartDebugClient(PayloadId(7))]
    );
    assert!(project.start_debug_adapter_client_from_task(None).is_empty());
}
