use project::candidates::{Candidates, PathMatchCandidateSet, Snapshot, TraversalRequest};
use project::hints::{
    deserialize_code_actions, AnchorRange, CodeLabel, Completion, CompletionIntent,
    CompletionItemKind, Hover, HoverBlock, HoverBlockKind, InlayHint, InlayHintLabel,
    InlayHintLabelPart, InsertTextFormat, ResolveState,
};
use project::ids::{BufferId, LanguageServerId, PayloadId, ProjectEntryId, WorktreeId};
use project::retained::RemotelyCreatedModels;
use project::worktree::Entry;

fn part(value: &str) -> InlayHintLabelPart {
    InlayHintLabelPart { value: value.to_string(), tooltip: None, location: None }
}

fn hint(label: InlayHintLabel) -> InlayHint {
    InlayHint {
        position: PayloadId(1),
        label,
        kind: None,
        padding_left: false,
        padding_right: false,
        tooltip: None,
        resolve_state: ResolveState::Resolved,
    }
}

#[test]
fn the_text_of_a_hint() {
    assert_eq!(hint(InlayHintLabel::String(": u8".to_string())).text(), ": u8");
    let parts = vec![part(": "), part("Vec<"), part("\u{3b1}"), part(">")];
    assert_eq!(hint(InlayHintLabel::LabelParts(parts)).text(), ": Vec<\u{3b1}>");
    assert_eq!(hint(InlayHintLabel::LabelParts(vec![])).text(), "");
}

#[test]
fn an_empty_hover_has_no_text() {
    let block = |text: &str| HoverBlock { text: text.to_string(), kind: HoverBlockKind::Markdown };
    let hover = |contents| Hover { contents, range: None, language: None };
    assert!(hover(vec![]).is_empty());
    assert!(hover(vec![block(""), block("")]).is_empty());
    assert!(!hover(vec![block(""), block("x")]).is_empty());
}

fn completion(
    kind: Option<CompletionItemKind>,
    text: &str,
    filter_start: usize,
    filter_end: usize,
) -> Completion {
    Completion {
        old_range: AnchorRange { start: PayloadId(1), end: PayloadId(2) },
        new_text: "x".to_string(),
        label: CodeLabel { text: text.to_string(), filter_start, filter_end },
        server_id: LanguageServerId(1),
        documentation: None,
        kind,
        insert_text_format: Some(InsertTextFormat::Snippet),
        lsp_completion: PayloadId(3),
        confirm: None,
    }
}

#[test]
fn completions_are_sorted_by_kind_and_text() {
    let keyword = completion(Some(CompletionItemKind::Keyword), "for loop", 0, 3);
    assert_eq!(keyword.sort_key(), (0, "for"));
    let variable = completion(Some(CompletionItemKind::Variable), "let \u{e9}t\u{e9}", 4, 9);
    assert_eq!(variable.sort_key(), (1, "\u{e9}t\u{e9}"));
    assert_eq!(completion(Some(CompletionItemKind::Color), "red", 1, 3).sort_key(), (2, "ed"));
    assert_eq!(completion(None, "x", 1, 1).sort_key(), (2, ""));
}

#[test]
fn snippets_and_colors() {
    let color = completion(Some(CompletionItemKind::Color), "red", 0, 3);
    assert_eq!(color.color(Some(PayloadId(9))), Some(PayloadId(9)));
    assert_eq!(color.color(None), None);
    let other = completion(Some(CompletionItemKind::Other), "red", 0, 3);
    assert_eq!(other.color(Some(PayloadId(9))), None);
    assert!(color.is_snippet());
    let plain = Completion { insert_text_format: Some(InsertTextFormat::PlainText), ..other };
    assert!(!plain.is_snippet());
    let none = Completion { insert_text_format: None, ..plain };
    assert!(!none.is_snippet());
}

#[test]
fn intents() {
    assert!(CompletionIntent::Complete.is_complete());
    assert!(!CompletionIntent::Complete.is_compose());
    assert!(CompletionIntent::Compose.is_compose());
    assert!(!CompletionIntent::Compose.is_complete());
}

#[test]
fn enabled_code_actions() {
    let settings = vec![
        ("source.fixAll".to_string(), true),
        ("quickfix".to_string(), false),
        ("refactor".to_string(), true),
    ];
    assert_eq!(deserialize_code_actions(&settings), vec!["source.fixAll", "refactor"]);
}

fn set(candidates: Candidates, include_ignored: bool) -> PathMatchCandidateSet {
    PathMatchCandidateSet {
        snapshot: Snapshot {
            id: 6,
            root_name: "app".to_string(),
            root_entry: Some(Entry {
                id: ProjectEntryId(1),
                path: "".to_string(),
                is_dir: true,
                is_ignored: false,
            }),
            file_count: 10,
            visible_file_count: 8,
            dir_count: 5,
            visible_dir_count: 4,
            entry_count: 15,
            visible_entry_count: 12,
        },
        include_ignored,
        include_root_name: true,
        candidates,
    }
}

#[test]
fn how_many_candidates_there_are() {
    assert_eq!(set(Candidates::Files, true).len(), 10);
    assert_eq!(set(Candidates::Files, false).len(), 8);
    assert_eq!(set(Candidates::Directories, true).len(), 5);
    assert_eq!(set(Candidates::Directories, false).len(), 4);
    assert_eq!(set(Candidates::Entries, true).len(), 15);
    assert_eq!(set(Candidates::Entries, false).len(), 12);
    assert_eq!(set(Candidates::Files, true).id(), 6);
}

#[test]
fn as_many_candidates_as_are_visited() {
    let entries = [(true, false), (true, true), (false, false), (false, false), (false, true)];
    for candidates in [Candidates::Files, Candidates::Directories, Candidates::Entries] {
        for include_ignored in [false, true] {
            let count = |files: bool, dirs: bool, ignored: bool| {
                entries
                    .iter()
                    .filter(|(is_dir, is_ignored)| {
                        (if *is_dir { dirs } else { files }) && (ignored || !is_ignored)
                    })
                    .count()
            };
            let mut set = set(candidates, include_ignored);
            set.snapshot.file_count = count(true, false, true);
            set.snapshot.visible_file_count = count(true, false, false);
            set.snapshot.dir_count = count(false, true, true);
            set.snapshot.visible_dir_count = count(false, true, false);
            set.snapshot.entry_count = count(true, true, true);
            set.snapshot.visible_entry_count = count(true, true, false);
            let request = set.candidates(0);
            assert_eq!(set.len(), count(request.files, request.dirs, request.include_ignored));
        }
    }
}

#[test]
fn what_stands_before_the_candidates() {
    let with_name = set(Candidates::Files, true);
    assert_eq!(with_name.prefix(), "app/");
    let without = PathMatchCandidateSet { include_root_name: false, ..with_name };
    assert_eq!(without.prefix(), "");
    let mut single = without;
    single.snapshot.root_entry.as_mut().unwrap().is_dir = false;
    assert_eq!(single.prefix(), "app");
}

#[test]
fn which_candidates_are_visited() {
    let request = |files, dirs| TraversalRequest { files, dirs, include_ignored: false, start: 3 };
    assert_eq!(set(Candidates::Files, false).candidates(3), request(true, false));
    assert_eq!(set(Candidates::Directories, false).candidates(3), request(false, true));
    assert_eq!(set(Candidates::Entries, false).candidates(3), request(true, true));
}

#[test]
fn what_is_created_while_a_request_runs_is_kept() {
    let mut models = RemotelyCreatedModels::new();
    models.buffer_created(BufferId(9));
    assert!(!models.retains_buffer(BufferId(9)));
    models.retain(vec![BufferId(1)], vec![WorktreeId(1)]);
    models.retain(vec![BufferId(5)], vec![]);
    assert!(models.retains_buffer(BufferId(1)));
    assert!(!models.retains_buffer(BufferId(5)));
    models.buffer_created(BufferId(2));
    models.worktree_created(WorktreeId(2));
    models.release();
    assert!(models.retains_buffer(BufferId(1)));
    assert!(models.retains_buffer(BufferId(2)));
    models.release();
    assert!(!models.retains_buffer(BufferId(1)));
    assert!(!models.retains_buffer(BufferId(2)));
}
