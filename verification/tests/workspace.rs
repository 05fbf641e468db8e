use kotlin_lsp::backend::events::ContentChange;
use kotlin_lsp::features::kmp_expect_diagnostics::SourceDirEntry;
use kotlin_lsp::indexer::{FileData, Indexer};
use kotlin_lsp::paths::FilePath;
use kotlin_lsp::protocol::{Diagnostic, Position, Range};
use kotlin_lsp::workspace::diagnostics::{
    chosen_syntax, first_diagnostics, full_diagnostics, Findings, Publication,
};
use kotlin_lsp::workspace::directories::{
    auto_detect_workspace_root, has_any_marker, strong_build_markers, walk_up_to_git_root,
    weak_build_markers, DirectoryLevel, GitLevel,
};
use kotlin_lsp::workspace::document_handler::{
    documents_to_republish, handle_file_deleted, handle_file_opened,
    is_outside_pinned_workspace_root, republished_first, republished_second,
    republished_warnings, should_switch_workspace_root, store_live_document_state,
    valid_addresses, OpenDocumentIndexing, OpenedFile,
};
use kotlin_lsp::workspace::file_change_handler::{
    drain_file_changed_batch, handle_file_closed, update_live_tree, FileChangeHandler,
    DEBOUNCE_MILLIS,
};

const COMMON: &str = "file:///ws/src/commonMain/kotlin/Foo.kt";
const EXPECT: &str = "package test\nexpect fun greet(name: String)";

fn diagnostic(message: &str) -> Diagnostic {
    let zero = Position { line: 0, character: 0 };
    Diagnostic {
        range: Range { start: zero, end: zero },
        severity: None,
        source: None,
        message: message.to_owned(),
        data: None,
    }
}

fn findings(fresh: bool) -> Findings {
    Findings {
        fresh_syntax: if fresh { Some(vec![diagnostic("fresh")]) } else { None },
        stored_syntax: Some(vec![diagnostic("stored")]),
        branches: vec![diagnostic("when")],
        call_arguments: vec![diagnostic("call")],
        package: Some(diagnostic("package")),
    }
}

fn messages(list: &[Diagnostic]) -> Vec<&str> {
    list.iter().map(|d| d.message.as_str()).collect()
}

fn published(publication: &Publication) -> Vec<&str> {
    messages(&publication.diagnostics)
}

fn path(text: &str) -> FilePath {
    FilePath { components: text.split('/').map(|name| name.as_bytes().to_vec()).collect() }
}

fn level(at: &str, entries: &[&str]) -> DirectoryLevel<String> {
    DirectoryLevel {
        path: at.to_owned(),
        canonical: path(at),
        entries: entries.iter().map(|name| (*name).to_owned()).collect(),
    }
}

fn platforms() -> Vec<SourceDirEntry> {
    ["commonMain", "jvmMain"]
        .iter()
        .map(|name| SourceDirEntry {
            name: Some((*name).to_owned()),
            is_dir: true,
            has_kotlin: true,
            has_java: false,
        })
        .collect()
}

fn workspace() -> Indexer {
    let mut idx = Indexer::new();
    idx.set_file(
        COMMON,
        FileData { package: Some("test".to_owned()), text: EXPECT.to_owned() },
    );
    idx
}

#[test]
fn markers_are_looked_for_among_the_entries() {
    let entries = vec!["src".to_owned(), "pom.xml".to_owned()];
    assert!(has_any_marker(&entries, &strong_build_markers()));
    assert!(!has_any_marker(&entries, &weak_build_markers()));
    assert!(!has_any_marker(&vec![], &strong_build_markers()));
    assert_eq!(strong_build_markers().len(), 6);
    assert_eq!(weak_build_markers(), vec!["Package.swift"]);
}

#[test]
fn the_root_is_the_nearest_build() {
    let levels = vec![
        level("/r/app/src", &[]),
        level("/r/app", &["build.gradle.kts"]),
        level("/r", &["settings.gradle", ".git"]),
    ];
    assert_eq!(auto_detect_workspace_root(&levels), Some(1));
}

#[test]
fn the_root_is_that_of_the_repository_where_nothing_is_built() {
    let levels = vec![
        level("/b/r/src", &["Package.swift"]),
        level("/b/r", &[".git"]),
        level("/b", &["pom.xml"]),
    ];
    assert_eq!(auto_detect_workspace_root(&levels), Some(1));
}

#[test]
fn weak_markers_count_outside_repositories() {
    let levels = vec![level("/a/b", &[]), level("/a", &["Package.swift"]), level("/", &[])];
    assert_eq!(auto_detect_workspace_root(&levels), Some(1));
    assert_eq!(auto_detect_workspace_root(&vec![level("/a", &[]), level("/", &[])]), Some(0));
    assert_eq!(auto_detect_workspace_root::<String>(&vec![]), None);
}

#[test]
fn repositories_are_looked_for_upwards() {
    let at = |path: &'static str, has_git: bool| GitLevel { path, has_git };
    assert_eq!(walk_up_to_git_root(vec![at("c", false), at("b", true), at("a", true)]), "b");
    assert_eq!(walk_up_to_git_root(vec![at("c", false), at("a", false)]), "c");
}

fn opened() -> Option<OpenedFile<String>> {
    Some(OpenedFile {
        canonical: path("/new/src/Foo.kt"),
        levels: vec![level("/new/src", &[]), level("/new", &["pom.xml"]), level("/", &[])],
    })
}

#[test]
fn the_root_switches_to_that_of_an_opened_file() {
    let plan = handle_file_opened(false, opened(), None);
    assert_eq!(plan.switch_root.as_deref(), Some("/new"));
    assert!(!plan.content_only);
    let plan = handle_file_opened(false, opened(), Some(&path("/old")));
    assert_eq!(plan.switch_root.as_deref(), Some("/new"));
}

#[test]
fn the_root_stays_where_it_need_not_switch() {
    let plan = handle_file_opened(false, opened(), Some(&path("/new")));
    assert_eq!(plan.switch_root, None);
    let plan = handle_file_opened::<String>(false, None, None);
    assert_eq!(plan.switch_root, None);
    assert!(!should_switch_workspace_root(&path("/x/F.kt"), &path("/old"), Some(&path("/old"))));
}

#[test]
fn a_pinned_root_stays_and_outside_files_are_only_indexed() {
    let plan = handle_file_opened(true, opened(), Some(&path("/old")));
    assert_eq!(plan.switch_root, None);
    assert!(plan.content_only);
    let plan = handle_file_opened(true, opened(), Some(&path("/new")));
    assert!(!plan.content_only);
    assert!(!is_outside_pinned_workspace_root(true, None, Some(&path("/old"))));
    assert!(!is_outside_pinned_workspace_root(true, Some(&path("/x")), None));
}

#[test]
fn opening_and_deleting_a_document() {
    let mut idx = workspace();
    store_live_document_state(&mut idx, COMMON, "fun live() {}");
    assert_eq!(idx.live_doc(COMMON).unwrap().text(0), Some("fun live() {}"));
    let publication = handle_file_deleted(&mut idx, COMMON.to_owned());
    assert_eq!(publication, Publication { uri: COMMON.to_owned(), diagnostics: vec![] });
    assert!(idx.live_doc_or_parse(COMMON).is_none());
    assert!(idx.file_data_for(COMMON).is_none());
}

#[test]
fn diagnostics_come_in_order() {
    assert_eq!(
        messages(&first_diagnostics(findings(true), false, true)),
        vec!["fresh", "when", "call", "package"]
    );
    assert_eq!(
        messages(&first_diagnostics(findings(false), false, false)),
        vec!["stored", "when", "package"]
    );
    assert_eq!(
        messages(&first_diagnostics(findings(true), true, true)),
        vec!["fresh", "package"]
    );
    assert_eq!(
        messages(&full_diagnostics(findings(true), true, vec![diagnostic("expect")])),
        vec!["fresh", "when", "call", "expect", "package"]
    );
    assert!(chosen_syntax(None, None).is_empty());
}

#[test]
fn an_opened_document_is_reported_in_two_goes() {
    let idx = workspace();
    let job = OpenDocumentIndexing::new(COMMON.to_owned(), EXPECT);
    let first = job.first(findings(true), false);
    assert_eq!(first.uri, COMMON);
    assert_eq!(published(&first), vec!["fresh", "when", "call", "package"]);
    assert_eq!(published(&job.first(findings(true), true)), vec!["fresh", "package"]);
    assert!(job.warnings(&idx, &platforms(), true).is_none());
    assert!(job.warnings(&idx, &vec![], false).is_none());
    let warnings = job.warnings(&idx, &platforms(), false).unwrap();
    assert_eq!(warnings.len(), 1);
    let second = job.second(findings(true), warnings);
    assert_eq!(
        published(&second),
        vec![
            "fresh",
            "when",
            "call",
            "Missing 'actual' implementation for \u{2B22} JVM",
            "package"
        ]
    );
}

#[test]
fn open_documents_are_reported_again() {
    let mut idx = workspace();
    store_live_document_state(&mut idx, COMMON, EXPECT);
    store_live_document_state(&mut idx, "file:///ws/a/../b.kt", "fun a() {}");
    assert_eq!(documents_to_republish(&idx), vec![COMMON, "file:///ws/b.kt"]);
    assert_eq!(
        valid_addresses(vec![None, Some("x".to_owned()), None]),
        vec!["x".to_owned()]
    );
    assert_eq!(
        published(&republished_first(&idx, COMMON, findings(false))),
        vec!["stored", "when", "call", "package"]
    );
    assert_eq!(
        published(&republished_first(&idx, "file:///closed.kt", findings(false))),
        vec!["stored", "when", "package"]
    );
    let warnings = republished_warnings(&idx, COMMON, &platforms()).unwrap();
    assert!(republished_warnings(&idx, "file:///closed.kt", &platforms()).is_none());
    assert_eq!(
        published(&republished_second(&idx, COMMON, findings(false), warnings)).len(),
        5
    );
}

fn change(text: &str) -> Vec<ContentChange> {
    vec![ContentChange { text: text.to_owned() }]
}

#[test]
fn the_last_change_of_a_batch_counts() {
    assert_eq!(drain_file_changed_batch(&vec![]), None);
    let mut changes = change("a");
    changes.extend(change("b"));
    assert_eq!(drain_file_changed_batch(&changes).as_deref(), Some("b"));
}

#[test]
fn an_edit_takes_the_place_of_the_one_before() {
    let mut idx = workspace();
    let mut handler = FileChangeHandler::new();
    let none = vec![];
    assert!(handler
        .handle_file_changed(&mut idx, COMMON.to_owned(), &vec![], &none, 1)
        .is_none());
    let first = handler
        .handle_file_changed(&mut idx, COMMON.to_owned(), &change("a"), &none, 1)
        .unwrap();
    assert_eq!(first.abort, None);
    assert!(first.clear.diagnostics.is_empty());
    assert_eq!(first.task.text, "a");
    assert_eq!(first.task.generation, 1);
    assert!(handler.is_current(&first.task));
    let other = handler
        .handle_file_changed(&mut idx, "file:///b.kt".to_owned(), &change("b"), &none, 2)
        .unwrap();
    assert!(handler.is_current(&first.task));
    let second = handler
        .handle_file_changed(&mut idx, COMMON.to_owned(), &change("c"), &none, 3)
        .unwrap();
    assert_eq!(second.abort, Some(1));
    assert!(!handler.is_current(&first.task));
    assert!(handler.is_current(&second.task));
    assert!(handler.is_current(&other.task));
    let third = handler
        .handle_file_changed(&mut idx, COMMON.to_owned(), &change("d"), &vec![3], 4)
        .unwrap();
    assert_eq!(third.abort, None);
    assert_eq!(DEBOUNCE_MILLIS, 300);
}

#[test]
fn a_task_can_be_started_for_a_document_without_edits() {
    let mut handler = FileChangeHandler::new();
    let none = vec![];
    let (abort, task) =
        handler.reschedule_debounced_reindex(COMMON.to_owned(), "a".to_owned(), &none, 5);
    assert_eq!(abort, None);
    assert_eq!(task.generation, 0);
    assert!(handler.is_current(&task));
    let mut idx = workspace();
    let plan = handler
        .handle_file_changed(&mut idx, COMMON.to_owned(), &change("b"), &none, 6)
        .unwrap();
    assert_eq!(plan.abort, Some(5));
    assert_eq!(plan.task.generation, 1);
    assert!(!handler.is_current(&task));
}

#[test]
fn a_closed_document_starts_over() {
    let mut idx = workspace();
    let mut handler = FileChangeHandler::new();
    let plan = handler
        .handle_file_changed(&mut idx, COMMON.to_owned(), &change(EXPECT), &vec![], 1)
        .unwrap();
    assert!(plan.task.should_index(&idx));
    update_live_tree(&mut idx, COMMON, EXPECT);
    assert!(idx.live_doc(COMMON).is_some());
    let (abort, publication) = handle_file_closed(&mut handler, &mut idx, COMMON.to_owned());
    assert_eq!(abort, Some(1));
    assert_eq!(publication, Publication { uri: COMMON.to_owned(), diagnostics: vec![] });
    assert!(!plan.task.should_index(&idx));
    update_live_tree(&mut idx, COMMON, EXPECT);
    assert!(idx.live_doc(COMMON).is_none());
    let again = handler
        .handle_file_changed(&mut idx, COMMON.to_owned(), &change(EXPECT), &vec![], 2)
        .unwrap();
    assert_eq!(again.task.generation, 1);
    assert!(again.task.counter != plan.task.counter);
    assert_eq!(handler.cancel_pending_reindex(COMMON), Some(2));
    assert_eq!(handler.cancel_pending_reindex(COMMON), None);
}

#[test]
fn a_task_publishes_unless_it_is_outdated() {
    let mut idx = workspace();
    let mut handler = FileChangeHandler::new();
    let task = handler
        .handle_file_changed(&mut idx, COMMON.to_owned(), &change(EXPECT), &vec![], 1)
        .unwrap()
        .task;
    let edit = task.indexed(&handler, true).unwrap();
    assert_eq!(edit.doc.as_ref().unwrap().text(0), Some(EXPECT));
    assert_eq!(
        published(&edit.first(&handler, findings(false)).unwrap()),
        vec!["stored", "when", "call"]
    );
    let warnings = edit.warnings(&handler, &idx, &platforms()).unwrap();
    assert!(edit.warnings(&handler, &idx, &vec![]).is_none());
    assert_eq!(
        published(&edit.second(&idx, findings(true), warnings)),
        vec!["fresh", "when", "Missing 'actual' implementation for \u{2B22} JVM"]
    );
    update_live_tree(&mut idx, COMMON, EXPECT);
    assert_eq!(
        published(&edit.second(&idx, findings(true), vec![])),
        vec!["fresh", "when", "call"]
    );
    let _ = handler.handle_file_changed(&mut idx, COMMON.to_owned(), &change("x"), &vec![], 2);
    assert!(edit.first(&handler, findings(true)).is_none());
    assert!(edit.warnings(&handler, &idx, &platforms()).is_none());
}

#[test]
fn a_task_ends_where_nobody_listens_or_an_edit_arrived() {
    let mut idx = workspace();
    let mut handler = FileChangeHandler::new();
    let mut start = |handler: &mut FileChangeHandler, number: u64| {
        handler
            .handle_file_changed(&mut idx, COMMON.to_owned(), &change(EXPECT), &vec![], number)
            .unwrap()
            .task
    };
    let first = start(&mut handler, 1);
    assert!(first.indexed(&handler, false).is_none());
    let second = start(&mut handler, 2);
    let third = start(&mut handler, 3);
    assert!(second.indexed(&handler, true).is_none());
    assert!(third.indexed(&handler, true).is_some());
}
