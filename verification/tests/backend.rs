use kotlin_lsp::backend::capabilities::{server_capabilities, SyncKind, TokenLegend};
use kotlin_lsp::backend::commands::{
    cache_located, cache_removed, directory_checked, execute_command_impl, parse_range,
    show_location, CommandStep,
};
use kotlin_lsp::backend::events::{
    did_change, did_change_watched_files, did_close, did_open, did_save, initialized,
    ContentChange, Event, FileChangeType, FileEvent, WatchedFileAction,
};
use kotlin_lsp::backend::git_head::{read_git_commit, symbolic_ref, GitHeadWatcher, RefFile};
use kotlin_lsp::backend::initialize::{
    collect_indexing_option_strings, configured_path, detect_snippet_support, initialize,
    initialize_root_uri, resolve_workspace_root, ClientRoot, CompletionCapability,
    CompletionItemCapability, InitializeParams, RootCandidate, RootSources,
    TextDocumentCapability,
};
use kotlin_lsp::backend::panic_guard::{
    panic_safe, CaughtFlag, PanicPayload, PanicReport, RpcError, INTERNAL_ERROR,
};
use kotlin_lsp::backend::progress::{begin, end, report, WorkDoneProgress};
use kotlin_lsp::indexer::{FileData, Indexer};
use kotlin_lsp::json::JsonValue;
use kotlin_lsp::protocol::{Message, MessageType, Position, Range};
use kotlin_lsp::workspace::directories::GitLevel;

fn text(value: &str) -> JsonValue {
    JsonValue::Str(value.to_owned())
}

fn warning(value: &str) -> CommandStep {
    CommandStep::Show(Message { kind: MessageType::Warning, text: value.to_owned() })
}

fn info(value: &str) -> CommandStep {
    CommandStep::Show(Message { kind: MessageType::Info, text: value.to_owned() })
}

fn indexed() -> Indexer {
    let mut idx = Indexer::new();
    idx.set_file("file:///a/Foo.kt", FileData { package: None, text: "fun a() {}".to_owned() });
    idx
}

#[test]
fn reindexing_forgets_what_was_indexed() {
    let mut idx = indexed();
    let step = execute_command_impl(&mut idx, Some("/ws"), "kotlin-lsp/reindex", &vec![]);
    assert_eq!(
        step,
        CommandStep::Reindex(Message {
            kind: MessageType::Info,
            text: "kotlin-lsp: reindexing workspace\u{2026}".to_owned(),
        })
    );
    assert!(idx.file_data_for("file:///a/Foo.kt").is_none());
}

#[test]
fn reindexing_needs_a_workspace() {
    let mut idx = indexed();
    let step = execute_command_impl(&mut idx, None, "kotlin-lsp/reindex", &vec![]);
    assert_eq!(step, warning("kotlin-lsp: no workspace root set"));
    assert!(idx.file_data_for("file:///a/Foo.kt").is_some());
}

#[test]
fn a_cache_is_cleared_step_by_step() {
    let mut idx = indexed();
    let step =
        execute_command_impl(&mut idx, Some("/ws"), "kotlin-lsp/clearCache", &vec![text("/p")]);
    assert_eq!(step, CommandStep::CheckDirectory("/p".to_owned()));
    assert_eq!(
        directory_checked("/p", true),
        CommandStep::LocateCache(Some("/p".to_owned()), "/p".to_owned())
    );
    assert_eq!(cache_located("/p", true), CommandStep::RemoveCache("/p".to_owned()));
    assert_eq!(cache_removed("/p", None), info("kotlin-lsp: cleared cache for /p"));
    assert!(idx.file_data_for("file:///a/Foo.kt").is_some());
}

#[test]
fn clearing_a_cache_can_fail() {
    let mut idx = Indexer::new();
    assert_eq!(
        execute_command_impl(&mut idx, Some("/ws"), "kotlin-lsp/clearCache", &vec![]),
        CommandStep::LocateCache(None, "/ws".to_owned())
    );
    assert_eq!(
        execute_command_impl(
            &mut idx,
            Some("/ws"),
            "kotlin-lsp/clearCache",
            &vec![JsonValue::Unsigned(1)]
        ),
        CommandStep::LocateCache(None, "/ws".to_owned())
    );
    assert_eq!(
        execute_command_impl(&mut idx, None, "kotlin-lsp/clearCache", &vec![]),
        warning("kotlin-lsp/clearCache: no workspace root set and no path provided")
    );
    assert_eq!(
        directory_checked("/p", false),
        warning("kotlin-lsp/clearCache: not a directory: /p")
    );
    assert_eq!(
        cache_located("/ws", false),
        warning("kotlin-lsp/clearCache: cache path parent missing")
    );
    assert_eq!(
        cache_removed("/ws", Some("denied")),
        warning("kotlin-lsp: failed to clear cache: denied")
    );
}

fn position(line: u64, character: u64) -> JsonValue {
    JsonValue::pair(
        "line",
        JsonValue::Unsigned(line),
        "character",
        JsonValue::Unsigned(character),
    )
}

fn locations(uri: JsonValue, range: JsonValue) -> Vec<JsonValue> {
    vec![
        JsonValue::Null,
        JsonValue::Null,
        JsonValue::Array(vec![JsonValue::pair("uri", uri, "range", range)]),
    ]
}

#[test]
fn going_to_a_location_shows_its_document() {
    let mut idx = Indexer::new();
    let range = JsonValue::pair("start", position(1, 2), "end", position(3, 4));
    let arguments = locations(text("file:///a/b/../Foo.kt"), range);
    match execute_command_impl(&mut idx, None, "editor.action.goToLocations", &arguments) {
        CommandStep::Open(document) => {
            assert_eq!(document.uri, "file:///a/Foo.kt");
            assert_eq!(
                document.selection,
                Some(Range {
                    start: Position { line: 1, character: 2 },
                    end: Position { line: 3, character: 4 },
                })
            );
        }
        other => panic!("expected a document, got {other:?}"),
    }
}

#[test]
fn going_to_no_location_does_nothing() {
    let mut idx = Indexer::new();
    let range = || JsonValue::pair("start", position(1, 2), "end", position(3, 4));
    for arguments in [
        vec![],
        vec![JsonValue::Null, JsonValue::Null, JsonValue::Null],
        vec![JsonValue::Null, JsonValue::Null, JsonValue::Array(vec![])],
        locations(JsonValue::Null, range()),
        locations(text("not an address"), range()),
    ] {
        let step = execute_command_impl(&mut idx, None, "editor.action.goToLocations", &arguments);
        assert_eq!(step, CommandStep::Nothing);
    }
    assert_eq!(execute_command_impl(&mut idx, None, "other", &vec![]), CommandStep::Nothing);
    assert_eq!(show_location(None, &range()), CommandStep::Nothing);
}

#[test]
fn ranges_are_read_leniently() {
    assert_eq!(parse_range(&JsonValue::pair("start", position(1, 2), "x", JsonValue::Null)), None);
    let range = JsonValue::pair("start", JsonValue::Null, "end", position(1u64 << 32, 7));
    assert_eq!(
        parse_range(&range),
        Some(Range {
            start: Position { line: 0, character: 0 },
            end: Position { line: 0, character: 7 },
        })
    );
}

#[test]
fn the_server_tells_what_it_can_do() {
    let legend = TokenLegend {
        token_types: vec!["class".to_owned()],
        token_modifiers: vec![],
    };
    let capabilities = server_capabilities(legend);
    assert_eq!(
        capabilities.commands,
        vec!["kotlin-lsp/reindex", "kotlin-lsp/clearCache", "editor.action.goToLocations"]
    );
    assert_eq!(capabilities.completion_triggers, vec![".", ":", "@"]);
    assert_eq!(capabilities.signature_triggers, vec!["(", ","]);
    assert_eq!(capabilities.text_document_sync.change, Some(SyncKind::Full));
    assert_eq!(capabilities.text_document_sync.save_with_text, Some(false));
    assert!(capabilities.hover && capabilities.prepare_rename && capabilities.tokens_range);
    assert!(!capabilities.code_lens_resolve);
    assert_eq!(capabilities.token_legend.token_types, vec!["class"]);
}

fn params() -> InitializeParams {
    InitializeParams {
        text_document: None,
        root_uri: None,
        workspace_folders: None,
        initialization_options: None,
    }
}

fn with_snippets(snippet_support: Option<bool>) -> InitializeParams {
    InitializeParams {
        text_document: Some(TextDocumentCapability {
            completion: Some(CompletionCapability {
                completion_item: Some(CompletionItemCapability { snippet_support }),
            }),
        }),
        ..params()
    }
}

#[test]
fn snippet_support_is_off_unless_said() {
    assert!(!detect_snippet_support(&params()));
    assert!(!detect_snippet_support(&with_snippets(None)));
    assert!(!detect_snippet_support(&with_snippets(Some(false))));
    assert!(detect_snippet_support(&with_snippets(Some(true))));
}

#[test]
fn the_root_is_given_directly_or_by_the_first_folder() {
    assert_eq!(initialize_root_uri(&params()), None);
    let folders = Some(vec!["file:///a".to_owned(), "file:///b".to_owned()]);
    let by_folder = InitializeParams { workspace_folders: folders, ..params() };
    assert_eq!(initialize_root_uri(&by_folder).as_deref(), Some("file:///a"));
    let direct = InitializeParams { root_uri: Some("file:///r".to_owned()), ..by_folder };
    assert_eq!(initialize_root_uri(&direct).as_deref(), Some("file:///r"));
    let empty = InitializeParams { workspace_folders: Some(vec![]), ..params() };
    assert_eq!(initialize_root_uri(&empty), None);
}

fn candidate(path: &'static str, is_dir: bool) -> Option<RootCandidate<&'static str>> {
    Some(RootCandidate { path, is_dir })
}

fn client(has_git: bool) -> Option<ClientRoot<&'static str>> {
    Some(ClientRoot {
        is_dir: true,
        levels: vec![
            GitLevel { path: "client", has_git: false },
            GitLevel { path: "repository", has_git },
            GitLevel { path: "above", has_git },
        ],
    })
}

#[test]
fn roots_go_by_who_names_them() {
    let sources = || RootSources {
        environment: candidate("environment", true),
        config: candidate("config", true),
        client: client(true),
    };
    assert_eq!(resolve_workspace_root(false, sources()), Some("environment"));
    let rest = || RootSources { environment: candidate("environment", false), ..sources() };
    assert_eq!(resolve_workspace_root(false, rest()), Some("repository"));
    assert_eq!(resolve_workspace_root(true, rest()), Some("config"));
    let no_git = || RootSources { client: client(false), ..rest() };
    assert_eq!(resolve_workspace_root(false, no_git()), Some("client"));
    let none = RootSources { environment: None, config: candidate("config", false), client: None };
    assert_eq!(resolve_workspace_root::<&str>(true, none), None);
    let fallback =
        RootSources { environment: None, config: candidate("config", true), client: None };
    assert_eq!(resolve_workspace_root(false, fallback), Some("config"));
    assert_eq!(configured_path(" /home/me/app\n"), "/home/me/app");
}

fn options(name: &str, values: Vec<JsonValue>) -> JsonValue {
    let indexing = JsonValue::pair(name, JsonValue::Array(values), "x", JsonValue::Null);
    JsonValue::pair("indexingOptions", indexing, "y", JsonValue::Null)
}

#[test]
fn options_list_texts() {
    let given = options("sourcePaths", vec![text("a"), JsonValue::Null, text("b")]);
    assert_eq!(
        collect_indexing_option_strings(Some(&given), "sourcePaths"),
        Some(vec!["a".to_owned(), "b".to_owned()])
    );
    assert_eq!(collect_indexing_option_strings(Some(&given), "ignorePatterns"), None);
    assert_eq!(collect_indexing_option_strings(None, "sourcePaths"), None);
    let empty = options("sourcePaths", vec![JsonValue::Bool(true)]);
    assert_eq!(collect_indexing_option_strings(Some(&empty), "sourcePaths"), None);
}

#[test]
fn starting_configures_the_workspace_that_is_found() {
    let legend = || TokenLegend { token_types: vec![], token_modifiers: vec![] };
    let given = InitializeParams {
        initialization_options: Some(options("ignorePatterns", vec![text("build")])),
        ..with_snippets(Some(true))
    };
    let sources = RootSources { environment: None, config: None, client: client(true) };
    let started = initialize(&given, false, sources, "1.2.3", legend());
    assert!(started.snippet_support);
    let config = started.config.unwrap();
    assert_eq!(config.root, "repository");
    assert_eq!(config.ignore_patterns, vec!["build"]);
    assert!(config.explicit_source_paths.is_empty());
    assert!(config.pin_workspace);
    assert_eq!(started.result.name, "kotlin-lsp");
    assert_eq!(started.result.version, "1.2.3");
    let nowhere = RootSources { environment: None, config: None, client: None };
    assert!(initialize::<&str>(&given, false, nowhere, "1", legend()).config.is_none());
}

#[test]
fn progress_is_reported() {
    assert_eq!(
        begin("Indexing"),
        WorkDoneProgress::Begin {
            title: "kotlin-lsp".to_owned(),
            cancellable: Some(false),
            message: Some("Indexing".to_owned()),
            percentage: Some(0),
        }
    );
    assert_eq!(
        report(2, 3),
        WorkDoneProgress::Report {
            cancellable: Some(false),
            message: Some("2/3 files\u{2026}".to_owned()),
            percentage: Some(66),
        }
    );
    assert!(matches!(report(0, 0), WorkDoneProgress::Report { percentage: Some(0), .. }));
    assert!(matches!(report(120, 120), WorkDoneProgress::Report { percentage: Some(100), .. }));
    assert_eq!(end("Done"), WorkDoneProgress::End { message: Some("Done".to_owned()) });
}

#[test]
fn panics_become_internal_errors() {
    assert_eq!(panic_safe("hover", Ok(7)), Ok(7));
    assert_eq!(
        panic_safe::<u32>("hover", Err(PanicPayload::Text("boom".to_owned()))),
        Err(PanicReport {
            log: "PANIC in hover: boom".to_owned(),
            error: RpcError {
                code: -32603,
                message: "internal error in hover".to_owned(),
                data: None,
            },
        })
    );
    assert_eq!(
        panic_safe::<u32>("hover", Err(PanicPayload::Other)).unwrap_err().log,
        "PANIC in hover: unknown panic"
    );
    assert_eq!(INTERNAL_ERROR, -32603);
}

#[test]
fn the_flag_is_up_while_a_handler_runs() {
    let mut flag = CaughtFlag { raised: false };
    flag.before_poll();
    flag.after_poll(false);
    assert!(flag.raised);
    flag.before_poll();
    flag.after_poll(true);
    assert!(!flag.raised);
    flag.before_poll();
    flag.dropped();
    assert!(!flag.raised);
}

#[test]
fn the_commit_is_read_through_a_symbolic_head() {
    assert_eq!(symbolic_ref("ref: refs/heads/main\n").as_deref(), Some("refs/heads/main"));
    assert_eq!(symbolic_ref("0123abc\n"), None);
    let commit = || RefFile::Text("0123abc\n".to_owned());
    assert_eq!(
        read_git_commit(Some("ref: refs/heads/main\n"), &commit()).as_deref(),
        Some("0123abc")
    );
    assert_eq!(
        read_git_commit(Some("ref: refs/heads/new\n"), &RefFile::Missing).as_deref(),
        Some("ref: refs/heads/new")
    );
    assert_eq!(read_git_commit(Some("ref: refs/heads/main\n"), &RefFile::Unreadable), None);
    assert_eq!(read_git_commit(Some("4567def\n"), &commit()).as_deref(), Some("4567def"));
    assert_eq!(
        read_git_commit(Some("4567def\n"), &RefFile::Unreadable).as_deref(),
        Some("4567def")
    );
    assert_eq!(read_git_commit(None, &commit()), None);
}

#[test]
fn a_switch_of_the_branch_is_reported_once() {
    let mut idx = indexed();
    assert!(GitHeadWatcher::start(false, None).is_none());
    let mut watcher = GitHeadWatcher::start(true, Some("a".to_owned())).unwrap();
    assert_eq!(watcher.tick(&mut idx, Some("a".to_owned())), None);
    assert_eq!(watcher.tick(&mut idx, None), None);
    assert_eq!(watcher.tick(&mut idx, Some(String::new())), None);
    assert!(idx.file_data_for("file:///a/Foo.kt").is_some());
    let message = watcher.tick(&mut idx, Some("b".to_owned())).unwrap();
    assert_eq!(message.kind, MessageType::Info);
    assert_eq!(message.text, "kotlin-lsp: branch changed, reindexing workspace\u{2026}");
    assert!(idx.file_data_for("file:///a/Foo.kt").is_none());
    assert_eq!(watcher.tick(&mut idx, Some("b".to_owned())), None);
}

#[test]
fn notifications_become_events() {
    let uri = || "file:///a/Foo.kt".to_owned();
    assert_eq!(
        did_open(uri(), "kotlin".to_owned(), "x".to_owned()),
        Event::FileOpened {
            uri: uri(),
            language_id: "kotlin".to_owned(),
            content: "x".to_owned(),
        }
    );
    assert_eq!(did_close(uri()), Event::FileClosed { uri: uri() });
    assert_eq!(did_save(uri()), Event::FileSaved { uri: uri() });
    assert_eq!(initialized().text, "kotlin-lsp ready");
}

#[test]
fn an_edit_counts_at_once() {
    let uri = "file:///a/Foo.kt";
    let mut idx = Indexer::new();
    idx.store_live_tree(uri, "fun old() {}");
    let changes = vec![
        ContentChange { text: "fun mid() {}".to_owned() },
        ContentChange { text: "fun new() {}".to_owned() },
    ];
    let event = did_change(&mut idx, uri.to_owned(), changes);
    assert!(matches!(event, Event::FileChanged { .. }));
    assert!(idx.live_doc(uri).is_none());
    assert_eq!(idx.live_doc_or_parse(uri).unwrap().text(0), Some("fun new() {}"));
    let before = idx.live_doc_or_parse(uri).unwrap();
    let _ = did_change(&mut idx, uri.to_owned(), vec![]);
    assert_eq!(idx.live_doc_or_parse(uri).unwrap().text(0), before.text(0));
}

#[test]
fn files_on_disk_are_forgotten_or_read_again() {
    let change = |uri: &str, kind: FileChangeType| FileEvent { uri: uri.to_owned(), kind };
    let actions = did_change_watched_files(&vec![
        change("a", FileChangeType::Created),
        change("b", FileChangeType::Deleted),
        change("c", FileChangeType::Changed),
    ]);
    assert_eq!(
        actions,
        vec![
            WatchedFileAction::Reindex { uri: "a".to_owned() },
            WatchedFileAction::Send(Event::FileDeleted { uri: "b".to_owned() }),
            WatchedFileAction::Reindex { uri: "c".to_owned() },
        ]
    );
}

#[test]
fn a_switch_between_branches_without_commits_is_noticed() {
    let mut idx = Indexer::new();
    let one = read_git_commit(Some("ref: refs/heads/one\n"), &RefFile::Missing);
    let two = read_git_commit(Some("ref: refs/heads/two\n"), &RefFile::Missing);
    let mut watcher = GitHeadWatcher::start(true, one).unwrap();
    assert!(watcher.tick(&mut idx, two).is_some());
}

#[test]
fn the_percentage_never_shrinks() {
    let mut last = 0;
    for done in 0..=7 {
        match report(done, 7) {
            WorkDoneProgress::Report { percentage: Some(percentage), .. } => {
                assert!(last <= percentage && percentage <= 100);
                last = percentage;
            }
            other => panic!("expected a report, got {other:?}"),
        }
    }
    assert_eq!(last, 100);
}
