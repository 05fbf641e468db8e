//! What the requests and notifications of the editor lead to, stated over what they carry.

use crate::backend::capabilities::TokenLegend;
use crate::backend::commands::{
    cache_located, cache_removed, directory_checked, execute_command_impl, parse_range,
    CommandStep,
};
use crate::backend::events::{
    did_change, did_change_watched_files, did_close, did_open, did_save, ContentChange, Event,
    FileChangeType, FileEvent, WatchedFileAction,
};
use crate::backend::git_head::{read_git_commit, symbolic_ref, GitHeadWatcher, RefFile};
use crate::backend::initialize::{
    configured_path, detect_snippet_support, initialize, initialize_root_uri, Initialization,
    InitializeParams, RootSources,
};
use crate::backend::panic_guard::{panic_safe, CaughtFlag, PanicPayload, PanicReport};
use crate::backend::progress::{begin, end, report, WorkDoneProgress};
use crate::backend::start_laws::{
    is_given, is_given_by_editor, is_repository_of, lists_values,
    options_give_the_texts_that_are_listed, symbolic_heads_name_a_file,
    the_root_is_the_first_directory_that_is_given,
};
use crate::backend::step_laws::{
    a_cache_is_that_of_the_path_or_of_the_workspace, coordinates_are_the_numbers_given,
    gives_position, going_to_a_location_shows_the_first_listed, lists_first,
    percentages_are_rounded_down, reindexing_starts_in_a_workspace,
};
use crate::indexer::Indexer;
use crate::json::{JsonModel, JsonValue};
use crate::laws::{
    decimal_notation_reads_back, number_in, trimming_takes_away_the_space_around,
};
use crate::protocol::{Message, MessageType, Range};
use crate::text::{decimal, is_space, trimmed};
use crate::urls::normal_url;
use vstd::prelude::*;

verus! {

/// Reindexing forgets all that was indexed, keeps what is known of open documents, and tells the
/// user. Without a workspace nothing changes and the user is warned.
pub proof fn reindexing_forgets_what_was_indexed(
    indexer: &mut Indexer,
    root: Option<&str>,
    command: &str,
    arguments: &Vec<JsonValue>,
    r: CommandStep,
)
    requires
        call_ensures(execute_command_impl, (indexer, root, command, arguments), r),
        command@ == "kotlin-lsp/reindex"@,
    ensures
        root is Some <==> r is Reindex,
        root is Some ==> {
            &&& r->Reindex_0.kind == MessageType::Info
            &&& final(indexer).files@.dom().is_empty()
            &&& final(indexer).definitions@.dom().is_empty()
            &&& final(indexer).live_trees == old(indexer).live_trees
            &&& final(indexer).live_lines == old(indexer).live_lines
        },
        root is None ==> {
            &&& r is Show
            &&& r->Show_0.kind == MessageType::Warning
            &&& *final(indexer) == *old(indexer)
        },
{
    reindexing_starts_in_a_workspace(arguments.deep_view(), root.deep_view());
}

/// To clear a cache, the path in the first argument is looked at, or else the cache of the
/// workspace. The index stays as it is.
pub proof fn clearing_a_cache_starts_with_the_path(
    indexer: &mut Indexer,
    root: Option<&str>,
    command: &str,
    arguments: &Vec<JsonValue>,
    r: CommandStep,
)
    requires
        call_ensures(execute_command_impl, (indexer, root, command, arguments), r),
        command@ == "kotlin-lsp/clearCache"@,
    ensures
        *final(indexer) == *old(indexer),
        arguments@.len() > 0 && arguments@[0] is Str ==> r is CheckDirectory
            && r->CheckDirectory_0@ == arguments@[0]->Str_0@,
        (arguments@.len() == 0 || !(arguments@[0] is Str)) && root is Some ==> r is LocateCache
            && r->LocateCache_0 is None && r->LocateCache_1@ == root->0@,
        (arguments@.len() == 0 || !(arguments@[0] is Str)) && root is None ==> r is Show
            && r->Show_0.kind == MessageType::Warning,
{
    let all = arguments.deep_view();
    let path = if arguments@.len() > 0 && arguments@[0] is Str {
        arguments@[0]->Str_0@
    } else {
        Seq::empty()
    };
    if arguments@.len() > 0 {
        assert(all[0] == arguments@[0].deep_view());
    }
    a_cache_is_that_of_the_path_or_of_the_workspace(all, root.deep_view(), path);
}

/// A cache is located only in a directory, removed only where it was found, and the user is told
/// in the end whether it was removed.
pub proof fn clearing_a_cache_ends_with_a_message(
    path: &str,
    is_dir: bool,
    checked: CommandStep,
    shown: &str,
    found: bool,
    located: CommandStep,
    failure: Option<&str>,
    removed: CommandStep,
)
    requires
        call_ensures(directory_checked, (path, is_dir), checked),
        call_ensures(cache_located, (shown, found), located),
        call_ensures(cache_removed, (shown, failure), removed),
    ensures
        is_dir <==> checked is LocateCache,
        is_dir ==> checked->LocateCache_0 is Some && checked->LocateCache_0->0@ == path@,
        !is_dir ==> checked is Show && checked->Show_0.kind == MessageType::Warning
            && checked->Show_0.text@ == "kotlin-lsp/clearCache: not a directory: "@ + path@,
        found <==> located is RemoveCache,
        found ==> located->RemoveCache_0@ == shown@,
        !found ==> located is Show && located->Show_0.kind == MessageType::Warning,
        removed is Show,
        failure is None ==> removed->Show_0.kind == MessageType::Info && removed->Show_0.text@
            == "kotlin-lsp: cleared cache for "@ + shown@,
        failure is Some ==> removed->Show_0.kind == MessageType::Warning && removed->Show_0.text@
            == "kotlin-lsp: failed to clear cache: "@ + failure->0@,
{
}

/// Going to a location opens the document of the first one listed in the third argument, where
/// its address is valid, takes the focus, and leaves the index.
pub proof fn going_to_a_location_opens_its_document(
    indexer: &mut Indexer,
    root: Option<&str>,
    command: &str,
    arguments: &Vec<JsonValue>,
    uri: Seq<char>,
    range: JsonModel,
    r: CommandStep,
)
    requires
        call_ensures(execute_command_impl, (indexer, root, command, arguments), r),
        command@ == "editor.action.goToLocations"@,
        lists_first(arguments.deep_view(), uri, range),
    ensures
        *final(indexer) == *old(indexer),
        normal_url(uri) is Some <==> r is Open,
        normal_url(uri) is None ==> r is Nothing,
        r is Open ==> {
            &&& r->Open_0.uri@ == normal_url(uri)->0
            &&& r->Open_0.external == Some(false)
            &&& r->Open_0.take_focus == Some(true)
        },
{
    going_to_a_location_shows_the_first_listed(
        arguments.deep_view(),
        root.deep_view(),
        uri,
        range,
    );
}

/// A range is read back from what gives its two ends.
pub proof fn a_range_is_read_back(value: &JsonValue, range: Range, r: Option<Range>)
    requires
        call_ensures(parse_range, (value,), r),
        value.deep_view().get("start"@) is Some,
        value.deep_view().get("end"@) is Some,
        gives_position(value.deep_view().get("start"@)->0, range.start),
        gives_position(value.deep_view().get("end"@)->0, range.end),
    ensures
        r == Some(range),
{
    let start = value.deep_view().get("start"@)->0;
    let end = value.deep_view().get("end"@)->0;
    coordinates_are_the_numbers_given(start, "line"@, range.start.line as u64);
    coordinates_are_the_numbers_given(start, "character"@, range.start.character as u64);
    coordinates_are_the_numbers_given(end, "line"@, range.end.line as u64);
    coordinates_are_the_numbers_given(end, "character"@, range.end.character as u64);
}

/// An edit counts at once: from then on the document is read from the last of the new texts, and
/// the parse before is gone. Other documents, and what is indexed, stay.
pub proof fn an_edit_counts_at_once(
    indexer: &mut Indexer,
    uri: String,
    changes: Vec<ContentChange>,
    other: Seq<char>,
    r: Event,
)
    requires
        call_ensures(did_change, (indexer, uri, changes), r),
        changes@.len() > 0,
        other != uri@,
    ensures
        r == (Event::FileChanged { uri, changes }),
        !final(indexer).live_trees@.contains_key(uri@),
        final(indexer).text_of(uri@) == Some(changes@.last().text@),
        final(indexer).files == old(indexer).files,
        final(indexer).definitions == old(indexer).definitions,
        final(indexer).source_of(other) == old(indexer).source_of(other),
{
    assert(final(indexer).live_lines@.dom().contains(uri@));
}

/// Each file that something happened to on disk leads to one action, in the order of the files: a
/// deleted one is reported, and any other is indexed.
pub proof fn files_on_disk_lead_to_one_action_each(
    changes: &Vec<FileEvent>,
    r: Vec<WatchedFileAction>,
    i: int,
)
    requires
        call_ensures(did_change_watched_files, (changes,), r),
        0 <= i < changes@.len(),
    ensures
        r@.len() == changes@.len(),
        changes@[i].kind == FileChangeType::Deleted ==> r@[i] == WatchedFileAction::Send(
            Event::FileDeleted { uri: changes@[i].uri },
        ),
        changes@[i].kind != FileChangeType::Deleted ==> r@[i] == (WatchedFileAction::Reindex {
            uri: changes@[i].uri,
        }),
{
}

/// A switch of the branch is noticed where there is a commit, not empty, that is another than the
/// last one seen. Then all that was indexed is forgotten, what is known of open documents stays,
/// and the user is told. Otherwise nothing changes.
pub proof fn a_switch_of_the_branch_forgets_the_index(
    watcher: &mut GitHeadWatcher,
    indexer: &mut Indexer,
    current: Option<String>,
    r: Option<Message>,
)
    requires
        call_ensures(GitHeadWatcher::tick, (watcher, indexer, current), r),
    ensures
        r is Some <==> current is Some && current->0@.len() > 0 && current->0@ != old(
            watcher,
        ).last_commit@,
        r is Some ==> {
            &&& r->0.kind == MessageType::Info
            &&& final(watcher).last_commit@ == current->0@
            &&& final(indexer).files@.dom().is_empty()
            &&& final(indexer).definitions@.dom().is_empty()
            &&& final(indexer).live_trees == old(indexer).live_trees
            &&& final(indexer).live_lines == old(indexer).live_lines
        },
        r is None ==> *final(watcher) == *old(watcher) && *final(indexer) == *old(indexer),
{
}

/// A watcher starts from the commit that the repository stands at, and notices no switch as long
/// as that commit stays.
pub proof fn a_watcher_starts_from_the_commit(
    commit: Option<String>,
    started: Option<GitHeadWatcher>,
)
    requires
        call_ensures(GitHeadWatcher::start, (true, commit), started),
    ensures
        started is Some,
        commit is Some ==> started->0.last_commit@ == commit->0@,
        commit is None ==> started->0.last_commit@.len() == 0,
{
}

/// The commit is read from the head, or from the file that a symbolic head names, without the
/// white space around it.
pub proof fn the_commit_is_read_through_a_symbolic_head(
    head: &str,
    path: Seq<char>,
    named: Option<String>,
    file: RefFile,
    r: Option<String>,
)
    requires
        call_ensures(symbolic_ref, (head,), named),
        call_ensures(read_git_commit, (Some(head), &file), r),
    ensures
        trimmed(head@) == "ref: "@ + path ==> {
            &&& named is Some && named->0@ == path
            &&& file matches RefFile::Text(text) ==> r is Some && r->0@ == trimmed(text@)
            &&& file is Missing ==> r is Some && r->0@ == trimmed(head@)
            &&& file is Unreadable ==> r is None
        },
        named is None ==> r is Some && r->0@ == trimmed(head@),
{
    symbolic_heads_name_a_file(head@, path);
    assert(named.deep_view() is Some <==> named is Some);
    assert(r.deep_view() is Some <==> r is Some);
}

/// The configured path is the text of the file without the white space around it.
pub proof fn the_configured_path_is_trimmed(text: &str, r: String) -> (ends: (int, int))
    requires
        call_ensures(configured_path, (text,), r),
    ensures
        0 <= ends.0 <= ends.1 <= text@.len(),
        r@ == text@.subrange(ends.0, ends.1),
        forall|i: int|
            0 <= i < ends.0 || ends.1 <= i < text@.len() ==> is_space(#[trigger] text@[i]),
        ends.0 < ends.1 ==> !is_space(text@[ends.0]) && !is_space(text@[ends.1 - 1]),
{
    trimming_takes_away_the_space_around(text@)
}

/// A workspace is found where one of the sources gives a directory, in the order of preference. It
/// is pinned, and the source paths and ignored patterns are those that the options list.
pub proof fn a_workspace_is_found_and_pinned<P>(
    params: &InitializeParams,
    prefer_config: bool,
    sources: RootSources<P>,
    version: &str,
    legend: TokenLegend,
    r: Initialization<P>,
    i: int,
    values: Seq<JsonModel>,
)
    requires
        call_ensures(
            initialize::<P>,
            (params, prefer_config, sources, version, legend),
            r,
        ),
    ensures
        r.config is Some ==> r.config->0.pin_workspace,
        is_given(sources.environment) ==> r.config is Some && r.config->0.root
            == sources.environment->0.path,
        !is_given(sources.environment) && is_given(sources.config) && (prefer_config
            || !is_given_by_editor(sources.client)) ==> r.config is Some && r.config->0.root
            == sources.config->0.path,
        !is_given(sources.environment) && is_given_by_editor(sources.client) && (!prefer_config
            || !is_given(sources.config)) && is_repository_of(sources.client->0.levels@, i)
            ==> r.config is Some && r.config->0.root == sources.client->0.levels@[i].path,
        !is_given(sources.environment) && !is_given(sources.config) && !is_given_by_editor(
            sources.client,
        ) ==> r.config is None,
        r.config is Some && lists_values(
            params.initialization_options.deep_view(),
            "sourcePaths"@,
            values,
        ) ==> r.config->0.explicit_source_paths.deep_view() == values.filter(
            |value: JsonModel| value is Str,
        ).map_values(|value: JsonModel| value->Str_0),
        r.config is Some && lists_values(
            params.initialization_options.deep_view(),
            "ignorePatterns"@,
            values,
        ) ==> r.config->0.ignore_patterns.deep_view() == values.filter(
            |value: JsonModel| value is Str,
        ).map_values(|value: JsonModel| value->Str_0),
        r.result.name@ == "kotlin-lsp"@,
        r.result.version@ == version@,
{
    the_root_is_the_first_directory_that_is_given(prefer_config, sources, i);
    let options = params.initialization_options.deep_view();
    options_give_the_texts_that_are_listed(options, "sourcePaths"@, values);
    options_give_the_texts_that_are_listed(options, "ignorePatterns"@, values);
}

/// What the editor says as it starts the server is taken as it is: snippets are supported only
/// where it says so, and its root goes before its folders.
pub proof fn the_editor_is_taken_at_its_word(
    params: &InitializeParams,
    snippets: bool,
    root: Option<String>,
)
    requires
        call_ensures(detect_snippet_support, (params,), snippets),
        call_ensures(initialize_root_uri, (params,), root),
    ensures
        snippets <==> params.text_document is Some && params.text_document->0.completion is Some
            && params.text_document->0.completion->0.completion_item is Some
            && params.text_document->0.completion->0.completion_item->0.snippet_support == Some(
            true,
        ),
        params.root_uri is Some ==> root is Some && root->0@ == params.root_uri->0@,
        params.root_uri is None && params.workspace_folders is Some
            && params.workspace_folders->0@.len() > 0 ==> root is Some && root->0@
            == params.workspace_folders->0@[0]@,
{
    assert(root.deep_view() is Some <==> root is Some);
}

/// Progress is reported as how many of the files are done, in digits, and as the percentage that
/// this is, rounded down.
pub proof fn progress_is_counted_in_files(
    done: usize,
    total: usize,
    r: WorkDoneProgress,
) -> (counts: (Seq<char>, Seq<char>))
    requires
        call_ensures(report, (done, total), r),
        done <= total,
    ensures
        r is Report,
        r->Report_message is Some,
        r->Report_message->0@ == counts.0 + "/"@ + counts.1 + " files…"@,
        number_in(counts.0) == done,
        number_in(counts.1) == total,
        r->Report_percentage is Some,
        total > 0 ==> r->Report_percentage->0 * total <= done * 100 < (r->Report_percentage->0 + 1)
            * total,
        total == 0 ==> r->Report_percentage->0 == 0,
{
    decimal_notation_reads_back(done as nat);
    decimal_notation_reads_back(total as nat);
    assert(done * 100 < total * 0x1_0000_0000 || total == 0) by (nonlinear_arith)
        requires
            done <= total,
    ;
    percentages_are_rounded_down(done as nat, total as nat);
    assert(r.deep_view() is Report);
    (decimal(done as nat), decimal(total as nat))
}

/// A request that panics is answered with an internal error that names the request and keeps the
/// text of the panic back, which is logged. Any other is answered with its result.
pub proof fn panics_are_answered_as_internal_errors<T>(
    method: &str,
    result: T,
    text: String,
    answered: Result<T, PanicReport>,
    failed: Result<T, PanicReport>,
)
    requires
        call_ensures(panic_safe::<T>, (method, Ok::<T, PanicPayload>(result)), answered),
        call_ensures(
            panic_safe::<T>,
            (method, Err::<T, PanicPayload>(PanicPayload::Text(text))),
            failed,
        ),
    ensures
        answered == Ok::<T, PanicReport>(result),
        failed is Err,
        failed->Err_0.error.code == -32603,
        failed->Err_0.error.message@ == "internal error in "@ + method@,
        failed->Err_0.error.data is None,
        failed->Err_0.log@ == "PANIC in "@ + method@ + ": "@ + text@,
{
}

/// What happened to a document is passed on as it is.
pub proof fn events_carry_what_happened(
    uri: String,
    language: String,
    text: String,
    opened: Event,
    closed: Event,
    saved: Event,
)
    requires
        call_ensures(did_open, (uri, language, text), opened),
        call_ensures(did_close, (uri,), closed),
        call_ensures(did_save, (uri,), saved),
    ensures
        opened == (Event::FileOpened { uri, language_id: language, content: text }),
        closed == (Event::FileClosed { uri }),
        saved == (Event::FileSaved { uri }),
{
}

/// Progress begins at zero with a message under the server's name, and ends with a message.
pub proof fn progress_begins_and_ends_with_a_message(
    message: &str,
    first: WorkDoneProgress,
    last: WorkDoneProgress,
)
    requires
        call_ensures(begin, (message,), first),
        call_ensures(end, (message,), last),
    ensures
        first is Begin,
        first->Begin_title@ == "kotlin-lsp"@,
        first->Begin_message is Some && first->Begin_message->0@ == message@,
        first->Begin_percentage == Some(0u32),
        first->Begin_cancellable == Some(false),
        last is End,
        last->End_message is Some && last->End_message->0@ == message@,
{
    assert(first.deep_view() is Begin && last.deep_view() is End);
    assert(first->Begin_message.deep_view() == Some(message@));
    assert(last->End_message.deep_view() == Some(message@));
}

/// A panic on a thread counts as caught while a guarded request runs there, and no longer once it
/// is done or dropped.
pub proof fn panics_count_as_caught_while_a_request_runs(
    started: &mut CaughtFlag,
    polled: &mut CaughtFlag,
    ready: bool,
    gone: &mut CaughtFlag,
)
    requires
        call_ensures(CaughtFlag::before_poll, (started,), ()),
        call_ensures(CaughtFlag::after_poll, (polled, ready), ()),
        call_ensures(CaughtFlag::dropped, (gone,), ()),
    ensures
        final(started).raised,
        ready ==> !final(polled).raised,
        !ready ==> final(polled).raised == old(polled).raised,
        !final(gone).raised,
{
}

}
