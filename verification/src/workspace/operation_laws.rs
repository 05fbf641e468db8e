//! What the operations on open documents do, stated over what they are given.

use crate::backend::events::ContentChange;
use crate::features::code_lens::Reading;
use crate::features::kmp_expect_diagnostics::SourceDirEntry;
use crate::features::source_set::set_of_uri;
use crate::indexer::{is_kotlin, Indexer};
use crate::laws::documents_are_read_from_the_newest_source;
use crate::paths::FilePath;
use crate::protocol::{Diagnostic, DiagnosticModel};
use crate::syntax::{doc_model, optional_model, within_limits, LiveDoc};
use crate::urls::normal_url;
use crate::workspace::diagnostics::{
    first_diagnostics, full_diagnostics, warnings_come_on_top, warnings_of, Findings, Publication,
};
use crate::workspace::directories::{
    a_repository_without_builds_is_the_root, auto_detect_workspace_root, detected_level,
    entries_of, is_built, is_in_repository, the_nearest_build_is_the_root,
    the_nearest_repository_is_the_root, walk_up_to_git_root, DirectoryLevel, GitLevel,
};
use crate::workspace::document_handler::{
    documents_to_republish, handle_file_deleted, handle_file_opened, republished_second,
    republished_warnings, should_switch_workspace_root, store_live_document_state,
    OpenDocumentIndexing, OpenPlan, OpenedFile,
};
use crate::workspace::file_change_handler::{
    handle_file_closed, update_live_tree, without_package, ChangePlan, FileChangeHandler,
    IndexedEdit, ReindexTask,
};
use crate::workspace::laws::every_open_document_is_reported_again;
use crate::workspace::publication_laws::{
    a_document_is_told_all_that_it_lacks, an_edit_moves_the_generation_on, as_list, tells_all,
    what_is_found_is_published_in_order,
};
use vstd::prelude::*;
use vstd::utf8::encode_utf8;

verus! {

/// A detected root replaces the current one exactly where the opened file does not lie in the
/// current one and the detected one is another.
pub proof fn a_root_gives_way_to_that_of_a_file_elsewhere(
    file: &FilePath,
    detected: &FilePath,
    root: &FilePath,
    r: bool,
)
    requires
        call_ensures(should_switch_workspace_root, (file, detected, Some(root)), r),
    ensures
        r <==> !root.deep_view().is_prefix_of(file.deep_view()) && detected.deep_view()
            != root.deep_view(),
{
}

/// Where the workspace is not pinned, opening a file that does not lie in the current root
/// switches the root to the directory that is detected above it, unless that is the current root.
pub proof fn opening_a_file_elsewhere_switches_the_root<P>(
    file: OpenedFile<P>,
    root: &FilePath,
    i: int,
    plan: OpenPlan<P>,
)
    requires
        call_ensures(handle_file_opened::<P>, (false, Some(file), Some(root)), plan),
        detected_level(entries_of(file.levels@)) == Some(i),
        !root.deep_view().is_prefix_of(file.canonical.deep_view()),
        file.levels@[i].canonical.deep_view() != root.deep_view(),
    ensures
        plan.switch_root == Some(file.levels@[i].path),
        !plan.content_only,
{
}

/// Opening the first file makes the directory that is detected above it the root.
pub proof fn opening_the_first_file_sets_the_root<P>(
    file: OpenedFile<P>,
    i: int,
    plan: OpenPlan<P>,
)
    requires
        call_ensures(handle_file_opened::<P>, (false, Some(file), None::<&FilePath>), plan),
        detected_level(entries_of(file.levels@)) == Some(i),
    ensures
        plan.switch_root == Some(file.levels@[i].path),
        !plan.content_only,
{
}

/// Opening a file in the current root switches nothing, and neither does opening any file where
/// the workspace is pinned. In a pinned workspace a file outside its root is only indexed.
pub proof fn otherwise_opening_a_file_keeps_the_root<P>(
    pinned: bool,
    file: OpenedFile<P>,
    root: &FilePath,
    plan: OpenPlan<P>,
)
    requires
        call_ensures(handle_file_opened::<P>, (pinned, Some(file), Some(root)), plan),
    ensures
        pinned || root.deep_view().is_prefix_of(file.canonical.deep_view())
            ==> plan.switch_root is None,
        plan.content_only <==> pinned && !root.deep_view().is_prefix_of(
            file.canonical.deep_view(),
        ),
{
}

/// The root that is detected above a file is the nearest directory that is built, where no nearer
/// one holds a git repository.
pub proof fn the_nearest_build_is_detected<P>(
    levels: &Vec<DirectoryLevel<P>>,
    i: int,
    r: Option<usize>,
)
    requires
        call_ensures(auto_detect_workspace_root::<P>, (levels,), r),
        0 <= i < levels@.len(),
        is_in_repository(entries_of(levels@), i),
        forall|j: int| 0 <= j < i ==> !is_built(#[trigger] entries_of(levels@)[j]),
    ensures
        is_built(entries_of(levels@)[i]) ==> r is Some && r->0 == i,
        !is_built(entries_of(levels@)[i]) && entries_of(levels@)[i].contains(".git"@) ==> r is Some
            && r->0 == i,
{
    let all = entries_of(levels@);
    if is_built(all[i]) {
        the_nearest_build_is_the_root(all, i);
    } else if all[i].contains(".git"@) {
        assert forall|j: int| 0 <= j <= i implies !is_built(#[trigger] all[j]) by {}
        a_repository_without_builds_is_the_root(all, i);
    }
}

/// Going up from a directory leads to the nearest that holds a git repository.
pub proof fn going_up_leads_to_the_repository<P>(levels: Vec<GitLevel<P>>, i: int, r: P)
    requires
        call_ensures(walk_up_to_git_root::<P>, (levels,), r),
        0 <= i < levels@.len(),
        forall|j: int| 0 <= j < i ==> !(#[trigger] levels@[j]).has_git,
    ensures
        levels@[i].has_git ==> r == levels@[i].path,
        (forall|j: int| 0 <= j < levels@.len() ==> !(#[trigger] levels@[j]).has_git) ==> r
            == levels@[0].path,
{
    the_nearest_repository_is_the_root(levels@, i);
}

/// The warnings about a packaged document of the common source set tell all that it lacks, and
/// nothing else: one for each `expect` declaration and each source directory for whose set there
/// is no `actual` one.
pub proof fn all_that_a_document_lacks_is_found(
    indexer: &Indexer,
    uri: &str,
    doc: &LiveDoc,
    source_dir: &Vec<SourceDirEntry>,
    package: Seq<char>,
    r: Option<Vec<Diagnostic>>,
)
    requires
        call_ensures(warnings_of, (indexer, uri, Some(doc), source_dir), r),
        indexer.package_of(uri@) == Some(package),
        set_of_uri(uri@) == Some("common"@),
    ensures
        exists|reading: Reading| #[trigger]
            reading.is_possible(*indexer) && tells_all(
                reading,
                uri@,
                package,
                doc_model(*doc),
                source_dir.deep_view(),
                r.deep_view(),
            ),
{
    a_document_is_told_all_that_it_lacks(
        *indexer,
        uri@,
        package,
        doc_model(*doc),
        source_dir.deep_view(),
        r.deep_view(),
    );
}

/// What is published is all that was found: the syntax errors of what was just indexed, what is
/// wrong with `when` expressions and the arguments of calls, the warnings, and the package, in
/// this order.
pub proof fn all_that_is_found_is_published(
    findings: Findings,
    errors: Vec<Diagnostic>,
    warnings: Vec<Diagnostic>,
    first: Vec<Diagnostic>,
    early: Vec<Diagnostic>,
    full: Vec<Diagnostic>,
)
    requires
        findings.fresh_syntax == Some(errors),
        call_ensures(first_diagnostics, (findings, false, true), first),
        call_ensures(first_diagnostics, (findings, true, true), early),
        call_ensures(full_diagnostics, (findings, true, warnings), full),
    ensures
        first.deep_view() == errors.deep_view() + findings.branches.deep_view()
            + findings.call_arguments.deep_view() + as_list(findings.package.deep_view()),
        early.deep_view() == errors.deep_view() + as_list(findings.package.deep_view()),
        full.deep_view() == errors.deep_view() + findings.branches.deep_view()
            + findings.call_arguments.deep_view() + warnings.deep_view() + as_list(
            findings.package.deep_view(),
        ),
{
    what_is_found_is_published_in_order(
        findings.deep_view(),
        errors.deep_view(),
        warnings.deep_view(),
    );
}

/// An opened document is known by its text. Where it is Kotlin within the limits of the parser,
/// its parse is stored, over the bytes of that text. What is indexed, and what is known of other
/// documents, stays.
pub proof fn an_opened_document_is_known_by_its_text(
    indexer: &mut Indexer,
    uri: &str,
    content: &str,
    other: Seq<char>,
)
    requires
        call_ensures(store_live_document_state, (indexer, uri, content), ()),
        other != uri@,
    ensures
        final(indexer).live_lines@.contains_key(uri@),
        final(indexer).live_lines@[uri@]@ == content@,
        is_kotlin(uri@) && within_limits(content@) ==> final(indexer).live_trees@.contains_key(uri@)
            && final(indexer).live_trees@[uri@].bytes() == encode_utf8(content@),
        !is_kotlin(uri@) ==> final(indexer).live_trees@ == old(indexer).live_trees@,
        final(indexer).files == old(indexer).files,
        final(indexer).definitions == old(indexer).definitions,
        final(indexer).source_of(other) == old(indexer).source_of(other),
{
    assert(final(indexer).live_lines@.dom().contains(uri@));
}

/// An edited document is parsed anew as long as it is open, and its parse takes the place of the
/// one before. Once it is closed, nothing changes.
pub proof fn an_edited_document_is_parsed_while_it_is_open(
    indexer: &mut Indexer,
    uri: &str,
    text: &str,
)
    requires
        call_ensures(update_live_tree, (indexer, uri, text), ()),
    ensures
        !old(indexer).live_lines@.contains_key(uri@) ==> *final(indexer) == *old(indexer),
        old(indexer).live_lines@.contains_key(uri@) && is_kotlin(uri@) && within_limits(text@)
            ==> final(indexer).live_trees@.contains_key(uri@)
            && final(indexer).live_trees@[uri@].bytes() == encode_utf8(text@),
        final(indexer).live_lines == old(indexer).live_lines,
        final(indexer).files == old(indexer).files,
        final(indexer).definitions == old(indexer).definitions,
{
}

/// The last of several edits counts. What the editor shows of the document is cleared, the pending
/// task of the document is aborted unless it is finished, and the new one takes its place. The
/// generation moves on by one, and the new task starts with it.
pub proof fn the_last_edit_is_the_one_that_counts(
    handler: &mut FileChangeHandler,
    indexer: &mut Indexer,
    uri: String,
    changes: &Vec<ContentChange>,
    finished: &Vec<u64>,
    task: u64,
    r: Option<ChangePlan>,
)
    requires
        old(handler).wf(),
        call_ensures(
            FileChangeHandler::handle_file_changed,
            (handler, indexer, uri, changes, finished, task),
            r,
        ),
        changes@.len() > 0,
    ensures
        r is Some,
        r->0.clear.uri@ == uri@,
        r->0.clear.diagnostics@.len() == 0,
        r->0.task.uri@ == uri@,
        r->0.task.text@ == changes@.last().text@,
        final(indexer).live_lines@[uri@]@ == changes@.last().text@,
        forall|number: u64|
            #![trigger finished@.contains(number)]
            r->0.abort == Some(number) <==> old(handler).pending_reindex@.contains_key(uri@)
                && old(handler).pending_reindex@[uri@] == number && !finished@.contains(number),
        final(handler).pending_reindex@.contains_key(uri@),
        final(handler).pending_reindex@[uri@] == task,
        final(handler).generation_of(uri@) == Some(r->0.task.generation),
        old(handler).generation_of(uri@) is None ==> r->0.task.generation == 1,
        old(handler).generation_of(uri@) is Some && old(handler).generation_of(uri@)->0 < u64::MAX
            ==> r->0.task.generation == old(handler).generation_of(uri@)->0 + 1,
{
    an_edit_moves_the_generation_on(
        *old(handler),
        uri@,
        r->0.task.counter,
        *final(handler),
        uri@,
    );
    assert(r->0.clear.deep_view().diagnostics.len() == 0);
}

/// A closed document is forgotten, and so are its pending task and its generation. What is indexed
/// of the file stays. What the editor shows of it is cleared.
pub proof fn a_closed_document_is_forgotten(
    handler: &mut FileChangeHandler,
    indexer: &mut Indexer,
    uri: String,
    r: (Option<u64>, Publication),
)
    requires
        call_ensures(handle_file_closed, (handler, indexer, uri), r),
    ensures
        !final(indexer).live_trees@.contains_key(uri@),
        !final(indexer).live_lines@.contains_key(uri@),
        final(indexer).files == old(indexer).files,
        final(indexer).definitions == old(indexer).definitions,
        final(handler).generation_of(uri@) is None,
        !final(handler).pending_reindex@.contains_key(uri@),
        old(handler).pending_reindex@.contains_key(uri@) ==> r.0 == Some(
            old(handler).pending_reindex@[uri@],
        ),
        r.1.uri@ == uri@,
        r.1.diagnostics@.len() == 0,
{
    assert(r.1.deep_view().diagnostics.len() == 0);
}

/// A deleted file is forgotten, as a document and as a file. What other files define stays.
pub proof fn a_deleted_file_is_forgotten(
    indexer: &mut Indexer,
    uri: String,
    other: Seq<char>,
    r: Publication,
)
    requires
        call_ensures(handle_file_deleted, (indexer, uri), r),
        other != uri@,
    ensures
        !final(indexer).files@.contains_key(uri@),
        !final(indexer).live_trees@.contains_key(uri@),
        !final(indexer).live_lines@.contains_key(uri@),
        final(indexer).definitions == old(indexer).definitions,
        final(indexer).files@.contains_key(other) <==> old(indexer).files@.contains_key(other),
        final(indexer).package_of(other) == old(indexer).package_of(other),
        r.uri@ == uri@,
        r.diagnostics@.len() == 0,
{
    assert(r.deep_view().diagnostics.len() == 0);
}

/// A task indexes its text only while the document is open, and goes on only while somebody
/// listens and no newer edit arrived.
pub proof fn a_task_goes_on_while_it_is_wanted(
    task: ReindexTask,
    indexer: &Indexer,
    handler: &FileChangeHandler,
    has_client: bool,
    starts: bool,
    r: Option<IndexedEdit>,
)
    requires
        call_ensures(ReindexTask::should_index, (&task, indexer), starts),
        call_ensures(ReindexTask::indexed, (task, handler, has_client), r),
    ensures
        starts <==> indexer.live_lines@.contains_key(task.uri@),
        r is Some <==> has_client && handler.counters@[task.counter as int] == task.generation,
        r is Some ==> r->0.task == task && (r->0.doc is Some <==> is_kotlin(task.uri@)
            && within_limits(task.text@)),
{
}

/// What a document lacks is found for one that was opened, for one that was edited, and for one
/// that is reported again. While the workspace is being indexed nothing is reported to be lacking
/// in an opened one, and nothing in an edited one once a newer edit arrived.
pub proof fn all_that_is_lacking_is_found_at_every_turn(
    indexer: &Indexer,
    handler: &FileChangeHandler,
    source_dir: &Vec<SourceDirEntry>,
    opened: &OpenDocumentIndexing,
    edit: &IndexedEdit,
    uri: &str,
    indexing: bool,
    package: Seq<char>,
    of_opened: Option<Vec<Diagnostic>>,
    of_edited: Option<Vec<Diagnostic>>,
    of_open: Option<Vec<Diagnostic>>,
)
    requires
        call_ensures(
            OpenDocumentIndexing::warnings,
            (opened, indexer, source_dir, indexing),
            of_opened,
        ),
        call_ensures(IndexedEdit::warnings, (edit, handler, indexer, source_dir), of_edited),
        call_ensures(republished_warnings, (indexer, uri, source_dir), of_open),
        opened.uri@ == uri@,
        edit.task.uri@ == uri@,
        opened.doc is Some,
        edit.doc is Some,
        indexer.live_trees@.contains_key(uri@),
        indexer.package_of(uri@) == Some(package),
        set_of_uri(uri@) == Some("common"@),
    ensures
        indexing ==> of_opened is None,
        !indexing ==> exists|reading: Reading| #[trigger]
            reading.is_possible(*indexer) && tells_all(
                reading,
                uri@,
                package,
                doc_model(opened.doc->0),
                source_dir.deep_view(),
                of_opened.deep_view(),
            ),
        !handler.current(edit.task) ==> of_edited is None,
        handler.current(edit.task) ==> exists|reading: Reading| #[trigger]
            reading.is_possible(*indexer) && tells_all(
                reading,
                uri@,
                package,
                doc_model(edit.doc->0),
                source_dir.deep_view(),
                of_edited.deep_view(),
            ),
        exists|reading: Reading| #[trigger]
            reading.is_possible(*indexer) && tells_all(
                reading,
                uri@,
                package,
                doc_model(indexer.live_trees@[uri@]),
                source_dir.deep_view(),
                of_open.deep_view(),
            ),
{
    let entries = source_dir.deep_view();
    if !indexing {
        a_document_is_told_all_that_it_lacks(
            *indexer,
            uri@,
            package,
            doc_model(opened.doc->0),
            entries,
            of_opened.deep_view(),
        );
    }
    if handler.current(edit.task) {
        a_document_is_told_all_that_it_lacks(
            *indexer,
            uri@,
            package,
            doc_model(edit.doc->0),
            entries,
            of_edited.deep_view(),
        );
    }
    a_document_is_told_all_that_it_lacks(
        *indexer,
        uri@,
        package,
        doc_model(indexer.live_trees@[uri@]),
        entries,
        of_open.deep_view(),
    );
}

/// Every warning is published with the rest of what was found, for a document that was opened, for
/// one that was edited, and for one that is reported again.
pub proof fn every_warning_is_published(
    indexer: &Indexer,
    opened: &OpenDocumentIndexing,
    edit: &IndexedEdit,
    uri: &str,
    findings: Findings,
    warnings: Vec<Diagnostic>,
    of_opened: Publication,
    of_edited: Publication,
    of_open: Publication,
    warning: DiagnosticModel,
)
    requires
        call_ensures(OpenDocumentIndexing::second, (opened, findings, warnings), of_opened),
        call_ensures(IndexedEdit::second, (edit, indexer, findings, warnings), of_edited),
        call_ensures(republished_second, (indexer, uri, findings, warnings), of_open),
        warnings.deep_view().contains(warning),
    ensures
        of_opened.uri@ == opened.uri@,
        of_opened.diagnostics.deep_view().contains(warning),
        of_edited.uri@ == edit.task.uri@,
        of_edited.diagnostics.deep_view().contains(warning),
        of_open.uri@ == uri@,
        of_open.diagnostics.deep_view().contains(warning),
{
    let all = findings.deep_view();
    let list = warnings.deep_view();
    warnings_come_on_top(all, false, opened.doc is Some, list, warning);
    warnings_come_on_top(
        without_package(all),
        false,
        indexer.live_trees@.contains_key(edit.task.uri@),
        list,
        warning,
    );
    warnings_come_on_top(all, false, indexer.live_trees@.contains_key(uri@), list, warning);
    assert(of_opened.deep_view().diagnostics == of_opened.diagnostics.deep_view());
    assert(of_edited.deep_view().diagnostics == of_edited.diagnostics.deep_view());
    assert(of_open.deep_view().diagnostics == of_open.diagnostics.deep_view());
}

/// A document is read from its stored parse, or else from what the editor holds of it, or else
/// from what was indexed of it, where it is Kotlin within the limits of the parser.
pub proof fn documents_in_memory_are_read(indexer: &Indexer, uri: &str, r: Option<LiveDoc>)
    requires
        call_ensures(Indexer::live_doc_or_parse, (indexer, uri), r),
    ensures
        indexer.live_trees@.contains_key(uri@) ==> r is Some && r->0.bytes()
            == indexer.live_trees@[uri@].bytes() && r->0.nodes()
            == indexer.live_trees@[uri@].nodes(),
        !indexer.live_trees@.contains_key(uri@) && indexer.live_lines@.contains_key(uri@) ==> {
            let text = indexer.live_lines@[uri@]@;
            &&& r is Some <==> is_kotlin(uri@) && within_limits(text)
            &&& r is Some ==> r->0.bytes() == encode_utf8(text)
        },
        !indexer.live_trees@.contains_key(uri@) && !indexer.live_lines@.contains_key(uri@)
            && indexer.files@.contains_key(uri@) ==> {
            let text = indexer.files@[uri@].text@;
            &&& r is Some <==> is_kotlin(uri@) && within_limits(text)
            &&& r is Some ==> r->0.bytes() == encode_utf8(text)
        },
        !indexer.live_trees@.contains_key(uri@) && !indexer.live_lines@.contains_key(uri@)
            && !indexer.files@.contains_key(uri@) ==> r is None,
{
    documents_are_read_from_the_newest_source(*indexer, uri@, optional_model(r));
}

/// Once the workspace is indexed, exactly the open documents that are parsed and have a valid
/// address are reported again.
pub proof fn open_documents_are_reported_again(indexer: &Indexer, r: Vec<String>, uri: Seq<char>)
    requires
        indexer.wf(),
        call_ensures(documents_to_republish, (indexer,), r),
    ensures
        r.deep_view().contains(uri) <==> exists|key: Seq<char>| #[trigger]
            indexer.live_trees@.contains_key(key) && normal_url(key) == Some(uri),
{
    every_open_document_is_reported_again(*indexer, uri);
}

}
