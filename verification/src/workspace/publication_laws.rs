//! What holds of what is published about a document, and of the tasks behind it.

use crate::features::code_lens::Reading;
use crate::features::declarations::{marked_decls, MarkedDeclModel};
use crate::features::kmp_expect_diagnostics::{
    active_sets, expect_warnings, missing_actual, set_of_entry, SourceDirEntryModel,
};
use crate::features::laws::{
    active_sets_are_those_of_the_entries, rightly_warns, warnings_are_the_missing_implementations,
};
use crate::features::source_set::set_of_uri;
use crate::features::warning_laws::{is_missing_in, sets_implement_by_actual_declarations};
use crate::indexer::{
    holds_parse_of, is_kotlin, is_parsed, may_be_parsed, took_in, Indexer,
};
use crate::protocol::DiagnosticModel;
use crate::syntax::{within_limits, DocModel, LiveDoc};
use crate::workspace::diagnostics::{
    first_list, full_list, may_warn, warnings_come_on_top, FindingsModel,
};
use crate::workspace::directories::{entries_of, DirectoryLevel};
use crate::workspace::document_handler::addresses_among;
use crate::workspace::file_change_handler::{
    edited, followed, next_generation, pending_of, without_finished, without_package,
    FileChangeHandler, ReindexTask,
};
use vstd::prelude::*;
use vstd::utf8::encode_utf8;

verus! {

/// Whether a warning says that a source directory lacks an `actual` declaration for one of the
/// `expect` declarations of a document, and it does.
pub open spec fn is_lacking(
    reading: Reading,
    uri: Seq<char>,
    package: Seq<char>,
    decl: MarkedDeclModel,
    entry: SourceDirEntryModel,
    warning: DiagnosticModel,
) -> bool {
    &&& decl.2
    &&& set_of_entry(entry) matches Some(set)
    &&& is_missing_in(reading, uri, package, decl.0, set)
    &&& warning == missing_actual(decl.1, decl.0, set)
}

/// Whether a document lacks what a warning says, for one of its declarations and one of the
/// source directories.
pub open spec fn lacks(
    reading: Reading,
    uri: Seq<char>,
    package: Seq<char>,
    doc: DocModel,
    source_dir: Seq<SourceDirEntryModel>,
    warning: DiagnosticModel,
) -> bool {
    exists|decl: MarkedDeclModel, entry: SourceDirEntryModel|
        marked_decls(doc.bytes, doc.nodes).contains(decl) && source_dir.contains(entry)
            && #[trigger] is_lacking(reading, uri, package, decl, entry, warning)
}

proof fn lemma_warnings_are_what_is_lacking(
    reading: Reading,
    uri: Seq<char>,
    package: Seq<char>,
    doc: DocModel,
    source_dir: Seq<SourceDirEntryModel>,
    warning: DiagnosticModel,
)
    requires
        reading.indexer.package_of(uri) == Some(package),
        set_of_uri(uri) == Some("common"@),
    ensures
        expect_warnings(reading, uri, doc, active_sets(source_dir)).contains(warning) <==> lacks(
            reading,
            uri,
            package,
            doc,
            source_dir,
            warning,
        ),
{
    let sets = active_sets(source_dir);
    let warnings = expect_warnings(reading, uri, doc, sets);
    warnings_are_the_missing_implementations(reading, uri, package, doc, sets, warning);
    if warnings.contains(warning) {
        let (decl, set) = choose|decl: MarkedDeclModel, set: Seq<char>|
            marked_decls(doc.bytes, doc.nodes).contains(decl) && sets.contains(set)
                && #[trigger] rightly_warns(reading, uri, package, decl, set, warning);
        active_sets_are_those_of_the_entries(source_dir, set);
        sets_implement_by_actual_declarations(reading, uri, package, decl.0, set);
        let i = choose|i: int|
            0 <= i < source_dir.len() && set_of_entry(#[trigger] source_dir[i]) == Some(set);
        assert(source_dir.contains(source_dir[i]));
        assert(is_lacking(reading, uri, package, decl, source_dir[i], warning));
    }
    if lacks(reading, uri, package, doc, source_dir, warning) {
        let (decl, entry) = choose|decl: MarkedDeclModel, entry: SourceDirEntryModel|
            marked_decls(doc.bytes, doc.nodes).contains(decl) && source_dir.contains(entry)
                && #[trigger] is_lacking(reading, uri, package, decl, entry, warning);
        let set = set_of_entry(entry)->0;
        let i = choose|i: int| 0 <= i < source_dir.len() && source_dir[i] == entry;
        assert(set_of_entry(source_dir[i]) == Some(set));
        active_sets_are_those_of_the_entries(source_dir, set);
        sets_implement_by_actual_declarations(reading, uri, package, decl.0, set);
        assert(rightly_warns(reading, uri, package, decl, set, warning));
    }
}

/// Whether a list of warnings, or that there is none, tells all that a document lacks and nothing
/// else.
pub open spec fn tells_all(
    reading: Reading,
    uri: Seq<char>,
    package: Seq<char>,
    doc: DocModel,
    source_dir: Seq<SourceDirEntryModel>,
    warnings: Option<Seq<DiagnosticModel>>,
) -> bool {
    forall|warning: DiagnosticModel| #[trigger]
        lacks(reading, uri, package, doc, source_dir, warning) <==> (warnings matches Some(list)
            && list.contains(warning))
}

/// What a packaged document of the common source set is reported to lack is all that it lacks:
/// every source directory without an `actual` declaration for each of its `expect` declarations.
/// Where it lacks nothing, nothing is reported.
pub proof fn a_document_is_told_all_that_it_lacks(
    indexer: Indexer,
    uri: Seq<char>,
    package: Seq<char>,
    doc: DocModel,
    source_dir: Seq<SourceDirEntryModel>,
    warnings: Option<Seq<DiagnosticModel>>,
)
    requires
        may_warn(indexer, uri, Some(doc), source_dir, warnings),
        indexer.package_of(uri) == Some(package),
        set_of_uri(uri) == Some("common"@),
    ensures
        exists|reading: Reading| #[trigger]
            reading.is_possible(indexer) && tells_all(
                reading,
                uri,
                package,
                doc,
                source_dir,
                warnings,
            ),
        warnings matches Some(list) ==> list.len() > 0,
{
    let reading = choose|reading: Reading| #[trigger]
        reading.is_possible(indexer) && may_warn_in(
            reading,
            uri,
            doc,
            source_dir,
            warnings,
        );
    assert(reading.is_possible(indexer) && may_warn_in(reading, uri, doc, source_dir, warnings));
    assert forall|warning: DiagnosticModel| #[trigger]
        lacks(reading, uri, package, doc, source_dir, warning) <==> (warnings matches Some(list)
            && list.contains(warning)) by {
        lemma_warnings_are_what_is_lacking(reading, uri, package, doc, source_dir, warning);
    }
    assert(tells_all(reading, uri, package, doc, source_dir, warnings));
}

/// Whether a list of warnings is the full one, or there is none to list.
spec fn may_warn_in(
    reading: Reading,
    uri: Seq<char>,
    doc: DocModel,
    source_dir: Seq<SourceDirEntryModel>,
    warnings: Option<Seq<DiagnosticModel>>,
) -> bool {
    let all = expect_warnings(reading, uri, doc, active_sets(source_dir));
    match warnings {
        Some(list) => list.len() > 0 && list == all,
        None => all.len() == 0,
    }
}

/// Each missing implementation is told as often as a document lacks it, and in the same order:
/// what is reported is the whole list of warnings. Where there is no list, there is nothing in it.
pub proof fn the_whole_list_of_warnings_is_reported(
    indexer: Indexer,
    uri: Seq<char>,
    doc: Option<DocModel>,
    source_dir: Seq<SourceDirEntryModel>,
    warnings: Option<Seq<DiagnosticModel>>,
)
    requires
        may_warn(indexer, uri, doc, source_dir, warnings),
    ensures
        doc is None ==> warnings is None,
        set_of_uri(uri) != Some("common"@) || indexer.package_of(uri) is None ==> warnings is None,
        doc is Some ==> exists|reading: Reading| #[trigger]
            reading.is_possible(indexer) && (match warnings {
                Some(list) => list == expect_warnings(
                    reading,
                    uri,
                    doc->0,
                    active_sets(source_dir),
                ),
                None => expect_warnings(reading, uri, doc->0, active_sets(source_dir)).len() == 0,
            }),
{
}

/// Every warning that a document is to get is published with the rest of what was found.
pub proof fn every_missing_implementation_is_published(
    reading: Reading,
    uri: Seq<char>,
    package: Seq<char>,
    doc: DocModel,
    source_dir: Seq<SourceDirEntryModel>,
    warnings: Seq<DiagnosticModel>,
    findings: FindingsModel,
    is_parsed: bool,
    warning: DiagnosticModel,
)
    requires
        tells_all(reading, uri, package, doc, source_dir, Some(warnings)),
        lacks(reading, uri, package, doc, source_dir, warning),
    ensures
        full_list(findings, is_parsed, warnings).contains(warning),
{
    warnings_come_on_top(findings, false, is_parsed, warnings, warning);
}

/// The diagnostic that the package is not declared, where there is one, as a list.
pub open spec fn as_list(diagnostic: Option<DiagnosticModel>) -> Seq<DiagnosticModel> {
    match diagnostic {
        Some(diagnostic) => seq![diagnostic],
        None => seq![],
    }
}

/// What is published of a document comes in a fixed order: its syntax errors, what is wrong with
/// `when` expressions and, where it is parsed, with the arguments of calls, the warnings, and
/// last its package. While the workspace is being indexed only the syntax errors and the package
/// are published.
pub proof fn what_is_found_is_published_in_order(
    findings: FindingsModel,
    errors: Seq<DiagnosticModel>,
    warnings: Seq<DiagnosticModel>,
)
    requires
        if findings.fresh_syntax is Some {
            errors == findings.fresh_syntax->0
        } else if findings.stored_syntax is Some {
            errors == findings.stored_syntax->0
        } else {
            errors.len() == 0
        },
    ensures
        first_list(findings, true, true) == errors + as_list(findings.package),
        first_list(findings, true, false) == errors + as_list(findings.package),
        first_list(findings, false, true) == errors + findings.branches + findings.call_arguments
            + as_list(findings.package),
        first_list(findings, false, false) == errors + findings.branches + as_list(
            findings.package,
        ),
        full_list(findings, true, warnings) == errors + findings.branches + findings.call_arguments
            + warnings + as_list(findings.package),
        full_list(findings, false, warnings) == errors + findings.branches + warnings + as_list(
            findings.package,
        ),
{
    assert(errors =~= findings.syntax());
    assert(as_list(findings.package) =~= findings.package_list());
    assert(first_list(findings, false, true) =~= errors + findings.branches
        + findings.call_arguments + as_list(findings.package));
    assert(full_list(findings, true, warnings) =~= errors + findings.branches
        + findings.call_arguments + warnings + as_list(findings.package));
}

/// A task that indexes an edit looks at all that is found but the package.
pub proof fn tasks_leave_the_package_out(findings: FindingsModel)
    ensures
        without_package(findings).package is None,
        without_package(findings).fresh_syntax == findings.fresh_syntax,
        without_package(findings).stored_syntax == findings.stored_syntax,
        without_package(findings).branches == findings.branches,
        without_package(findings).call_arguments == findings.call_arguments,
{
}

proof fn lemma_addresses_in_order(
    parsed_keys: Seq<Option<Seq<char>>>,
    pred: spec_fn(Option<Seq<char>>) -> bool,
    address: spec_fn(Option<Seq<char>>) -> Seq<char>,
)
    requires
        forall|key: Option<Seq<char>>| #[trigger] pred(key) == (key is Some),
        forall|key: Option<Seq<char>>| #[trigger] address(key) == key->0,
    ensures
        addresses_among(parsed_keys) == parsed_keys.filter(pred).map_values(address),
    decreases parsed_keys.len(),
{
    reveal(Seq::filter);
    let wanted = parsed_keys.filter(pred).map_values(address);
    if parsed_keys.len() > 0 {
        let rest = parsed_keys.drop_last();
        let last = parsed_keys.last();
        lemma_addresses_in_order(rest, pred, address);
        assert(pred(last) == (last is Some));
        if pred(last) {
            assert(wanted =~= rest.filter(pred).map_values(address).push(address(last)));
        }
    }
    assert(addresses_among(parsed_keys) =~= wanted);
}

/// The open documents that are reported again are those with a valid address, in their order.
pub proof fn valid_addresses_keep_their_order(parsed_keys: Seq<Option<Seq<char>>>)
    ensures
        addresses_among(parsed_keys) == parsed_keys.filter(
            |key: Option<Seq<char>>| key is Some,
        ).map_values(|key: Option<Seq<char>>| key->0),
{
    lemma_addresses_in_order(
        parsed_keys,
        |key: Option<Seq<char>>| key is Some,
        |key: Option<Seq<char>>| key->0,
    );
}

/// The entries that a root is looked for in are those of the directories above the file.
pub proof fn entries_are_those_of_the_directories<P>(levels: Seq<DirectoryLevel<P>>, i: int)
    requires
        0 <= i < levels.len(),
    ensures
        entries_of(levels).len() == levels.len(),
        entries_of(levels)[i].len() == levels[i].entries@.len(),
        forall|k: int|
            0 <= k < levels[i].entries@.len() ==> #[trigger] entries_of(levels)[i][k]
                == levels[i].entries@[k]@,
{
}

/// A task stays pending exactly as long as it is not finished.
pub proof fn finished_tasks_are_no_longer_pending(
    pending: Map<Seq<char>, u64>,
    finished: Seq<u64>,
    uri: Seq<char>,
    task: u64,
)
    ensures
        pending_of(pending, uri) == Some(task) <==> pending.contains_key(uri) && pending[uri]
            == task,
        pending_of(pending, uri) is None <==> !pending.contains_key(uri),
        pending_of(without_finished(pending, finished), uri) == Some(task) <==> pending.contains_key(
            uri,
        ) && pending[uri] == task && !finished.contains(task),
{
}

/// An edit moves the generation of its document on by one, to one where it had none, and leaves
/// the generations of all other documents.
pub proof fn an_edit_moves_the_generation_on(
    before: FileChangeHandler,
    uri: Seq<char>,
    counter: usize,
    after: FileChangeHandler,
    other: Seq<char>,
)
    requires
        before.wf(),
        edited(before, uri, counter, after),
    ensures
        before.generation_of(uri) is None ==> after.generation_of(uri) == Some(1u64),
        before.generation_of(uri) is Some && before.generation_of(uri)->0 < u64::MAX
            ==> after.generation_of(uri) is Some && after.generation_of(uri)->0
            == before.generation_of(uri)->0 + 1,
        before.generation_of(uri) == Some(u64::MAX) ==> after.generation_of(uri) == Some(0u64),
        other != uri ==> after.generation_of(other) == before.generation_of(other),
{
    if other != uri && before.diagnostic_generation@.contains_key(other) {
        assert(before.diagnostic_generation@[other] < before.counters@.len());
        if before.diagnostic_generation@.contains_key(uri) {
            assert(before.diagnostic_generation@[other] != before.diagnostic_generation@[uri]);
        }
    }
}

/// To start a task without an edit leaves all generations, and gives a document that had none the
/// generation zero.
pub proof fn a_task_alone_moves_no_generation(
    before: FileChangeHandler,
    uri: Seq<char>,
    counter: usize,
    after: FileChangeHandler,
    other: Seq<char>,
)
    requires
        before.wf(),
        followed(before, uri, counter, after),
    ensures
        before.generation_of(uri) is None ==> after.generation_of(uri) == Some(0u64),
        before.generation_of(uri) is Some ==> after.generation_of(uri) == before.generation_of(uri),
        other != uri ==> after.generation_of(other) == before.generation_of(other),
{
    if before.diagnostic_generation@.contains_key(uri) {
        assert(before.diagnostic_generation@[uri] < before.counters@.len());
    }
    if other != uri && before.diagnostic_generation@.contains_key(other) {
        assert(before.diagnostic_generation@[other] < before.counters@.len());
    }
}

/// A task is current exactly as long as the counter that it looks at holds the generation that
/// it was started with.
pub proof fn a_task_is_current_until_its_counter_moves(
    handler: FileChangeHandler,
    task: ReindexTask,
)
    ensures
        handler.knows(task) <==> task.counter < handler.counters@.len(),
        handler.current(task) <==> handler.counters@[task.counter as int] == task.generation,
        task.generation < u64::MAX ==> next_generation(task.generation) == task.generation + 1,
        next_generation(u64::MAX) == 0,
{
}

/// A document that is parsed is Kotlin within the limits of the parser, every such document is,
/// and its parse is one of the bytes of its text.
pub proof fn kotlin_within_the_limits_is_parsed(
    uri: Seq<char>,
    text: Seq<char>,
    doc: Option<DocModel>,
)
    requires
        may_be_parsed(uri, text, doc),
    ensures
        doc is Some <==> is_kotlin(uri) && within_limits(text),
        is_parsed(uri, text) <==> is_kotlin(uri) && within_limits(text),
        doc is Some ==> doc->0.bytes == encode_utf8(text),
{
}

/// The parse of a document takes the place of the one before, and the parses of all others stay.
/// Where there is none, the one before stays too.
pub proof fn a_parse_takes_the_place_of_the_one_before(
    before: Map<Seq<char>, LiveDoc>,
    uri: Seq<char>,
    doc: Option<DocModel>,
    after: Map<Seq<char>, LiveDoc>,
    other: Seq<char>,
    text: Seq<char>,
)
    requires
        took_in(before, uri, doc, after),
    ensures
        doc is None ==> after == before,
        doc is Some ==> after.contains_key(uri) && after[uri].bytes() == doc->0.bytes
            && after[uri].nodes() == doc->0.nodes,
        other != uri ==> (after.contains_key(other) <==> before.contains_key(other)),
        other != uri && before.contains_key(other) ==> after[other] == before[other],
        holds_parse_of(after, uri, text) ==> after.contains_key(uri) && after[uri].bytes()
            == encode_utf8(text),
{
    if doc is Some {
        assert(after.dom().contains(uri));
        assert(after.dom().contains(other) <==> before.dom().insert(uri).contains(other));
    }
}

}
