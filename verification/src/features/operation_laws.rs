//! What the operations on multiplatform declarations give back, stated over what they are given.

use crate::features::code_lens::{
    code_lens, code_lenses, compute_code_lens, mark_of_name, navigate_lens, resolve_counterparts,
    symbol_has_modifier, DeclCache, Reading,
};
use crate::features::declaration_laws::{
    is_first_mark_of, is_modifier_of, marked_declarations_stand_in_order, reads, reads_a_mark,
    the_first_word_among_the_modifiers_marks,
};
use crate::features::declarations::{
    check_modifier, detect_expect_actual, marked_at, marked_decls, MarkedDecl, MarkedDeclModel,
};
use crate::features::kmp_expect_diagnostics::{
    active_sets, detect_active_sets, expect_warnings, kmp_expect_diagnostics, missing_actual,
    set_of_entry, SourceDirEntry,
};
use crate::features::laws::{a_declared_name_has_one_mark, active_sets_are_those_of_the_entries};
use crate::features::navigation_laws::{
    actual_leads_to_the_common_one_and_to_other_platforms, documents_declare_what_they_say,
    every_definition_that_goes_with_a_declaration_has_a_lens, expect_leads_to_every_actual,
    lenses_at_declaration, lenses_follow_the_declarations,
};
use crate::features::source_set::{
    classify_source_set, classify_source_set_name, is_first_set_directory, is_known_platform,
    label_of, platforms_are_told_by_how_a_name_begins, set_of_name, set_of_uri,
    the_first_set_directory_decides,
};
use crate::features::warning_laws::{
    a_source_directory_stands_for_the_set_of_its_files, directories_with_sources_stand_for_sets,
    every_platform_without_an_actual_is_warned_about, is_actual_elsewhere, is_source_directory,
    no_platform_with_an_actual_is_warned_about, said_to_miss,
};
use crate::indexer::{is_kotlin, Indexer};
use crate::laws::comes_first;
use crate::protocol::{CodeLens, Diagnostic, DiagnosticModel, Location, LocationModel};
use crate::syntax::{doc_model, LiveDoc};
use crate::text::pieces;
use vstd::prelude::*;

verus! {

/// The mark that is found of a declaration is that of the first of its modifiers, wherever that
/// stands among them, which covers `expect` or `actual`. There is none where none of them does.
pub proof fn a_mark_is_found_wherever_it_stands(doc: &LiveDoc, decl: usize, r: Option<bool>)
    requires
        doc.wf(),
        decl < doc.nodes().len(),
        call_ensures(check_modifier, (doc, decl), r),
    ensures
        r is Some <==> exists|node: int| #[trigger]
            is_modifier_of(doc.nodes(), decl as int, node) && reads_a_mark(
                doc.bytes(),
                doc.nodes()[node],
            ),
        forall|node: int| #[trigger]
            is_first_mark_of(doc.bytes(), doc.nodes(), decl as int, node) ==> r == Some(
                reads(doc.bytes(), doc.nodes()[node], "expect"@),
            ),
{
    doc.lemma_document_tree();
    the_first_word_among_the_modifiers_marks(doc.bytes(), doc.nodes(), decl as int);
}

/// The declarations that are found in a document are what its marked nodes declare, each once, an
/// outer one before those inside it and of those beside each other the later one first.
pub proof fn all_marked_declarations_are_found_in_order(doc: &LiveDoc, r: Vec<MarkedDecl>) -> (at:
    Seq<int>)
    requires
        doc.wf(),
        call_ensures(detect_expect_actual, (doc,), r),
    ensures
        at.len() == r@.len(),
        at.no_duplicates(),
        forall|i: int|
            0 <= i < at.len() ==> 0 <= #[trigger] at[i] < doc.nodes().len() && marked_at(
                doc.bytes(),
                doc.nodes(),
                at[i],
            ) == Some((r@[i].0@, r@[i].1, r@[i].2)),
        forall|node: int|
            0 <= node < doc.nodes().len() && #[trigger] marked_at(doc.bytes(), doc.nodes(), node)
                is Some ==> at.contains(node),
        forall|i: int, j: int|
            0 <= i < j < at.len() ==> comes_first(doc.nodes(), #[trigger] at[i], #[trigger] at[j]),
{
    doc.lemma_document_tree();
    let at = marked_declarations_stand_in_order(doc_model(*doc));
    assert forall|i: int| 0 <= i < at.len() implies 0 <= #[trigger] at[i] < doc.nodes().len()
        && marked_at(doc.bytes(), doc.nodes(), at[i]) == Some(
        (r@[i].0@, r@[i].1, r@[i].2),
    ) by {
        assert(r.deep_view()[i] == r@[i].deep_view());
    }
    at
}

/// A directory that begins with the name of a platform is taken for that platform, and a document
/// for that of the first directory in its address which ends in `Main` or `Test`.
pub proof fn documents_belong_to_the_set_of_their_directory(
    name: &str,
    platform: Seq<char>,
    set: String,
    uri: &str,
    i: int,
    found: Option<String>,
)
    requires
        call_ensures(classify_source_set_name, (name,), set),
        is_known_platform(platform),
        platform.is_prefix_of(name@),
        call_ensures(classify_source_set, (uri,), found),
        is_first_set_directory(uri@, i),
        pieces(uri@, '/')[i] == name@,
    ensures
        set@ == platform,
        found is Some && found->0@ == platform,
{
    platforms_are_told_by_how_a_name_begins(name@, platform);
    the_first_set_directory_decides(uri@, i);
    assert(found.deep_view() == Some(platform));
}

/// A name has the wanted mark in a document whose declarations are known exactly where the first
/// of them with that name has it.
pub proof fn a_name_is_marked_as_its_first_declaration(
    indexer: &Indexer,
    uri: &str,
    name: &str,
    must_be_actual: bool,
    cache: &mut DeclCache,
    i: int,
    r: bool,
)
    requires
        call_ensures(symbol_has_modifier, (indexer, uri, name, must_be_actual, cache), r),
        old(cache)@.contains_key(uri@),
        0 <= i < old(cache)@[uri@]@.len(),
        old(cache)@[uri@]@[i].0@ == name@,
        forall|j: int| 0 <= j < i ==> (#[trigger] old(cache)@[uri@]@[j]).0@ != name@,
    ensures
        r == (old(cache)@[uri@]@[i].2 != must_be_actual),
{
    let list = old(cache)@[uri@];
    let decls = list.deep_view();
    a_declared_name_has_one_mark(decls, name@);
    assert(decls[i] == list@[i].deep_view());
    assert(decls[i].0 == name@);
    let is_expect = mark_of_name(decls, name@)->0;
    let k = choose|k: int|
        0 <= k < decls.len() && (#[trigger] decls[k]).0 == name@ && decls[k].2 == is_expect
            && forall|j: int| 0 <= j < k ==> (#[trigger] decls[j]).0 != name@;
    if k < i {
        assert(decls[k] == list@[k].deep_view());
        assert(list@[k].0@ != name@);
    } else if i < k {
        assert(decls[i].0 != name@);
    }
}

/// The marked declarations of a document whose parse is stored.
pub open spec fn stored_decls(indexer: Indexer, uri: Seq<char>) -> Seq<MarkedDeclModel> {
    marked_decls(indexer.live_trees@[uri].bytes(), indexer.live_trees@[uri].nodes())
}

/// In an indexed workspace with stored parses, the lenses of a document lead from each of its
/// declarations to every definition of the name in another file of the package and another source
/// set: to every `actual` one of a platform, and from an `actual` one also to the `expect` one of
/// the common source set.
pub proof fn lenses_lead_to_all_other_source_sets(
    indexer: &Indexer,
    uri: &str,
    r: Vec<CodeLens>,
    package: Seq<char>,
    decl: MarkedDeclModel,
    location: LocationModel,
)
    requires
        call_ensures(compute_code_lens, (indexer, uri), r),
        indexer.live_trees@.contains_key(uri@),
        indexer.live_trees@.contains_key(location.uri),
        stored_decls(*indexer, uri@).contains(decl),
        indexer.package_of(uri@) == Some(package),
        indexer.locations_of(decl.0).contains(location),
        location.uri != uri@,
        indexer.package_of(location.uri) == Some(package),
        set_of_uri(location.uri) is Some,
        set_of_uri(location.uri) != set_of_uri(uri@),
        mark_of_name(stored_decls(*indexer, location.uri), decl.0) == Some(
            !decl.2 && set_of_uri(location.uri) == Some("common"@),
        ),
    ensures
        r.deep_view().contains(
            navigate_lens(decl.1, label_of(set_of_uri(location.uri)->0), location),
        ),
{
    let reading = choose|reading: Reading| #[trigger]
        reading.is_possible(*indexer) && r.deep_view()
            == code_lenses(reading, uri@);
    documents_declare_what_they_say(reading, *indexer, uri@);
    documents_declare_what_they_say(reading, *indexer, location.uri);
    every_definition_that_goes_with_a_declaration_has_a_lens(
        reading,
        uri@,
        package,
        decl,
        location,
    );
}

/// The lenses of a document are those of its declarations one after the other, and at each one for
/// every definition that goes with it, under a possible reading of the documents. Only Kotlin
/// documents have lenses.
pub proof fn no_other_lenses_are_given(indexer: &Indexer, uri: &str, r: Option<Vec<CodeLens>>)
    requires
        call_ensures(code_lens, (indexer, uri), r),
    ensures
        r is Some <==> is_kotlin(uri@),
        r is Some ==> exists|reading: Reading| #[trigger]
            reading.is_possible(*indexer) && r->0.deep_view() == (reading.decls)(uri@).map_values(
                |decl: MarkedDeclModel| lenses_at_declaration(reading, uri@, decl),
            ).flatten(),
{
    if r is Some {
        let reading = choose|reading: Reading| #[trigger]
            reading.is_possible(*indexer) && r->0.deep_view()
                == code_lenses(reading, uri@);
        lenses_follow_the_declarations(reading, uri@);
        assert(reading.is_possible(*indexer));
        let decls = (reading.decls)(uri@);
        assert(r->0.deep_view() =~= decls.map_values(
            |decl: MarkedDeclModel| lenses_at_declaration(reading, uri@, decl),
        ).flatten());
    }
}

/// The active source sets are those of the source directories, each once: of every directory with
/// sources that ends in `Main` or `Test` the set which the files in it belong to, and no other.
pub proof fn active_sets_are_those_of_the_source_directories(
    entries: &Vec<SourceDirEntry>,
    r: Vec<String>,
    set: Seq<char>,
)
    requires
        call_ensures(detect_active_sets, (entries,), r),
    ensures
        r.deep_view().no_duplicates(),
        r.deep_view().contains(set) <==> exists|i: int, name: Seq<char>|
            0 <= i < entries@.len() && #[trigger] is_source_directory(
                entries@[i].deep_view(),
                name,
            ) && ("Main"@.is_suffix_of(name) || "Test"@.is_suffix_of(name)) && set == set_of_name(
                name,
            ),
{
    let all = entries.deep_view();
    active_sets_are_those_of_the_entries(all, set);
    if r.deep_view().contains(set) {
        let i = choose|i: int|
            0 <= i < all.len() && set_of_entry(
                #[trigger] all[i],
            ) == Some(set);
        assert(all[i] == entries@[i].deep_view());
        directories_with_sources_stand_for_sets(all[i]);
        let name = all[i].name->0;
        assert(is_source_directory(entries@[i].deep_view(), name));
    }
    if exists|i: int, name: Seq<char>|
        0 <= i < entries@.len() && #[trigger] is_source_directory(entries@[i].deep_view(), name)
            && ("Main"@.is_suffix_of(name) || "Test"@.is_suffix_of(name)) && set == set_of_name(
            name,
        ) {
        let (i, name) = choose|i: int, name: Seq<char>|
            0 <= i < entries@.len() && #[trigger] is_source_directory(
                entries@[i].deep_view(),
                name,
            ) && ("Main"@.is_suffix_of(name) || "Test"@.is_suffix_of(name)) && set == set_of_name(
                name,
            );
        assert(all[i] == entries@[i].deep_view());
        directories_with_sources_stand_for_sets(all[i]);
        assert(set_of_entry(all[i]) == Some(set));
    }
}

/// Whether a stored document is an `actual` declaration of a name in a package.
pub open spec fn is_stored_actual(
    indexer: Indexer,
    package: Seq<char>,
    name: Seq<char>,
    location: LocationModel,
) -> bool {
    &&& indexer.locations_of(name).contains(location)
    &&& indexer.live_trees@.contains_key(location.uri)
    &&& indexer.package_of(location.uri) == Some(package)
    &&& mark_of_name(stored_decls(indexer, location.uri), name) == Some(false)
}

/// A packaged document of the common source set gets a warning for each of its `expect`
/// declarations and each source directory other than a common one, where all definitions of the
/// name have stored parses and none of them in that directory's set is an `actual` one of the
/// package.
pub proof fn every_missing_implementation_is_warned_about(
    indexer: &Indexer,
    uri: &str,
    doc: &LiveDoc,
    source_dir: &Vec<SourceDirEntry>,
    r: Vec<Diagnostic>,
    package: Seq<char>,
    decl: MarkedDeclModel,
    i: int,
    name: Seq<char>,
)
    requires
        call_ensures(kmp_expect_diagnostics, (indexer, uri, doc, source_dir), r),
        indexer.package_of(uri@) == Some(package),
        set_of_uri(uri@) == Some("common"@),
        marked_decls(doc.bytes(), doc.nodes()).contains(decl),
        decl.2,
        0 <= i < source_dir@.len(),
        is_source_directory(source_dir@[i].deep_view(), name),
        "Main"@.is_suffix_of(name) || "Test"@.is_suffix_of(name),
        set_of_name(name) != "common"@,
        forall|location: LocationModel| #[trigger]
            indexer.locations_of(decl.0).contains(location) ==> indexer.live_trees@.contains_key(
                location.uri,
            ),
        forall|location: LocationModel| #[trigger]
            is_stored_actual(*indexer, package, decl.0, location) ==> set_of_uri(location.uri)
                != Some(set_of_name(name)),
    ensures
        r.deep_view().contains(missing_actual(decl.1, decl.0, set_of_name(name))),
{
    let entries = source_dir.deep_view();
    let reading = choose|reading: Reading| #[trigger]
        reading.is_possible(*indexer) && r.deep_view()
            == expect_warnings(
            reading,
            uri@,
            doc_model(*doc),
            active_sets(entries),
        );
    assert(entries[i] == source_dir@[i].deep_view());
    assert forall|location: LocationModel| #[trigger]
        is_actual_elsewhere(
            reading,
            uri@,
            package,
            decl.0,
            location,
        ) implies set_of_uri(location.uri) != Some(set_of_name(name)) by {
        documents_declare_what_they_say(reading, *indexer, location.uri);
        assert(is_stored_actual(*indexer, package, decl.0, location));
    }
    every_platform_without_an_actual_is_warned_about(
        reading,
        uri@,
        package,
        doc_model(*doc),
        entries,
        decl,
        i,
        name,
    );
}

/// No warning says that a source directory lacks a name where a stored document in it is an
/// `actual` declaration of the name in the package.
pub proof fn no_implementation_is_said_to_be_missing(
    indexer: &Indexer,
    uri: &str,
    doc: &LiveDoc,
    source_dir: &Vec<SourceDirEntry>,
    r: Vec<Diagnostic>,
    package: Seq<char>,
    name: Seq<char>,
    i: int,
    location: LocationModel,
    k: int,
    warning: DiagnosticModel,
)
    requires
        call_ensures(kmp_expect_diagnostics, (indexer, uri, doc, source_dir), r),
        indexer.package_of(uri@) == Some(package),
        is_stored_actual(*indexer, package, name, location),
        location.uri != uri@,
        is_first_set_directory(location.uri, k),
        0 <= i < source_dir@.len(),
        is_source_directory(source_dir@[i].deep_view(), pieces(location.uri, '/')[k]),
        r.deep_view().contains(warning),
    ensures
        set_of_uri(location.uri) is Some,
        warning.data != Some(said_to_miss(name, set_of_uri(location.uri)->0)),
{
    let entries = source_dir.deep_view();
    let reading = choose|reading: Reading| #[trigger]
        reading.is_possible(*indexer) && r.deep_view()
            == expect_warnings(
            reading,
            uri@,
            doc_model(*doc),
            active_sets(entries),
        );
    assert(entries[i] == source_dir@[i].deep_view());
    documents_declare_what_they_say(reading, *indexer, location.uri);
    a_source_directory_stands_for_the_set_of_its_files(
        entries[i],
        location.uri,
        k,
    );
    no_platform_with_an_actual_is_warned_about(
        reading,
        uri@,
        package,
        doc_model(*doc),
        entries,
        name,
        i,
        location,
        k,
        warning,
    );
}

/// The counterparts of a packaged declaration include every definition of its name in another file
/// of the package and another source set that is known to be marked so: as `actual`, or as
/// `expect` where it is one of the common source set and the declaration is an `actual` one.
pub proof fn every_matching_definition_is_a_counterpart(
    indexer: &Indexer,
    name: &str,
    package: &str,
    uri: &str,
    is_expect: bool,
    cache: &mut DeclCache,
    location: LocationModel,
    r: Vec<(String, Location)>,
)
    requires
        call_ensures(
            resolve_counterparts,
            (indexer, name, Some(package), uri, is_expect, cache),
            r,
        ),
        indexer.locations_of(name@).contains(location),
        location.uri != uri@,
        indexer.package_of(location.uri) == Some(package@),
        set_of_uri(location.uri) is Some,
        set_of_uri(location.uri) != set_of_uri(uri@),
        final(cache)@.contains_key(location.uri),
        mark_of_name(final(cache)@[location.uri].deep_view(), name@) == Some(
            !is_expect && set_of_uri(location.uri) == Some("common"@),
        ),
    ensures
        r.deep_view().contains((label_of(set_of_uri(location.uri)->0), location)),
{
    let known = final(cache)@;
    let reading = Reading {
        indexer: *indexer,
        decls: |other: Seq<char>| known[other].deep_view(),
    };
    assert(reading.agrees(*indexer, *final(cache)));
    if is_expect {
        expect_leads_to_every_actual(reading, name@, package@, uri@, location);
    } else {
        actual_leads_to_the_common_one_and_to_other_platforms(
            reading,
            name@,
            package@,
            uri@,
            location,
        );
    }
}

}
