//! Warnings about `expect` declarations that a platform does not implement.

use crate::features::code_lens::{
    has_mark, lemma_possible_reading, read_more, symbol_has_modifier, DeclCache, Reading,
};
use crate::features::declarations::{detect_expect_actual, marked_decls, MarkedDeclModel};
use crate::features::source_set::{
    classify_source_set, classify_source_set_name, is_source_set_name, label_of, names_set,
    set_of_name, set_of_uri, target_label,
};
use crate::indexer::Indexer;
use crate::json::{JsonModel, JsonValue};
use crate::protocol::{
    Diagnostic, DiagnosticModel, DiagnosticSeverity, Location, LocationModel, Range,
};
use crate::sequences::lemma_push_contains;
use crate::string_map::StringMap;
use crate::syntax::{doc_model, DocModel, LiveDoc};
use crate::text::{contains_text, joined, same_text};
use vstd::prelude::*;

verus! {

/// An entry of the workspace's source directory.
#[derive(Debug, PartialEq, Eq)]
pub struct SourceDirEntry {
    /// The entry's name, where it is text.
    pub name: Option<String>,
    pub is_dir: bool,
    /// Whether a directory `kotlin` stands in it.
    pub has_kotlin: bool,
    /// Whether a directory `java` stands in it.
    pub has_java: bool,
}

/// What an entry of the source directory says.
pub struct SourceDirEntryModel {
    pub name: Option<Seq<char>>,
    pub is_dir: bool,
    pub has_kotlin: bool,
    pub has_java: bool,
}

impl DeepView for SourceDirEntry {
    type V = SourceDirEntryModel;

    open spec fn deep_view(&self) -> SourceDirEntryModel {
        SourceDirEntryModel {
            name: self.name.deep_view(),
            is_dir: self.is_dir,
            has_kotlin: self.has_kotlin,
            has_java: self.has_java,
        }
    }
}

/// The source set that an entry of the source directory stands for: a directory with the name
/// of a source set that holds sources.
pub open spec fn set_of_entry(entry: SourceDirEntryModel) -> Option<Seq<char>> {
    match entry.name {
        Some(name) if entry.is_dir && names_set(name) && (entry.has_kotlin || entry.has_java) => Some(
            set_of_name(name),
        ),
        _ => None,
    }
}

/// The source sets that the entries stand for, each once, in the order of the entries.
pub open spec fn active_sets(entries: Seq<SourceDirEntryModel>) -> Seq<Seq<char>>
    decreases entries.len(),
{
    if entries.len() == 0 {
        Seq::empty()
    } else {
        let before = active_sets(entries.drop_last());
        match set_of_entry(entries.last()) {
            Some(set) if !before.contains(set) => before.push(set),
            _ => before,
        }
    }
}

/// Whether a location implements a name declared in a common document, and for which set.
pub open spec fn implements(
    reading: Reading,
    uri: Seq<char>,
    package: Seq<char>,
    name: Seq<char>,
    set: Seq<char>,
    location: LocationModel,
) -> bool {
    &&& location.uri != uri
    &&& reading.package_of(location.uri) == Some(package)
    &&& set_of_uri(location.uri) == Some(set)
    &&& set != "common"@
    &&& has_mark(reading, location.uri, name, true)
}

/// Whether one of the locations implements a name for a source set.
pub open spec fn implemented_among(
    reading: Reading,
    uri: Seq<char>,
    package: Seq<char>,
    name: Seq<char>,
    set: Seq<char>,
    locations: Seq<LocationModel>,
) -> bool {
    exists|i: int|
        0 <= i < locations.len() && implements(
            reading,
            uri,
            package,
            name,
            set,
            #[trigger] locations[i],
        )
}

/// Whether a name declared in a common document has an `actual` declaration in a source set.
pub open spec fn is_implemented(
    reading: Reading,
    uri: Seq<char>,
    package: Seq<char>,
    name: Seq<char>,
    set: Seq<char>,
) -> bool {
    implemented_among(reading, uri, package, name, set, reading.locations_of(name))
}

/// The warning that a source set lacks an implementation of a name.
pub open spec fn missing_actual(range: Range, name: Seq<char>, set: Seq<char>) -> DiagnosticModel {
    DiagnosticModel {
        range,
        severity: Some(DiagnosticSeverity::Warning),
        source: Some("kotlin-lsp"@),
        message: "Missing 'actual' implementation for "@ + label_of(set),
        data: Some(
            JsonModel::Object(
                seq![("source_set"@, JsonModel::Str(set)), ("symbol"@, JsonModel::Str(name))],
            ),
        ),
    }
}

/// The warnings for one `expect` declaration over the listed source sets.
pub open spec fn warnings_over(
    reading: Reading,
    uri: Seq<char>,
    package: Seq<char>,
    name: Seq<char>,
    range: Range,
    sets: Seq<Seq<char>>,
) -> Seq<DiagnosticModel>
    decreases sets.len(),
{
    if sets.len() == 0 {
        Seq::empty()
    } else {
        let before = warnings_over(reading, uri, package, name, range, sets.drop_last());
        let set = sets.last();
        if set != "common"@ && !is_implemented(reading, uri, package, name, set) {
            before.push(missing_actual(range, name, set))
        } else {
            before
        }
    }
}

/// The warnings for the listed declarations, of which only the `expect` ones get any.
pub open spec fn warnings_among(
    reading: Reading,
    uri: Seq<char>,
    package: Seq<char>,
    sets: Seq<Seq<char>>,
    decls: Seq<MarkedDeclModel>,
) -> Seq<DiagnosticModel>
    decreases decls.len(),
{
    if decls.len() == 0 {
        Seq::empty()
    } else {
        let before = warnings_among(reading, uri, package, sets, decls.drop_last());
        let (name, range, is_expect) = decls.last();
        if is_expect {
            before + warnings_over(reading, uri, package, name, range, sets)
        } else {
            before
        }
    }
}

/// The warnings for a document, which only a packaged document of the common source set gets.
pub open spec fn expect_warnings(
    reading: Reading,
    uri: Seq<char>,
    doc: DocModel,
    sets: Seq<Seq<char>>,
) -> Seq<DiagnosticModel> {
    match reading.package_of(uri) {
        Some(package) if set_of_uri(uri) == Some("common"@) => warnings_among(
            reading,
            uri,
            package,
            sets,
            marked_decls(doc.bytes, doc.nodes),
        ),
        _ => Seq::empty(),
    }
}

/// The source sets that hold sources, each once, told from the entries of the workspace's
/// source directory.
pub fn detect_active_sets(entries: &Vec<SourceDirEntry>) -> (r: Vec<String>)
    ensures
        r.deep_view() == active_sets(entries.deep_view()),
        r.deep_view().no_duplicates(),
{
    let ghost all = entries.deep_view();
    let mut sets: Vec<String> = Vec::new();
    let mut i: usize = 0;
    assert(all.take(0) =~= Seq::<SourceDirEntryModel>::empty());
    assert(sets.deep_view() =~= Seq::<Seq<char>>::empty());
    while i < entries.len()
        invariant
            i <= entries@.len(),
            all == entries.deep_view(),
            sets.deep_view() == active_sets(all.take(i as int)),
            sets.deep_view().no_duplicates(),
        decreases entries.len() - i,
    {
        let entry = &entries[i];
        assert(all[i as int] == entry.deep_view());
        assert(all.take(i + 1).drop_last() =~= all.take(i as int));
        if entry.is_dir {
            if let Some(name) = &entry.name {
                if is_source_set_name(name) && (entry.has_kotlin || entry.has_java) {
                    let set = classify_source_set_name(name);
                    if !contains_text(&sets, &set) {
                        let ghost before = sets.deep_view();
                        sets.push(set);
                        assert(sets.deep_view() =~= before.push(set@));
                    }
                }
            }
        }
        i += 1;
    }
    assert(all.take(i as int) =~= all);
    sets
}

/// The source sets in which a name declared in a common document has an `actual` declaration.
fn find_implementing_sets(
    indexer: &Indexer,
    uri: &str,
    package: &str,
    name: &str,
    cache: &mut DeclCache,
) -> (r: Vec<String>)
    requires
        indexer.wf(),
        old(cache).wf(),
    ensures
        read_more(*indexer, *old(cache), *final(cache)),
        forall|reading: Reading, set: Seq<char>|
            #![trigger reading.agrees(*indexer, *final(cache)), r.deep_view().contains(set)]
            reading.agrees(*indexer, *final(cache)) ==> (r.deep_view().contains(set)
                <==> is_implemented(reading, uri@, package@, name@, set)),
{
    let locations = indexer.definition_locations(name);
    let ghost all = locations.deep_view();
    let mut found: Vec<String> = Vec::new();
    let mut i: usize = 0;
    while i < locations.len()
        invariant
            i <= locations@.len(),
            indexer.wf(),
            cache.wf(),
            read_more(*indexer, *old(cache), *cache),
            all == locations.deep_view(),
            forall|reading: Reading, set: Seq<char>|
                #![trigger reading.agrees(*indexer, *cache), found.deep_view().contains(set)]
                reading.agrees(*indexer, *cache) ==> (found.deep_view().contains(set)
                    <==> implemented_among(
                    reading,
                    uri@,
                    package@,
                    name@,
                    set,
                    all.take(i as int),
                )),
        decreases locations.len() - i,
    {
        let ghost before = found.deep_view();
        let ghost cache_before = *cache;
        let ghost location = all[i as int];
        assert(location == locations@[i as int].deep_view());
        let implemented = implementing_set(indexer, uri, package, name, &locations[i], cache);
        let ghost added = implemented.deep_view();
        if let Some(set) = implemented {
            found.push(set);
            assert(found.deep_view() =~= before.push(set@));
        }
        proof {
            assert forall|reading: Reading, set: Seq<char>|
                #![trigger reading.agrees(*indexer, *cache), found.deep_view().contains(set)]
                reading.agrees(*indexer, *cache) implies (found.deep_view().contains(set)
                <==> implemented_among(
                reading,
                uri@,
                package@,
                name@,
                set,
                all.take(i + 1),
            )) by {
                assert(reading.agrees(*indexer, cache_before));
                assert(before.contains(set) <==> implemented_among(
                    reading,
                    uri@,
                    package@,
                    name@,
                    set,
                    all.take(i as int),
                ));
                lemma_implemented_take(reading, uri@, package@, name@, set, all, i as int);
                assert(implements(reading, uri@, package@, name@, set, location) <==> added
                    == Some(set));
                if added is Some {
                    lemma_push_contains(before, added->0, set);
                }
            }
        }
        i += 1;
    }
    assert(all.take(i as int) =~= all);
    found
}

proof fn lemma_implemented_take(
    reading: Reading,
    uri: Seq<char>,
    package: Seq<char>,
    name: Seq<char>,
    set: Seq<char>,
    locations: Seq<LocationModel>,
    i: int,
)
    requires
        0 <= i < locations.len(),
    ensures
        implemented_among(reading, uri, package, name, set, locations.take(i + 1)) <==> (
        implemented_among(reading, uri, package, name, set, locations.take(i)) || implements(
            reading,
            uri,
            package,
            name,
            set,
            locations[i],
        )),
{
    let more = locations.take(i + 1);
    let less = locations.take(i);
    if implemented_among(reading, uri, package, name, set, more) {
        let at = choose|at: int|
            0 <= at < more.len() && implements(reading, uri, package, name, set, #[trigger] more[at]);
        if at < i {
            assert(less[at] == more[at]);
        }
    }
    if implemented_among(reading, uri, package, name, set, less) {
        let at = choose|at: int|
            0 <= at < less.len() && implements(reading, uri, package, name, set, #[trigger] less[at]);
        assert(more[at] == less[at]);
    }
    if implements(reading, uri, package, name, set, locations[i]) {
        assert(more[i] == locations[i]);
    }
}

/// The source set for which a location implements a name.
fn implementing_set(
    indexer: &Indexer,
    uri: &str,
    package: &str,
    name: &str,
    location: &Location,
    cache: &mut DeclCache,
) -> (r: Option<String>)
    requires
        indexer.wf(),
        old(cache).wf(),
    ensures
        read_more(*indexer, *old(cache), *final(cache)),
        forall|reading: Reading, set: Seq<char>|
            #![trigger implements(reading, uri@, package@, name@, set, location.deep_view())]
            reading.agrees(*indexer, *final(cache)) ==> (implements(
                reading,
                uri@,
                package@,
                name@,
                set,
                location.deep_view(),
            ) <==> r.deep_view() == Some(set)),
{
    if same_text(&location.uri, uri) {
        return None;
    }
    match indexer.file_data_for(&location.uri) {
        Some(data) => match &data.package {
            Some(theirs) => if !same_text(theirs, package) {
                return None;
            },
            None => return None,
        },
        None => return None,
    }
    let target_set = match classify_source_set(&location.uri) {
        Some(set) => set,
        None => return None,
    };
    if same_text(&target_set, "common") {
        return None;
    }
    let marked = symbol_has_modifier(indexer, &location.uri, name, true, cache);
    assert(cache@.contains_key(location.uri@));
    if marked {
        Some(target_set)
    } else {
        None
    }
}

/// The warning that a source set lacks an implementation of a name.
fn missing_actual_diagnostic(range: Range, name: &str, set: &str) -> (r: Diagnostic)
    ensures
        r.deep_view() == missing_actual(range, name@, set@),
{
    Diagnostic {
        range,
        severity: Some(DiagnosticSeverity::Warning),
        source: Some("kotlin-lsp".to_owned()),
        message: joined("Missing 'actual' implementation for ", &target_label(set)),
        data: Some(
            JsonValue::pair(
                "source_set",
                JsonValue::Str(set.to_owned()),
                "symbol",
                JsonValue::Str(name.to_owned()),
            ),
        ),
    }
}

/// Adds the warnings for one `expect` declaration.
fn push_warnings(
    indexer: &Indexer,
    uri: &str,
    package: &str,
    name: &str,
    range: Range,
    sets: &Vec<String>,
    cache: &mut DeclCache,
    diagnostics: &mut Vec<Diagnostic>,
)
    requires
        indexer.wf(),
        old(cache).wf(),
    ensures
        read_more(*indexer, *old(cache), *final(cache)),
        forall|reading: Reading| #[trigger]
            reading.agrees(*indexer, *final(cache)) ==> final(diagnostics).deep_view() == old(
                diagnostics,
            ).deep_view() + warnings_over(
                reading,
                uri@,
                package@,
                name@,
                range,
                sets.deep_view(),
            ),
{
    let found = find_implementing_sets(indexer, uri, package, name, cache);
    let ghost all = sets.deep_view();
    let ghost start = diagnostics.deep_view();
    let mut i: usize = 0;
    assert(all.take(0) =~= Seq::<Seq<char>>::empty());
    assert(start =~= start + Seq::<DiagnosticModel>::empty());
    while i < sets.len()
        invariant
            i <= sets@.len(),
            all == sets.deep_view(),
            forall|reading: Reading, set: Seq<char>|
                #![trigger reading.agrees(*indexer, *cache), found.deep_view().contains(set)]
                reading.agrees(*indexer, *cache) ==> (found.deep_view().contains(set)
                    <==> is_implemented(reading, uri@, package@, name@, set)),
            forall|reading: Reading| #[trigger]
                reading.agrees(*indexer, *cache) ==> diagnostics.deep_view() == start
                    + warnings_over(
                    reading,
                    uri@,
                    package@,
                    name@,
                    range,
                    all.take(i as int),
                ),
        decreases sets.len() - i,
    {
        let set = &sets[i];
        let ghost before = diagnostics.deep_view();
        assert(all[i as int] == set@);
        assert(all.take(i + 1).drop_last() =~= all.take(i as int));
        let is_missing = !same_text(set, "common") && !contains_text(&found, set);
        assert(is_missing == (set@ != "common"@ && !found.deep_view().contains(set@)));
        if is_missing {
            let warning = missing_actual_diagnostic(range, name, set);
            diagnostics.push(warning);
            assert(diagnostics.deep_view() =~= before.push(warning.deep_view()));
        }
        proof {
            assert forall|reading: Reading| #[trigger]
                reading.agrees(*indexer, *cache) implies diagnostics.deep_view() == start
                + warnings_over(reading, uri@, package@, name@, range, all.take(i + 1)) by {
                assert(found.deep_view().contains(set@) <==> is_implemented(
                    reading,
                    uri@,
                    package@,
                    name@,
                    set@,
                ));
                let list = warnings_over(reading, uri@, package@, name@, range, all.take(i as int));
                let warning = missing_actual(range, name@, set@);
                assert((start + list).push(warning) =~= start + list.push(warning));
            }
        }
        i += 1;
    }
    assert(all.take(i as int) =~= all);
}

/// The warnings for a document over the given source sets: one for each `expect` declaration
/// and each set other than the common one that has no `actual` declaration for it.
///
/// The documents that hold definitions to look at are read where the cache does not have them.
pub fn expect_diagnostics_with(
    indexer: &Indexer,
    uri: &str,
    doc: &LiveDoc,
    sets: &Vec<String>,
    cache: &mut DeclCache,
) -> (r: Vec<Diagnostic>)
    requires
        indexer.wf(),
        doc.wf(),
        old(cache).wf(),
    ensures
        read_more(*indexer, *old(cache), *final(cache)),
        forall|reading: Reading| #[trigger]
            reading.agrees(*indexer, *final(cache)) ==> r.deep_view() == expect_warnings(
                reading,
                uri@,
                doc_model(*doc),
                sets.deep_view(),
            ),
{
    let mut diagnostics: Vec<Diagnostic> = Vec::new();
    assert(diagnostics.deep_view() =~= Seq::<DiagnosticModel>::empty());
    match classify_source_set(uri) {
        Some(set) => if !same_text(&set, "common") {
            return diagnostics;
        },
        None => return diagnostics,
    }
    let package = match indexer.file_data_for(uri) {
        Some(data) => match &data.package {
            Some(package) => package,
            None => return diagnostics,
        },
        None => return diagnostics,
    };
    let symbols = detect_expect_actual(doc);
    let ghost all = symbols.deep_view();
    let mut i: usize = 0;
    assert(all.take(0) =~= Seq::<MarkedDeclModel>::empty());
    while i < symbols.len()
        invariant
            i <= symbols@.len(),
            indexer.wf(),
            cache.wf(),
            read_more(*indexer, *old(cache), *cache),
            all == symbols.deep_view(),
            forall|reading: Reading| #[trigger]
                reading.agrees(*indexer, *cache) ==> diagnostics.deep_view() == warnings_among(
                    reading,
                    uri@,
                    package@,
                    sets.deep_view(),
                    all.take(i as int),
                ),
        decreases symbols.len() - i,
    {
        let (name, range, is_expect) = &symbols[i];
        let ghost cache_before = *cache;
        let ghost before = diagnostics.deep_view();
        assert(all[i as int] == symbols@[i as int].deep_view());
        assert(all.take(i + 1).drop_last() =~= all.take(i as int));
        if *is_expect {
            push_warnings(indexer, uri, package, name, *range, sets, cache, &mut diagnostics);
        }
        proof {
            assert forall|reading: Reading| #[trigger]
                reading.agrees(*indexer, *cache) implies diagnostics.deep_view()
                == warnings_among(reading, uri@, package@, sets.deep_view(), all.take(i + 1)) by {
                assert(reading.agrees(*indexer, cache_before));
            }
        }
        i += 1;
    }
    assert(all.take(i as int) =~= all);
    diagnostics
}

/// The warnings for a document over the given source sets: one for each `expect` declaration
/// and each set other than the common one that has no `actual` declaration for it.
pub fn kmp_expect_diagnostics_inner(
    indexer: &Indexer,
    uri: &str,
    doc: &LiveDoc,
    sets: &Vec<String>,
) -> (r: Vec<Diagnostic>)
    requires
        indexer.wf(),
        doc.wf(),
    ensures
        exists|reading: Reading| #[trigger]
            reading.is_possible(*indexer) && r.deep_view() == expect_warnings(
                reading,
                uri@,
                doc_model(*doc),
                sets.deep_view(),
            ),
{
    let mut cache: DeclCache = StringMap::new();
    let diagnostics = expect_diagnostics_with(indexer, uri, doc, sets, &mut cache);
    proof {
        let reading = lemma_possible_reading(*indexer, cache);
        assert(reading.is_possible(*indexer));
    }
    diagnostics
}

/// The warnings for a document over the source sets that the workspace's source directory
/// holds.
pub fn kmp_expect_diagnostics(
    indexer: &Indexer,
    uri: &str,
    doc: &LiveDoc,
    source_dir: &Vec<SourceDirEntry>,
) -> (r: Vec<Diagnostic>)
    requires
        indexer.wf(),
        doc.wf(),
    ensures
        exists|reading: Reading| #[trigger]
            reading.is_possible(*indexer) && r.deep_view() == expect_warnings(
                reading,
                uri@,
                doc_model(*doc),
                active_sets(source_dir.deep_view()),
            ),
{
    let sets = detect_active_sets(source_dir);
    kmp_expect_diagnostics_inner(indexer, uri, doc, &sets)
}

}
