//! What holds of the warnings about missing implementations, stated over source directories,
//! packages, source sets and marks.

use crate::features::code_lens::{mark_of_name, Reading};
use crate::features::declarations::{marked_decls, MarkedDeclModel};
use crate::features::kmp_expect_diagnostics::{
    active_sets, expect_warnings, implements, is_implemented, missing_actual, set_of_entry,
    warnings_among, warnings_over, SourceDirEntryModel,
};
use crate::features::laws::{
    active_sets_are_those_of_the_entries, rightly_warns, warnings_are_the_missing_implementations,
};
use crate::features::source_set::{
    is_first_set_directory, label_of, set_of_name, set_of_uri, the_first_set_directory_decides,
};
use crate::json::JsonModel;
use crate::protocol::{DiagnosticModel, DiagnosticSeverity, LocationModel, Range};
use crate::syntax::DocModel;
use crate::text::pieces;
use vstd::prelude::*;

verus! {

/// Whether an entry of the source directory is a directory of the given name that holds sources.
pub open spec fn is_source_directory(entry: SourceDirEntryModel, name: Seq<char>) -> bool {
    entry.name == Some(name) && entry.is_dir && (entry.has_kotlin || entry.has_java)
}

/// An entry stands for a source set exactly where it is a directory with sources whose name ends
/// in `Main` or `Test`.
pub proof fn directories_with_sources_stand_for_sets(entry: SourceDirEntryModel)
    ensures
        set_of_entry(entry) is Some <==> exists|name: Seq<char>| #[trigger]
            is_source_directory(entry, name) && ("Main"@.is_suffix_of(name)
                || "Test"@.is_suffix_of(name)),
        forall|name: Seq<char>| #[trigger]
            is_source_directory(entry, name) && ("Main"@.is_suffix_of(name)
                || "Test"@.is_suffix_of(name)) ==> set_of_entry(entry) == Some(set_of_name(name)),
{
    if set_of_entry(entry) is Some {
        assert(is_source_directory(entry, entry.name->0));
    }
}

/// A source directory stands for the source set that the files in it belong to.
pub proof fn a_source_directory_stands_for_the_set_of_its_files(
    entry: SourceDirEntryModel,
    uri: Seq<char>,
    i: int,
)
    requires
        is_first_set_directory(uri, i),
        is_source_directory(entry, pieces(uri, '/')[i]),
    ensures
        set_of_entry(entry) is Some,
        set_of_entry(entry) == set_of_uri(uri),
{
    directories_with_sources_stand_for_sets(entry);
    the_first_set_directory_decides(uri, i);
}

/// Whether a definition is an `actual` declaration of a name in another file of the package.
pub open spec fn is_actual_elsewhere(
    reading: Reading,
    uri: Seq<char>,
    package: Seq<char>,
    name: Seq<char>,
    location: LocationModel,
) -> bool {
    &&& reading.indexer.locations_of(name).contains(location)
    &&& location.uri != uri
    &&& reading.indexer.package_of(location.uri) == Some(package)
    &&& mark_of_name((reading.decls)(location.uri), name) == Some(false)
}

/// A source set other than the common one implements a name exactly where one of the name's
/// definitions is an `actual` declaration in another file of the package and in that set.
pub proof fn sets_implement_by_actual_declarations(
    reading: Reading,
    uri: Seq<char>,
    package: Seq<char>,
    name: Seq<char>,
    set: Seq<char>,
)
    ensures
        is_implemented(reading, uri, package, name, set) <==> set != "common"@ && exists|
            location: LocationModel,
        | #[trigger]
            is_actual_elsewhere(reading, uri, package, name, location) && set_of_uri(location.uri)
                == Some(set),
{
    let locations = reading.indexer.locations_of(name);
    if is_implemented(reading, uri, package, name, set) {
        let i = choose|i: int|
            0 <= i < locations.len() && implements(
                reading,
                uri,
                package,
                name,
                set,
                #[trigger] locations[i],
            );
        assert(locations.contains(locations[i]));
        assert(is_actual_elsewhere(reading, uri, package, name, locations[i]));
    }
    if set != "common"@ && exists|location: LocationModel| #[trigger]
        is_actual_elsewhere(reading, uri, package, name, location) && set_of_uri(location.uri)
            == Some(set) {
        let location = choose|location: LocationModel| #[trigger]
            is_actual_elsewhere(reading, uri, package, name, location) && set_of_uri(location.uri)
                == Some(set);
        let i = choose|i: int| 0 <= i < locations.len() && locations[i] == location;
        assert(implements(reading, uri, package, name, set, locations[i]));
    }
}

/// A warning stands at the name of the declaration, tells the label of the source set, and
/// carries the set and the name.
pub proof fn warnings_say_what_is_missing(range: Range, name: Seq<char>, set: Seq<char>)
    ensures
        missing_actual(range, name, set).range == range,
        missing_actual(range, name, set).severity == Some(DiagnosticSeverity::Warning),
        missing_actual(range, name, set).source == Some("kotlin-lsp"@),
        missing_actual(range, name, set).message == "Missing 'actual' implementation for "@
            + label_of(set),
        missing_actual(range, name, set).data == Some(said_to_miss(name, set)),
{
}

/// The data of a warning that a source set lacks an implementation of a name.
pub open spec fn said_to_miss(name: Seq<char>, set: Seq<char>) -> JsonModel {
    JsonModel::Object(
        seq![("source_set"@, JsonModel::Str(set)), ("symbol"@, JsonModel::Str(name))],
    )
}

proof fn lemma_said_to_miss(
    name: Seq<char>,
    set: Seq<char>,
    other_name: Seq<char>,
    other_set: Seq<char>,
)
    requires
        said_to_miss(name, set) == said_to_miss(other_name, other_set),
    ensures
        name == other_name,
        set == other_set,
{
    let one = said_to_miss(name, set)->Object_0;
    let other = said_to_miss(other_name, other_set)->Object_0;
    assert(one[0] == other[0] && one[1] == other[1]);
    assert(one[0].1->Str_0 == set && other[0].1->Str_0 == other_set);
    assert(one[1].1->Str_0 == name && other[1].1->Str_0 == other_name);
}

/// A packaged document of the common source set is warned about every `expect` declaration and
/// every source directory for whose set the package has no `actual` declaration of that name.
pub proof fn every_platform_without_an_actual_is_warned_about(
    reading: Reading,
    uri: Seq<char>,
    package: Seq<char>,
    doc: DocModel,
    entries: Seq<SourceDirEntryModel>,
    decl: MarkedDeclModel,
    i: int,
    name: Seq<char>,
)
    requires
        reading.indexer.package_of(uri) == Some(package),
        set_of_uri(uri) == Some("common"@),
        marked_decls(doc.bytes, doc.nodes).contains(decl),
        decl.2,
        0 <= i < entries.len(),
        is_source_directory(entries[i], name),
        "Main"@.is_suffix_of(name) || "Test"@.is_suffix_of(name),
        set_of_name(name) != "common"@,
        forall|location: LocationModel| #[trigger]
            is_actual_elsewhere(reading, uri, package, decl.0, location) ==> set_of_uri(
                location.uri,
            ) != Some(set_of_name(name)),
    ensures
        expect_warnings(reading, uri, doc, active_sets(entries)).contains(
            missing_actual(decl.1, decl.0, set_of_name(name)),
        ),
{
    let set = set_of_name(name);
    let warning = missing_actual(decl.1, decl.0, set);
    directories_with_sources_stand_for_sets(entries[i]);
    active_sets_are_those_of_the_entries(entries, set);
    sets_implement_by_actual_declarations(reading, uri, package, decl.0, set);
    warnings_are_the_missing_implementations(
        reading,
        uri,
        package,
        doc,
        active_sets(entries),
        warning,
    );
    assert(rightly_warns(reading, uri, package, decl, set, warning));
}

/// A source directory in which the package has an `actual` declaration of a name is not warned
/// about: no warning says that its set lacks the name.
pub proof fn no_platform_with_an_actual_is_warned_about(
    reading: Reading,
    uri: Seq<char>,
    package: Seq<char>,
    doc: DocModel,
    entries: Seq<SourceDirEntryModel>,
    name: Seq<char>,
    i: int,
    location: LocationModel,
    k: int,
    warning: DiagnosticModel,
)
    requires
        reading.indexer.package_of(uri) == Some(package),
        is_actual_elsewhere(reading, uri, package, name, location),
        is_first_set_directory(location.uri, k),
        0 <= i < entries.len(),
        is_source_directory(entries[i], pieces(location.uri, '/')[k]),
        expect_warnings(reading, uri, doc, active_sets(entries)).contains(warning),
    ensures
        set_of_entry(entries[i]) is Some,
        warning.data != Some(said_to_miss(name, set_of_entry(entries[i])->0)),
{
    a_source_directory_stands_for_the_set_of_its_files(entries[i], location.uri, k);
    let set = set_of_entry(entries[i])->0;
    warnings_are_the_missing_implementations(
        reading,
        uri,
        package,
        doc,
        active_sets(entries),
        warning,
    );
    if warning.data == Some(said_to_miss(name, set)) {
        let (decl, other) = choose|decl: MarkedDeclModel, other: Seq<char>|
            marked_decls(doc.bytes, doc.nodes).contains(decl) && active_sets(entries).contains(
                other,
            ) && #[trigger] rightly_warns(reading, uri, package, decl, other, warning);
        lemma_said_to_miss(name, set, decl.0, other);
        sets_implement_by_actual_declarations(reading, uri, package, name, set);
    }
}

/// Whether a source set is one that a name declared in a common document is missing in.
pub open spec fn is_missing_in(
    reading: Reading,
    uri: Seq<char>,
    package: Seq<char>,
    name: Seq<char>,
    set: Seq<char>,
) -> bool {
    set != "common"@ && forall|location: LocationModel| #[trigger]
        is_actual_elsewhere(reading, uri, package, name, location) ==> set_of_uri(location.uri)
            != Some(set)
}

/// The warnings for a declaration: one for each source set that an `expect` one is missing in.
pub open spec fn warnings_at_declaration(
    reading: Reading,
    uri: Seq<char>,
    package: Seq<char>,
    sets: Seq<Seq<char>>,
    decl: MarkedDeclModel,
) -> Seq<DiagnosticModel> {
    if decl.2 {
        sets.filter(
            |set: Seq<char>| is_missing_in(reading, uri, package, decl.0, set),
        ).map_values(|set: Seq<char>| missing_actual(decl.1, decl.0, set))
    } else {
        Seq::empty()
    }
}

proof fn lemma_warnings_over_in_order(
    reading: Reading,
    uri: Seq<char>,
    package: Seq<char>,
    name: Seq<char>,
    range: Range,
    sets: Seq<Seq<char>>,
    pred: spec_fn(Seq<char>) -> bool,
    shown: spec_fn(Seq<char>) -> DiagnosticModel,
)
    requires
        forall|set: Seq<char>| #[trigger]
            pred(set) == is_missing_in(reading, uri, package, name, set),
        forall|set: Seq<char>| #[trigger] shown(set) == missing_actual(range, name, set),
    ensures
        warnings_over(reading, uri, package, name, range, sets) == sets.filter(pred).map_values(
            shown,
        ),
    decreases sets.len(),
{
    reveal(Seq::filter);
    let wanted = sets.filter(pred).map_values(shown);
    if sets.len() > 0 {
        let rest = sets.drop_last();
        let last = sets.last();
        lemma_warnings_over_in_order(reading, uri, package, name, range, rest, pred, shown);
        sets_implement_by_actual_declarations(reading, uri, package, name, last);
        assert(pred(last) == is_missing_in(reading, uri, package, name, last));
        if pred(last) {
            assert(wanted =~= rest.filter(pred).map_values(shown).push(shown(last)));
        }
    }
    assert(warnings_over(reading, uri, package, name, range, sets) =~= wanted);
}

proof fn lemma_warnings_in_order(
    reading: Reading,
    uri: Seq<char>,
    package: Seq<char>,
    sets: Seq<Seq<char>>,
    decls: Seq<MarkedDeclModel>,
    each: spec_fn(MarkedDeclModel) -> Seq<DiagnosticModel>,
)
    requires
        forall|decl: MarkedDeclModel| #[trigger]
            each(decl) == warnings_at_declaration(reading, uri, package, sets, decl),
    ensures
        warnings_among(reading, uri, package, sets, decls) == decls.map_values(each).flatten(),
    decreases decls.len(),
{
    if decls.len() > 0 {
        let rest = decls.drop_last();
        let last = decls.last();
        lemma_warnings_in_order(reading, uri, package, sets, rest, each);
        if last.2 {
            lemma_warnings_over_in_order(
                reading,
                uri,
                package,
                last.0,
                last.1,
                sets,
                |set: Seq<char>| is_missing_in(reading, uri, package, last.0, set),
                |set: Seq<char>| missing_actual(last.1, last.0, set),
            );
        }
        assert(decls.map_values(each) =~= rest.map_values(each).push(each(last)));
        rest.map_values(each).lemma_flatten_push(each(last));
        assert(warnings_among(reading, uri, package, sets, decls) =~= warnings_among(
            reading,
            uri,
            package,
            sets,
            rest,
        ) + each(last));
    } else {
        assert(decls.map_values(each) =~= Seq::<Seq<DiagnosticModel>>::empty());
    }
}

/// The warnings for a packaged document of the common source set follow its declarations: for
/// each `expect` one there is a warning for every listed source set that it is missing in, in the
/// order of the sets. Any other document gets none.
pub proof fn warnings_follow_the_declarations(
    reading: Reading,
    uri: Seq<char>,
    doc: DocModel,
    sets: Seq<Seq<char>>,
)
    ensures
        set_of_uri(uri) == Some("common"@) ==> (reading.indexer.package_of(uri) matches Some(
            package,
        ) ==> expect_warnings(reading, uri, doc, sets) == marked_decls(
            doc.bytes,
            doc.nodes,
        ).map_values(
            |decl: MarkedDeclModel| warnings_at_declaration(reading, uri, package, sets, decl),
        ).flatten()),
        set_of_uri(uri) != Some("common"@) || reading.indexer.package_of(uri) is None
            ==> expect_warnings(reading, uri, doc, sets).len() == 0,
{
    if let Some(package) = reading.indexer.package_of(uri) {
        lemma_warnings_in_order(
            reading,
            uri,
            package,
            sets,
            marked_decls(doc.bytes, doc.nodes),
            |decl: MarkedDeclModel| warnings_at_declaration(reading, uri, package, sets, decl),
        );
    }
}

}
