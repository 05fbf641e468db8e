//! What holds of marked declarations, their counterparts, lenses and warnings together.

use crate::features::code_lens::{
    code_lenses, counterparts, counterparts_among, decls_of, is_counterpart, lenses_among,
    lenses_to, mark_of_name, marked_so, navigate_lens, Reading,
};
use crate::features::declarations::{
    marked_among, marked_at, marked_decls, MarkedDeclModel,
};
use crate::features::kmp_expect_diagnostics::{
    active_sets, expect_warnings, implements, is_implemented, missing_actual, set_of_entry,
    warnings_among, warnings_over, SourceDirEntryModel,
};
use crate::features::source_set::{label_of, set_of_uri};
use crate::protocol::{CodeLensModel, DiagnosticModel, LocationModel, Range};
use crate::sequences::{lemma_concat_contains, lemma_drop_last_contains, lemma_push_contains};
use crate::syntax::{every_node_visited_once, is_document_tree, visit, DocModel, NodeFacts};
use vstd::prelude::*;

verus! {

proof fn lemma_marked_among(
    bytes: Seq<u8>,
    nodes: Seq<NodeFacts>,
    list: Seq<int>,
    decl: MarkedDeclModel,
)
    ensures
        marked_among(bytes, nodes, list).contains(decl) <==> exists|i: int|
            0 <= i < list.len() && marked_at(bytes, nodes, #[trigger] list[i]) == Some(decl),
    decreases list.len(),
{
    if list.len() > 0 {
        let rest = list.drop_last();
        let before = marked_among(bytes, nodes, rest);
        lemma_marked_among(bytes, nodes, rest, decl);
        if let Some(last) = marked_at(bytes, nodes, list.last()) {
            lemma_push_contains(before, last, decl);
        }
        assert(list.last() == list[list.len() - 1]);
        assert forall|i: int| 0 <= i < rest.len() implies #[trigger] list[i] == rest[i] by {}
    }
}

/// The marked declarations of a document are those that its nodes declare, wherever they stand
/// in the tree, and no others.
pub proof fn every_marked_declaration_is_found(doc: DocModel, decl: MarkedDeclModel)
    requires
        is_document_tree(doc.nodes, doc.bytes.len()),
        doc.nodes.len() <= usize::MAX,
    ensures
        marked_decls(doc.bytes, doc.nodes).contains(decl) <==> exists|node: int|
            0 <= node < doc.nodes.len() && #[trigger] marked_at(doc.bytes, doc.nodes, node) == Some(
                decl,
            ),
{
    let order = visit(doc.nodes, 0);
    every_node_visited_once(doc.nodes, doc.bytes.len());
    lemma_marked_among(doc.bytes, doc.nodes, order, decl);
    if marked_decls(doc.bytes, doc.nodes).contains(decl) {
        let i = choose|i: int|
            0 <= i < order.len() && marked_at(doc.bytes, doc.nodes, #[trigger] order[i]) == Some(
                decl,
            );
        assert(order.contains(order[i]));
    }
    if exists|node: int|
        0 <= node < doc.nodes.len() && #[trigger] marked_at(doc.bytes, doc.nodes, node) == Some(
            decl,
        ) {
        let node = choose|node: int|
            0 <= node < doc.nodes.len() && #[trigger] marked_at(doc.bytes, doc.nodes, node) == Some(
                decl,
            );
        assert(order.contains(node));
        let i = choose|i: int| 0 <= i < order.len() && order[i] == node;
        assert(marked_at(doc.bytes, doc.nodes, order[i]) == Some(decl));
    }
}

proof fn lemma_counterparts_among(
    reading: Reading,
    name: Seq<char>,
    package: Seq<char>,
    uri: Seq<char>,
    is_expect: bool,
    locations: Seq<LocationModel>,
    found: (Seq<char>, LocationModel),
)
    ensures
        counterparts_among(reading, name, package, uri, is_expect, locations).contains(found)
            <==> {
            &&& locations.contains(found.1)
            &&& is_counterpart(reading, name, package, uri, is_expect, found.1)
            &&& found.0 == label_of(set_of_uri(found.1.uri)->0)
        },
    decreases locations.len(),
{
    if locations.len() > 0 {
        let rest = locations.drop_last();
        let last = locations.last();
        let before = counterparts_among(reading, name, package, uri, is_expect, rest);
        lemma_counterparts_among(reading, name, package, uri, is_expect, rest, found);
        lemma_drop_last_contains(locations, found.1);
        lemma_push_contains(before, (label_of(set_of_uri(last.uri)->0), last), found);
    }
}

/// Of the two marks, a name has exactly one where it is among the declarations of a document,
/// that of its first declaration, and none where it is not.
pub proof fn a_declared_name_has_one_mark(decls: Seq<MarkedDeclModel>, name: Seq<char>)
    ensures
        mark_of_name(decls, name) is Some <==> exists|i: int|
            0 <= i < decls.len() && (#[trigger] decls[i]).0 == name,
        mark_of_name(decls, name) is None ==> !marked_so(decls, name, true) && !marked_so(
            decls,
            name,
            false,
        ),
        mark_of_name(decls, name) matches Some(is_expect) ==> {
            &&& marked_so(decls, name, true) == !is_expect
            &&& marked_so(decls, name, false) == is_expect
            &&& exists|i: int|
                0 <= i < decls.len() && (#[trigger] decls[i]).0 == name && decls[i].2 == is_expect
                    && forall|j: int| 0 <= j < i ==> (#[trigger] decls[j]).0 != name
        },
    decreases decls.len(),
{
    if decls.len() > 0 {
        let rest = decls.drop_first();
        a_declared_name_has_one_mark(rest, name);
        assert forall|i: int| 0 <= i < rest.len() implies #[trigger] rest[i] == decls[i + 1] by {}
        if decls[0].0 != name {
            if let Some(is_expect) = mark_of_name(rest, name) {
                let i = choose|i: int|
                    0 <= i < rest.len() && (#[trigger] rest[i]).0 == name && rest[i].2 == is_expect
                        && forall|j: int| 0 <= j < i ==> (#[trigger] rest[j]).0 != name;
                assert(decls[i + 1].0 == name && decls[i + 1].2 == is_expect);
                assert forall|j: int| 0 <= j < i + 1 implies (#[trigger] decls[j]).0 != name by {
                    if j > 0 {
                        assert(rest[j - 1] == decls[j]);
                    }
                }
            }
            if exists|i: int| 0 <= i < decls.len() && (#[trigger] decls[i]).0 == name {
                let i = choose|i: int| 0 <= i < decls.len() && (#[trigger] decls[i]).0 == name;
                assert(rest[i - 1].0 == name);
            }
        }
    }
}

/// The counterparts of a packaged declaration are the definitions of its name that stand in
/// another file of the package and another source set with the mark that goes with its own,
/// each under the label of its source set.
pub proof fn counterparts_are_the_matching_definitions(
    reading: Reading,
    name: Seq<char>,
    package: Seq<char>,
    uri: Seq<char>,
    is_expect: bool,
    label: Seq<char>,
    location: LocationModel,
)
    ensures
        counterparts(reading, name, Some(package), uri, is_expect).contains((label, location))
            <==> {
            &&& reading.locations_of(name).contains(location)
            &&& is_counterpart(reading, name, package, uri, is_expect, location)
            &&& label == label_of(set_of_uri(location.uri)->0)
        },
{
    lemma_counterparts_among(
        reading,
        name,
        package,
        uri,
        is_expect,
        reading.locations_of(name),
        (label, location),
    );
}

/// Counterparts are mutual: where the `expect` declarations of a name are those of the common
/// source set, navigation that leads from one definition to another leads back.
pub proof fn counterparts_are_mutual(
    reading: Reading,
    name: Seq<char>,
    package: Seq<char>,
    here: LocationModel,
    there: LocationModel,
)
    requires
        reading.package_of(here.uri) == Some(package),
        set_of_uri(here.uri) is Some,
        mark_of_name(decls_of(reading, here.uri), name) == Some(
            set_of_uri(here.uri) == Some("common"@),
        ),
        mark_of_name(decls_of(reading, there.uri), name) == Some(
            set_of_uri(there.uri) == Some("common"@),
        ),
        reading.locations_of(name).contains(here),
        counterparts(
            reading,
            name,
            Some(package),
            here.uri,
            set_of_uri(here.uri) == Some("common"@),
        ).contains((label_of(set_of_uri(there.uri)->0), there)),
    ensures
        counterparts(
            reading,
            name,
            Some(package),
            there.uri,
            set_of_uri(there.uri) == Some("common"@),
        ).contains((label_of(set_of_uri(here.uri)->0), here)),
{
    counterparts_are_the_matching_definitions(
        reading,
        name,
        package,
        here.uri,
        set_of_uri(here.uri) == Some("common"@),
        label_of(set_of_uri(there.uri)->0),
        there,
    );
    counterparts_are_the_matching_definitions(
        reading,
        name,
        package,
        there.uri,
        set_of_uri(there.uri) == Some("common"@),
        label_of(set_of_uri(here.uri)->0),
        here,
    );
}

/// Whether a lens stands at a declaration of a document and leads to one of its counterparts.
pub open spec fn leads_to_counterpart(
    reading: Reading,
    uri: Seq<char>,
    decl: MarkedDeclModel,
    target: (Seq<char>, LocationModel),
    lens: CodeLensModel,
) -> bool {
    &&& counterparts(reading, decl.0, reading.package_of(uri), uri, decl.2).contains(target)
    &&& lens == navigate_lens(decl.1, target.0, target.1)
}

/// Whether a declaration of a document has a lens.
#[verifier::opaque]
spec fn has_lens(
    reading: Reading,
    uri: Seq<char>,
    decl: MarkedDeclModel,
    lens: CodeLensModel,
) -> bool {
    exists|target: (Seq<char>, LocationModel)|
        leads_to_counterpart(reading, uri, decl, target, lens)
}

proof fn lemma_lenses_to(
    reading: Reading,
    uri: Seq<char>,
    decl: MarkedDeclModel,
    lens: CodeLensModel,
)
    ensures
        lenses_to(
            decl.1,
            counterparts(reading, decl.0, reading.package_of(uri), uri, decl.2),
        ).contains(lens) <==> has_lens(reading, uri, decl, lens),
{
    reveal(has_lens);
    let targets = counterparts(reading, decl.0, reading.package_of(uri), uri, decl.2);
    let lenses = lenses_to(decl.1, targets);
    if lenses.contains(lens) {
        let j = choose|j: int| 0 <= j < lenses.len() && lenses[j] == lens;
        assert(targets.contains(targets[j]));
        assert(leads_to_counterpart(reading, uri, decl, targets[j], lens));
    }
    if has_lens(reading, uri, decl, lens) {
        let target = choose|target: (Seq<char>, LocationModel)|
            leads_to_counterpart(reading, uri, decl, target, lens);
        let j = choose|j: int| 0 <= j < targets.len() && targets[j] == target;
        assert(lenses[j] == lens);
    }
}

proof fn lemma_lenses_among(
    reading: Reading,
    uri: Seq<char>,
    decls: Seq<MarkedDeclModel>,
    lens: CodeLensModel,
)
    ensures
        lenses_among(reading, uri, decls).contains(lens) <==> exists|decl: MarkedDeclModel|
            decls.contains(decl) && #[trigger] has_lens(reading, uri, decl, lens),
    decreases decls.len(),
{
    if decls.len() > 0 {
        let rest = decls.drop_last();
        let last = decls.last();
        lemma_lenses_among(reading, uri, rest, lens);
        lemma_lenses_to(reading, uri, last, lens);
        lemma_concat_contains(
            lenses_among(reading, uri, rest),
            lenses_to(
                last.1,
                counterparts(reading, last.0, reading.package_of(uri), uri, last.2),
            ),
            lens,
        );
        assert forall|decl: MarkedDeclModel| #[trigger]
            has_lens(reading, uri, decl, lens) implies decls.contains(decl) == (rest.contains(decl)
            || last == decl) by {
            lemma_drop_last_contains(decls, decl);
        }
    } else {
        assert(lenses_among(reading, uri, decls) == Seq::<CodeLensModel>::empty());
    }
}

/// A document has a lens for every counterpart of every one of its marked declarations, and no
/// other lens.
pub proof fn lenses_lead_to_counterparts(reading: Reading, uri: Seq<char>, lens: CodeLensModel)
    ensures
        code_lenses(reading, uri).contains(lens) <==> exists|
            decl: MarkedDeclModel,
            target: (Seq<char>, LocationModel),
        |
            decls_of(reading, uri).contains(decl) && #[trigger] leads_to_counterpart(
                reading,
                uri,
                decl,
                target,
                lens,
            ),
{
    reveal(has_lens);
    let decls = decls_of(reading, uri);
    lemma_lenses_among(reading, uri, decls, lens);
    assert forall|decl: MarkedDeclModel, target: (Seq<char>, LocationModel)|
        decls.contains(decl) && #[trigger] leads_to_counterpart(
            reading,
            uri,
            decl,
            target,
            lens,
        ) implies code_lenses(reading, uri).contains(lens) by {
        assert(has_lens(reading, uri, decl, lens));
    }
}

/// The source sets that are looked at are those that the entries of the source directory stand
/// for, each once.
pub proof fn active_sets_are_those_of_the_entries(
    entries: Seq<SourceDirEntryModel>,
    set: Seq<char>,
)
    ensures
        active_sets(entries).contains(set) <==> exists|i: int|
            0 <= i < entries.len() && set_of_entry(#[trigger] entries[i]) == Some(set),
        active_sets(entries).no_duplicates(),
    decreases entries.len(),
{
    if entries.len() > 0 {
        let rest = entries.drop_last();
        active_sets_are_those_of_the_entries(rest, set);
        if let Some(last) = set_of_entry(entries.last()) {
            lemma_push_contains(active_sets(rest), last, set);
        }
        assert(entries.last() == entries[entries.len() - 1]);
        assert forall|i: int| 0 <= i < rest.len() implies #[trigger] entries[i] == rest[i] by {}
    }
}

/// A document outside the common source set gets no warning.
pub proof fn only_common_documents_are_warned_about(
    reading: Reading,
    uri: Seq<char>,
    doc: DocModel,
    sets: Seq<Seq<char>>,
)
    requires
        set_of_uri(uri) != Some("common"@),
    ensures
        expect_warnings(reading, uri, doc, sets).len() == 0,
{
}

proof fn lemma_warnings_over(
    reading: Reading,
    uri: Seq<char>,
    package: Seq<char>,
    name: Seq<char>,
    range: Range,
    sets: Seq<Seq<char>>,
    warning: DiagnosticModel,
)
    ensures
        warnings_over(reading, uri, package, name, range, sets).contains(warning) <==> exists|
            k: int,
        |
            0 <= k < sets.len() && #[trigger] sets[k] != "common"@ && !is_implemented(
                reading,
                uri,
                package,
                name,
                sets[k],
            ) && warning == missing_actual(range, name, sets[k]),
    decreases sets.len(),
{
    if sets.len() > 0 {
        let rest = sets.drop_last();
        let before = warnings_over(reading, uri, package, name, range, rest);
        lemma_warnings_over(reading, uri, package, name, range, rest, warning);
        lemma_push_contains(before, missing_actual(range, name, sets.last()), warning);
        assert(sets.last() == sets[sets.len() - 1]);
        assert forall|k: int| 0 <= k < rest.len() implies #[trigger] sets[k] == rest[k] by {}
    }
}

/// Whether a warning says that a source set lacks an implementation of an `expect` declaration,
/// and rightly so.
pub open spec fn rightly_warns(
    reading: Reading,
    uri: Seq<char>,
    package: Seq<char>,
    decl: MarkedDeclModel,
    set: Seq<char>,
    warning: DiagnosticModel,
) -> bool {
    &&& decl.2
    &&& set != "common"@
    &&& !is_implemented(reading, uri, package, decl.0, set)
    &&& warning == missing_actual(decl.1, decl.0, set)
}

proof fn lemma_warnings_among(
    reading: Reading,
    uri: Seq<char>,
    package: Seq<char>,
    sets: Seq<Seq<char>>,
    decls: Seq<MarkedDeclModel>,
    warning: DiagnosticModel,
)
    ensures
        warnings_among(reading, uri, package, sets, decls).contains(warning) <==> exists|
            decl: MarkedDeclModel,
            set: Seq<char>,
        |
            decls.contains(decl) && sets.contains(set) && #[trigger] rightly_warns(
                reading,
                uri,
                package,
                decl,
                set,
                warning,
            ),
    decreases decls.len(),
{
    if decls.len() > 0 {
        let rest = decls.drop_last();
        let last = decls.last();
        lemma_warnings_among(reading, uri, package, sets, rest, warning);
        lemma_warnings_over(reading, uri, package, last.0, last.1, sets, warning);
        lemma_concat_contains(
            warnings_among(reading, uri, package, sets, rest),
            warnings_over(reading, uri, package, last.0, last.1, sets),
            warning,
        );
        assert forall|decl: MarkedDeclModel, set: Seq<char>| #[trigger]
            rightly_warns(reading, uri, package, decl, set, warning) implies decls.contains(decl)
            == (rest.contains(decl) || last == decl) by {
            lemma_drop_last_contains(decls, decl);
        }
        if last.2 && exists|k: int|
            0 <= k < sets.len() && #[trigger] sets[k] != "common"@ && !is_implemented(
                reading,
                uri,
                package,
                last.0,
                sets[k],
            ) && warning == missing_actual(last.1, last.0, sets[k]) {
            let k = choose|k: int|
                0 <= k < sets.len() && #[trigger] sets[k] != "common"@ && !is_implemented(
                    reading,
                    uri,
                    package,
                    last.0,
                    sets[k],
                ) && warning == missing_actual(last.1, last.0, sets[k]);
            assert(sets.contains(sets[k]));
            assert(rightly_warns(reading, uri, package, last, sets[k], warning));
        }
    }
}

/// A packaged document of the common source set gets a warning for each of its `expect`
/// declarations and each listed source set other than the common one that does not implement
/// it, and no other warning.
pub proof fn warnings_are_the_missing_implementations(
    reading: Reading,
    uri: Seq<char>,
    package: Seq<char>,
    doc: DocModel,
    sets: Seq<Seq<char>>,
    warning: DiagnosticModel,
)
    requires
        reading.package_of(uri) == Some(package),
        set_of_uri(uri) == Some("common"@),
    ensures
        expect_warnings(reading, uri, doc, sets).contains(warning) <==> exists|
            decl: MarkedDeclModel,
            set: Seq<char>,
        |
            marked_decls(doc.bytes, doc.nodes).contains(decl) && sets.contains(set)
                && #[trigger] rightly_warns(reading, uri, package, decl, set, warning),
{
    lemma_warnings_among(
        reading,
        uri,
        package,
        sets,
        marked_decls(doc.bytes, doc.nodes),
        warning,
    );
}

/// A source set implements an `expect` declaration of the common source set, and so gets no
/// warning, exactly where the declaration has a counterpart in that set, and so a lens to it.
pub proof fn implemented_sets_are_those_with_a_counterpart(
    reading: Reading,
    uri: Seq<char>,
    package: Seq<char>,
    name: Seq<char>,
    set: Seq<char>,
)
    requires
        set_of_uri(uri) == Some("common"@),
    ensures
        is_implemented(reading, uri, package, name, set) <==> exists|location: LocationModel|
            set_of_uri(location.uri) == Some(set) && #[trigger] counterparts(
                reading,
                name,
                Some(package),
                uri,
                true,
            ).contains((label_of(set), location)),
{
    let locations = reading.locations_of(name);
    if is_implemented(reading, uri, package, name, set) {
        let i = choose|i: int|
            0 <= i < locations.len() && implements(
                reading,
                uri,
                package,
                name,
                set,
                #[trigger] locations[i],
            );
        let location = locations[i];
        assert(locations.contains(location));
        counterparts_are_the_matching_definitions(
            reading,
            name,
            package,
            uri,
            true,
            label_of(set),
            location,
        );
        assert(counterparts(reading, name, Some(package), uri, true).contains(
            (label_of(set), location),
        ));
    }
    if exists|location: LocationModel|
        set_of_uri(location.uri) == Some(set) && #[trigger] counterparts(
            reading,
            name,
            Some(package),
            uri,
            true,
        ).contains((label_of(set), location)) {
        let location = choose|location: LocationModel|
            set_of_uri(location.uri) == Some(set) && #[trigger] counterparts(
                reading,
                name,
                Some(package),
                uri,
                true,
            ).contains((label_of(set), location));
        counterparts_are_the_matching_definitions(
            reading,
            name,
            package,
            uri,
            true,
            label_of(set),
            location,
        );
        let i = choose|i: int| 0 <= i < locations.len() && locations[i] == location;
        assert(implements(reading, uri, package, name, set, locations[i]));
    }
}

}
