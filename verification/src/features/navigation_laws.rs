//! What holds of counterparts and lenses, stated over packages, source sets and marks.

use crate::features::code_lens::{
    code_lenses, counterparts, counterparts_among, decls_in, decls_of, is_counterpart, is_readable,
    lenses_among, lenses_to, mark_of_name, may_declare, navigate_lens, Reading,
};
use crate::features::declarations::{marked_decls, MarkedDeclModel};
use crate::features::laws::{
    counterparts_are_the_matching_definitions, leads_to_counterpart, lenses_lead_to_counterparts,
};
use crate::features::source_set::{label_of, set_of_uri};
use crate::indexer::{is_kotlin, may_be_read, Indexer};
use crate::laws::documents_are_read_from_the_newest_source;
use crate::protocol::{CodeLensModel, LocationModel};
use crate::syntax::{ascii_nodes, doc_model, within_limits, DocModel};
use vstd::prelude::*;
use vstd::utf8::{encode_utf8, is_ascii_chars};

verus! {

/// Whether a definition stands in another file of a package and in another source set, and its
/// first declaration there has the given mark.
pub open spec fn is_marked_elsewhere(
    reading: Reading,
    name: Seq<char>,
    package: Seq<char>,
    uri: Seq<char>,
    location: LocationModel,
    is_expect: bool,
) -> bool {
    &&& location.uri != uri
    &&& reading.indexer.package_of(location.uri) == Some(package)
    &&& set_of_uri(location.uri) is Some
    &&& set_of_uri(location.uri) != set_of_uri(uri)
    &&& mark_of_name((reading.decls)(location.uri), name) == Some(is_expect)
}

/// From an `expect` declaration, every `actual` one in another source set is a counterpart, and
/// nothing else is.
pub proof fn expect_leads_to_every_actual(
    reading: Reading,
    name: Seq<char>,
    package: Seq<char>,
    uri: Seq<char>,
    location: LocationModel,
)
    ensures
        counterparts(reading, name, Some(package), uri, true).contains(
            (label_of(set_of_uri(location.uri)->0), location),
        ) <==> reading.indexer.locations_of(name).contains(location) && is_marked_elsewhere(
            reading,
            name,
            package,
            uri,
            location,
            false,
        ),
{
    counterparts_are_the_matching_definitions(
        reading,
        name,
        package,
        uri,
        true,
        label_of(set_of_uri(location.uri)->0),
        location,
    );
}

/// From an `actual` declaration, the `actual` ones of all other platforms are counterparts, and of
/// the common source set the `expect` ones.
pub proof fn actual_leads_to_the_common_one_and_to_other_platforms(
    reading: Reading,
    name: Seq<char>,
    package: Seq<char>,
    uri: Seq<char>,
    location: LocationModel,
)
    ensures
        set_of_uri(location.uri) != Some("common"@) ==> (counterparts(
            reading,
            name,
            Some(package),
            uri,
            false,
        ).contains((label_of(set_of_uri(location.uri)->0), location))
            <==> reading.indexer.locations_of(name).contains(location) && is_marked_elsewhere(
            reading,
            name,
            package,
            uri,
            location,
            false,
        )),
        set_of_uri(location.uri) == Some("common"@) ==> (counterparts(
            reading,
            name,
            Some(package),
            uri,
            false,
        ).contains((label_of("common"@), location)) <==> reading.indexer.locations_of(
            name,
        ).contains(location) && is_marked_elsewhere(reading, name, package, uri, location, true)),
{
    counterparts_are_the_matching_definitions(
        reading,
        name,
        package,
        uri,
        false,
        label_of(set_of_uri(location.uri)->0),
        location,
    );
}

/// A declaration outside any package has no counterparts.
pub proof fn declarations_outside_packages_stand_alone(
    reading: Reading,
    name: Seq<char>,
    uri: Seq<char>,
    is_expect: bool,
)
    ensures
        counterparts(reading, name, None, uri, is_expect).len() == 0,
{
}

/// Whether a definition goes with a declaration of the given mark: an `actual` one goes with
/// either, and an `expect` one of the common source set with an `actual` one.
pub open spec fn goes_with(
    reading: Reading,
    name: Seq<char>,
    package: Seq<char>,
    uri: Seq<char>,
    is_expect: bool,
    location: LocationModel,
) -> bool {
    if !is_expect && set_of_uri(location.uri) == Some("common"@) {
        is_marked_elsewhere(reading, name, package, uri, location, true)
    } else {
        is_marked_elsewhere(reading, name, package, uri, location, false)
    }
}

proof fn lemma_counterparts_in_order(
    reading: Reading,
    name: Seq<char>,
    package: Seq<char>,
    uri: Seq<char>,
    is_expect: bool,
    locations: Seq<LocationModel>,
    pred: spec_fn(LocationModel) -> bool,
    shown: spec_fn(LocationModel) -> (Seq<char>, LocationModel),
)
    requires
        forall|location: LocationModel| #[trigger]
            pred(location) == goes_with(reading, name, package, uri, is_expect, location),
        forall|location: LocationModel| #[trigger]
            shown(location) == (label_of(set_of_uri(location.uri)->0), location),
    ensures
        counterparts_among(reading, name, package, uri, is_expect, locations) == locations.filter(
            pred,
        ).map_values(shown),
    decreases locations.len(),
{
    reveal(Seq::filter);
    let found = counterparts_among(reading, name, package, uri, is_expect, locations);
    let wanted = locations.filter(pred).map_values(shown);
    if locations.len() > 0 {
        let rest = locations.drop_last();
        let last = locations.last();
        lemma_counterparts_in_order(reading, name, package, uri, is_expect, rest, pred, shown);
        assert(pred(last) == is_counterpart(reading, name, package, uri, is_expect, last));
        if pred(last) {
            assert(wanted =~= rest.filter(pred).map_values(shown).push(shown(last)));
        }
    }
    assert(found =~= wanted);
}

/// The counterparts of a packaged declaration are the definitions of its name that go with it,
/// each once for each time it is listed and in the order in which they are listed, under the
/// label of their source set.
pub proof fn counterparts_keep_the_order_of_the_definitions(
    reading: Reading,
    name: Seq<char>,
    package: Seq<char>,
    uri: Seq<char>,
    is_expect: bool,
)
    ensures
        counterparts(reading, name, Some(package), uri, is_expect)
            == reading.indexer.locations_of(name).filter(
            |location: LocationModel|
                goes_with(reading, name, package, uri, is_expect, location),
        ).map_values(
            |location: LocationModel| (label_of(set_of_uri(location.uri)->0), location),
        ),
{
    lemma_counterparts_in_order(
        reading,
        name,
        package,
        uri,
        is_expect,
        reading.indexer.locations_of(name),
        |location: LocationModel| goes_with(reading, name, package, uri, is_expect, location),
        |location: LocationModel| (label_of(set_of_uri(location.uri)->0), location),
    );
}

/// Each marked declaration of a packaged document has a lens to every definition that goes with
/// it, which stands at the declaration's name under the label of the definition's source set.
pub proof fn every_definition_that_goes_with_a_declaration_has_a_lens(
    reading: Reading,
    uri: Seq<char>,
    package: Seq<char>,
    decl: MarkedDeclModel,
    location: LocationModel,
)
    requires
        (reading.decls)(uri).contains(decl),
        reading.indexer.package_of(uri) == Some(package),
        reading.indexer.locations_of(decl.0).contains(location),
        goes_with(reading, decl.0, package, uri, decl.2, location),
    ensures
        code_lenses(reading, uri).contains(
            navigate_lens(decl.1, label_of(set_of_uri(location.uri)->0), location),
        ),
{
    let label = label_of(set_of_uri(location.uri)->0);
    let lens = navigate_lens(decl.1, label, location);
    counterparts_are_the_matching_definitions(
        reading,
        decl.0,
        package,
        uri,
        decl.2,
        label,
        location,
    );
    lenses_lead_to_counterparts(reading, uri, lens);
    assert(decls_of(reading, uri).contains(decl));
    assert(leads_to_counterpart(reading, uri, decl, (label, location), lens));
}

/// From an `actual` declaration a lens leads to the `actual` declaration of every other platform.
pub proof fn actual_declarations_have_lenses_to_each_other(
    reading: Reading,
    uri: Seq<char>,
    package: Seq<char>,
    decl: MarkedDeclModel,
    location: LocationModel,
)
    requires
        (reading.decls)(uri).contains(decl),
        !decl.2,
        reading.indexer.package_of(uri) == Some(package),
        reading.indexer.locations_of(decl.0).contains(location),
        location.uri != uri,
        reading.indexer.package_of(location.uri) == Some(package),
        set_of_uri(location.uri) is Some,
        set_of_uri(location.uri) != Some("common"@),
        set_of_uri(location.uri) != set_of_uri(uri),
        mark_of_name((reading.decls)(location.uri), decl.0) == Some(false),
    ensures
        code_lenses(reading, uri).contains(
            navigate_lens(decl.1, label_of(set_of_uri(location.uri)->0), location),
        ),
{
    every_definition_that_goes_with_a_declaration_has_a_lens(reading, uri, package, decl, location);
}

/// The lenses at a declaration: one for each definition that goes with it.
pub open spec fn lenses_at_declaration(
    reading: Reading,
    uri: Seq<char>,
    decl: MarkedDeclModel,
) -> Seq<CodeLensModel> {
    match reading.indexer.package_of(uri) {
        Some(package) => reading.indexer.locations_of(decl.0).filter(
            |location: LocationModel|
                goes_with(reading, decl.0, package, uri, decl.2, location),
        ).map_values(
            |location: LocationModel|
                navigate_lens(decl.1, label_of(set_of_uri(location.uri)->0), location),
        ),
        None => Seq::empty(),
    }
}

proof fn lemma_lenses_at_declaration(reading: Reading, uri: Seq<char>, decl: MarkedDeclModel)
    ensures
        lenses_to(
            decl.1,
            counterparts(reading, decl.0, reading.package_of(uri), uri, decl.2),
        ) == lenses_at_declaration(reading, uri, decl),
{
    if let Some(package) = reading.indexer.package_of(uri) {
        counterparts_keep_the_order_of_the_definitions(reading, decl.0, package, uri, decl.2);
    }
    assert(lenses_to(
        decl.1,
        counterparts(reading, decl.0, reading.package_of(uri), uri, decl.2),
    ) =~= lenses_at_declaration(reading, uri, decl));
}

proof fn lemma_lenses_in_order(
    reading: Reading,
    uri: Seq<char>,
    decls: Seq<MarkedDeclModel>,
    each: spec_fn(MarkedDeclModel) -> Seq<CodeLensModel>,
)
    requires
        forall|decl: MarkedDeclModel| #[trigger]
            each(decl) == lenses_at_declaration(reading, uri, decl),
    ensures
        lenses_among(reading, uri, decls) == decls.map_values(each).flatten(),
    decreases decls.len(),
{
    if decls.len() > 0 {
        let rest = decls.drop_last();
        let last = decls.last();
        lemma_lenses_in_order(reading, uri, rest, each);
        lemma_lenses_at_declaration(reading, uri, last);
        assert(decls.map_values(each) =~= rest.map_values(each).push(each(last)));
        rest.map_values(each).lemma_flatten_push(each(last));
    } else {
        assert(decls.map_values(each) =~= Seq::<Seq<CodeLensModel>>::empty());
    }
}

/// The lenses of a document are those of its marked declarations, one declaration after the
/// other: at each, one for every definition that goes with it, in the order of the definitions.
pub proof fn lenses_follow_the_declarations(reading: Reading, uri: Seq<char>)
    ensures
        code_lenses(reading, uri) == (reading.decls)(uri).map_values(
            |decl: MarkedDeclModel| lenses_at_declaration(reading, uri, decl),
        ).flatten(),
{
    lemma_lenses_in_order(
        reading,
        uri,
        (reading.decls)(uri),
        |decl: MarkedDeclModel| lenses_at_declaration(reading, uri, decl),
    );
}

/// What a document is read to declare is what its text says: a document with a stored parse
/// declares what the nodes of that parse do, and one that is not in memory declares nothing.
pub proof fn documents_declare_what_they_say(reading: Reading, indexer: Indexer, uri: Seq<char>)
    requires
        reading.is_possible(indexer),
    ensures
        indexer.live_trees@.contains_key(uri) ==> (reading.decls)(uri) == marked_decls(
            indexer.live_trees@[uri].bytes(),
            indexer.live_trees@[uri].nodes(),
        ),
        !indexer.live_trees@.contains_key(uri) && !indexer.live_lines@.contains_key(uri)
            && !indexer.files@.contains_key(uri) ==> (reading.decls)(uri).len() == 0,
        !indexer.live_trees@.contains_key(uri) && !is_kotlin(uri) ==> (reading.decls)(uri).len()
            == 0,
{
    if indexer.live_trees@.contains_key(uri) {
        let doc = Some(doc_model(indexer.live_trees@[uri]));
        lemma_declares(reading, indexer, uri, doc);
    } else if !is_kotlin(uri) || (!indexer.live_lines@.contains_key(uri)
        && !indexer.files@.contains_key(uri)) {
        lemma_declares(reading, indexer, uri, None);
    }
}

proof fn lemma_declares(
    reading: Reading,
    indexer: Indexer,
    uri: Seq<char>,
    doc: Option<DocModel>,
)
    requires
        reading.is_possible(indexer),
        may_be_read(uri, indexer.source_of(uri), doc),
    ensures
        exists|other: Option<DocModel>| #[trigger]
            may_be_read(uri, indexer.source_of(uri), other) && (reading.decls)(uri) == decls_in(
                other,
            ),
{
    assert(may_declare(indexer, uri, decls_in(doc)));
    assert(is_readable(indexer, uri));
    assert(may_declare(indexer, uri, decls_of(reading, uri)));
}

/// A document in ASCII that is only held as text declares what the grammar says of that text:
/// the editor's text where the document is open, and else the indexed one.
pub proof fn texts_declare_what_they_say(
    reading: Reading,
    indexer: Indexer,
    uri: Seq<char>,
    text: Seq<char>,
)
    requires
        reading.is_possible(indexer),
        is_readable(indexer, uri),
        !indexer.live_trees@.contains_key(uri),
        is_kotlin(uri),
        is_ascii_chars(text),
        within_limits(text),
        if indexer.live_lines@.contains_key(uri) {
            indexer.live_lines@[uri]@ == text
        } else {
            indexer.files@.contains_key(uri) && indexer.files@[uri].text@ == text
        },
    ensures
        (reading.decls)(uri) == marked_decls(encode_utf8(text), ascii_nodes(text)),
{
    assert(may_declare(indexer, uri, decls_of(reading, uri)));
    let doc = choose|doc: Option<DocModel>| #[trigger]
        may_be_read(uri, indexer.source_of(uri), doc) && decls_of(reading, uri) == decls_in(doc);
    documents_are_read_from_the_newest_source(indexer, uri, doc);
}

}
