//! Code lenses that lead from a marked declaration to its counterparts in other source sets.

use crate::features::declarations::{
    detect_expect_actual, marked_decls, MarkedDecl, MarkedDeclModel,
};
use crate::features::source_set::{classify_source_set, label_of, set_of_uri, target_label};
use crate::indexer::{is_kotlin, is_kotlin_uri, may_be_read, Indexer};
use crate::json::{JsonModel, JsonValue};
use crate::protocol::{
    CodeLens, CodeLensModel, Command, CommandModel, Location, LocationModel, Position, Range,
};
use crate::string_map::StringMap;
use crate::syntax::{optional_model, DocModel, LiveDoc};
use crate::text::same_text;
use vstd::prelude::*;

verus! {

/// The command that a navigation lens carries.
pub const GO_TO_LOCATIONS: &'static str = "editor.action.goToLocations";

/// The marked declarations of documents that were already looked at.
pub type DeclCache = StringMap<Vec<MarkedDecl>>;

/// The marked declarations of a document. Where there is none, there are none.
pub open spec fn decls_in(doc: Option<DocModel>) -> Seq<MarkedDeclModel> {
    match doc {
        Some(doc) => marked_decls(doc.bytes, doc.nodes),
        None => Seq::empty(),
    }
}

/// Whether a document can be read to have the given marked declarations.
pub open spec fn may_declare(indexer: Indexer, uri: Seq<char>, decls: Seq<MarkedDeclModel>) -> bool {
    exists|doc: Option<DocModel>| #[trigger]
        may_be_read(uri, indexer.source_of(uri), doc) && decls == decls_in(doc)
}

/// Whether a document can be read to have some marked declarations, be it none.
pub open spec fn is_readable(indexer: Indexer, uri: Seq<char>) -> bool {
    exists|decls: Seq<MarkedDeclModel>| may_declare(indexer, uri, decls)
}

/// An index, and the marked declarations that each document is read to have.
pub struct Reading {
    pub indexer: Indexer,
    pub decls: spec_fn(Seq<char>) -> Seq<MarkedDeclModel>,
}

impl Reading {
    /// The package of an indexed file, where it has one.
    pub open spec fn package_of(self, uri: Seq<char>) -> Option<Seq<char>> {
        self.indexer.package_of(uri)
    }

    /// The places where a name is defined.
    pub open spec fn locations_of(self, name: Seq<char>) -> Seq<LocationModel> {
        self.indexer.locations_of(name)
    }

    /// Whether every document of an index that can be read at all is read in a way that it can
    /// be.
    pub open spec fn is_possible(self, indexer: Indexer) -> bool {
        &&& self.indexer == indexer
        &&& forall|uri: Seq<char>|
            is_readable(indexer, uri) ==> may_declare(
                indexer,
                uri,
                #[trigger] decls_of(self, uri),
            )
    }

    /// Whether what was read already is read so.
    pub open spec fn agrees(self, indexer: Indexer, cache: DeclCache) -> bool {
        &&& self.indexer == indexer
        &&& forall|uri: Seq<char>| #[trigger]
            cache@.contains_key(uri) ==> cache@[uri].deep_view() == decls_of(self, uri)
    }
}

/// The marked declarations that a document is read to have.
pub open spec fn decls_of(reading: Reading, uri: Seq<char>) -> Seq<MarkedDeclModel> {
    (reading.decls)(uri)
}

/// Whether more documents were read, in a way that they can be read, and those that were read
/// before are kept as they are.
pub open spec fn read_more(indexer: Indexer, before: DeclCache, after: DeclCache) -> bool {
    &&& after.wf()
    &&& forall|uri: Seq<char>| #[trigger]
        before@.contains_key(uri) ==> after@.contains_key(uri) && after@[uri] == before@[uri]
    &&& forall|uri: Seq<char>| #[trigger]
        after@.contains_key(uri) && !before@.contains_key(uri) ==> may_declare(
            indexer,
            uri,
            after@[uri].deep_view(),
        )
}

/// The mark of the first of the listed declarations that has the given name: `true` for
/// `expect`.
pub open spec fn mark_of_name(decls: Seq<MarkedDeclModel>, name: Seq<char>) -> Option<bool>
    decreases decls.len(),
{
    if decls.len() == 0 {
        None
    } else if decls.first().0 == name {
        Some(decls.first().2)
    } else {
        mark_of_name(decls.drop_first(), name)
    }
}

/// Whether the first of the listed declarations of a name has the wanted mark.
pub open spec fn marked_so(
    decls: Seq<MarkedDeclModel>,
    name: Seq<char>,
    must_be_actual: bool,
) -> bool {
    mark_of_name(decls, name) == Some(!must_be_actual)
}

/// Whether the first declaration of a name in a document has the wanted mark.
pub open spec fn has_mark(
    reading: Reading,
    uri: Seq<char>,
    name: Seq<char>,
    must_be_actual: bool,
) -> bool {
    marked_so(decls_of(reading, uri), name, must_be_actual)
}

/// Whether the counterpart of a declaration is an `actual` one: that of an `expect` always is,
/// and that of an `actual` is unless it stands in the common source set.
pub open spec fn wants_actual(is_expect: bool, target_set: Seq<char>) -> bool {
    is_expect || target_set != "common"@
}

/// Whether a location is a counterpart of a declaration: it stands in another file of the same
/// package and another source set, and has the mark that goes with the declaration's.
pub open spec fn is_counterpart(
    reading: Reading,
    name: Seq<char>,
    package: Seq<char>,
    uri: Seq<char>,
    is_expect: bool,
    location: LocationModel,
) -> bool {
    &&& location.uri != uri
    &&& reading.package_of(location.uri) == Some(package)
    &&& set_of_uri(location.uri) matches Some(target_set)
    &&& set_of_uri(uri) != Some(target_set)
    &&& has_mark(reading, location.uri, name, wants_actual(is_expect, target_set))
}

/// The counterparts among the listed locations, each with the label of its source set.
pub open spec fn counterparts_among(
    reading: Reading,
    name: Seq<char>,
    package: Seq<char>,
    uri: Seq<char>,
    is_expect: bool,
    locations: Seq<LocationModel>,
) -> Seq<(Seq<char>, LocationModel)>
    decreases locations.len(),
{
    if locations.len() == 0 {
        Seq::empty()
    } else {
        let before = counterparts_among(
            reading,
            name,
            package,
            uri,
            is_expect,
            locations.drop_last(),
        );
        let location = locations.last();
        if is_counterpart(reading, name, package, uri, is_expect, location) {
            before.push((label_of(set_of_uri(location.uri)->0), location))
        } else {
            before
        }
    }
}

/// The counterparts of a declaration, in the order of the name's definitions.
///
/// A declaration outside any package has none.
pub open spec fn counterparts(
    reading: Reading,
    name: Seq<char>,
    package: Option<Seq<char>>,
    uri: Seq<char>,
    is_expect: bool,
) -> Seq<(Seq<char>, LocationModel)> {
    match package {
        Some(package) => counterparts_among(
            reading,
            name,
            package,
            uri,
            is_expect,
            reading.locations_of(name),
        ),
        None => Seq::empty(),
    }
}

/// A position as JSON.
pub open spec fn position_json(position: Position) -> JsonModel {
    JsonModel::Object(
        seq![
            ("line"@, JsonModel::Unsigned(position.line as u64)),
            ("character"@, JsonModel::Unsigned(position.character as u64)),
        ],
    )
}

/// A range as JSON.
pub open spec fn range_json(range: Range) -> JsonModel {
    JsonModel::Object(
        seq![("start"@, position_json(range.start)), ("end"@, position_json(range.end))],
    )
}

/// A location as JSON.
pub open spec fn location_json(location: LocationModel) -> JsonModel {
    JsonModel::Object(
        seq![("uri"@, JsonModel::Str(location.uri)), ("range"@, range_json(location.range))],
    )
}

/// The arguments of the command that leads to a location.
pub open spec fn navigate_arguments(target: LocationModel) -> Seq<JsonModel> {
    seq![
        JsonModel::Str(target.uri),
        position_json(target.range.start),
        JsonModel::Array(seq![location_json(target)]),
        JsonModel::Str("goto"@),
    ]
}

/// The lens at a range that leads to a location.
pub open spec fn navigate_lens(
    range: Range,
    title: Seq<char>,
    target: LocationModel,
) -> CodeLensModel {
    CodeLensModel {
        range,
        command: Some(
            CommandModel {
                title,
                command: GO_TO_LOCATIONS@,
                arguments: Some(navigate_arguments(target)),
            },
        ),
        data: None,
    }
}

/// The lenses at a range that lead to the listed counterparts.
pub open spec fn lenses_to(
    range: Range,
    targets: Seq<(Seq<char>, LocationModel)>,
) -> Seq<CodeLensModel> {
    Seq::new(targets.len(), |i: int| navigate_lens(range, targets[i].0, targets[i].1))
}

/// The lenses of the listed declarations of a document.
pub open spec fn lenses_among(
    reading: Reading,
    uri: Seq<char>,
    decls: Seq<MarkedDeclModel>,
) -> Seq<CodeLensModel>
    decreases decls.len(),
{
    if decls.len() == 0 {
        Seq::empty()
    } else {
        let (name, range, is_expect) = decls.last();
        lenses_among(reading, uri, decls.drop_last()) + lenses_to(
            range,
            counterparts(reading, name, reading.package_of(uri), uri, is_expect),
        )
    }
}

/// The lenses of a document.
pub open spec fn code_lenses(reading: Reading, uri: Seq<char>) -> Seq<CodeLensModel> {
    lenses_among(reading, uri, decls_of(reading, uri))
}

/// Keeps the marked declarations of a document.
pub fn remember_declarations(cache: &mut DeclCache, uri: &str, doc: Option<&LiveDoc>)
    requires
        old(cache).wf(),
        doc matches Some(doc) ==> doc.wf(),
    ensures
        final(cache).wf(),
        final(cache)@ == old(cache)@.insert(uri@, final(cache)@[uri@]),
        final(cache)@[uri@].deep_view() == decls_in(
            optional_model(
                match doc {
                    Some(doc) => Some(*doc),
                    None => None,
                },
            ),
        ),
{
    let decls = match doc {
        Some(doc) => detect_expect_actual(doc),
        None => {
            let none: Vec<MarkedDecl> = Vec::new();
            assert(none.deep_view() =~= Seq::<MarkedDeclModel>::empty());
            none
        },
    };
    cache.insert(uri.to_owned(), decls);
}

/// Whether the first declaration of a name in a document has the wanted mark.
///
/// The document's declarations are looked up in the cache. Those of a document that is not there
/// are read, and kept there.
pub fn symbol_has_modifier(
    indexer: &Indexer,
    uri: &str,
    name: &str,
    must_be_actual: bool,
    cache: &mut DeclCache,
) -> (r: bool)
    requires
        indexer.wf(),
        old(cache).wf(),
    ensures
        final(cache).wf(),
        final(cache)@ == old(cache)@.insert(uri@, final(cache)@[uri@]),
        old(cache)@.contains_key(uri@) ==> final(cache)@[uri@] == old(cache)@[uri@],
        !old(cache)@.contains_key(uri@) ==> may_declare(
            *indexer,
            uri@,
            final(cache)@[uri@].deep_view(),
        ),
        r == marked_so(final(cache)@[uri@].deep_view(), name@, must_be_actual),
{
    if !cache.contains_key(uri) {
        let doc = indexer.live_doc_or_parse(uri);
        remember_declarations(cache, uri, doc.as_ref());
        assert(may_be_read(uri@, indexer.source_of(uri@), optional_model(doc)));
    }
    assert(cache@ =~= old(cache)@.insert(uri@, cache@[uri@]));
    match cache.get(uri) {
        Some(decls) => match first_mark_of_name(decls, name) {
            Some(is_expect) => is_expect != must_be_actual,
            None => false,
        },
        None => false,
    }
}

/// The mark of the first of the listed declarations that has the given name.
fn first_mark_of_name(decls: &Vec<MarkedDecl>, name: &str) -> (r: Option<bool>)
    ensures
        r == mark_of_name(decls.deep_view(), name@),
{
    let ghost all = decls.deep_view();
    let mut i: usize = 0;
    assert(all.skip(0) =~= all);
    while i < decls.len()
        invariant
            i <= decls@.len(),
            all == decls.deep_view(),
            mark_of_name(all.skip(i as int), name@) == mark_of_name(all, name@),
        decreases decls.len() - i,
    {
        assert(all[i as int] == decls@[i as int].deep_view());
        assert(all.skip(i as int).drop_first() =~= all.skip(i + 1));
        if same_text(&decls[i].0, name) {
            return Some(decls[i].2);
        }
        i += 1;
    }
    None
}

/// Whether a document holds a definition of a name whose mark is looked at: it stands in another
/// file of the package and another source set.
pub open spec fn is_looked_at(
    indexer: Indexer,
    name: Seq<char>,
    package: Seq<char>,
    uri: Seq<char>,
    other: Seq<char>,
) -> bool {
    &&& other != uri
    &&& indexer.package_of(other) == Some(package)
    &&& set_of_uri(other) is Some
    &&& set_of_uri(other) != set_of_uri(uri)
    &&& exists|i: int|
        0 <= i < indexer.locations_of(name).len() && (#[trigger] indexer.locations_of(name)[i]).uri
            == other
}

/// The counterparts of a declaration, each with the label of its source set.
///
/// The documents that hold definitions to look at are read where the cache does not have them.
pub fn resolve_counterparts(
    indexer: &Indexer,
    name: &str,
    pkg: Option<&str>,
    cur_uri: &str,
    is_expect: bool,
    symbol_cache: &mut DeclCache,
) -> (r: Vec<(String, Location)>)
    requires
        indexer.wf(),
        old(symbol_cache).wf(),
    ensures
        read_more(*indexer, *old(symbol_cache), *final(symbol_cache)),
        forall|uri: Seq<char>| #[trigger]
            final(symbol_cache)@.contains_key(uri) && !old(symbol_cache)@.contains_key(uri) ==> (pkg
                matches Some(package) && is_looked_at(*indexer, name@, package@, cur_uri@, uri)),
        forall|reading: Reading| #[trigger]
            reading.agrees(*indexer, *final(symbol_cache)) ==> r.deep_view() == counterparts(
                reading,
                name@,
                pkg.deep_view(),
                cur_uri@,
                is_expect,
            ),
{
    let mut results: Vec<(String, Location)> = Vec::new();
    assert(results.deep_view() =~= Seq::<(Seq<char>, LocationModel)>::empty());
    let package = match pkg {
        Some(package) => package,
        None => return results,
    };
    let cur_set = classify_source_set(cur_uri);
    let locations = indexer.definition_locations(name);
    let ghost all = locations.deep_view();
    let mut i: usize = 0;
    assert(all.take(0) =~= Seq::<LocationModel>::empty());
    while i < locations.len()
        invariant
            i <= locations@.len(),
            indexer.wf(),
            symbol_cache.wf(),
            read_more(*indexer, *old(symbol_cache), *symbol_cache),
            forall|uri: Seq<char>| #[trigger]
                symbol_cache@.contains_key(uri) && !old(symbol_cache)@.contains_key(uri)
                    ==> is_looked_at(*indexer, name@, package@, cur_uri@, uri),
            all == locations.deep_view(),
            all == indexer.locations_of(name@),
            cur_set.deep_view() == set_of_uri(cur_uri@),
            forall|reading: Reading| #[trigger]
                reading.agrees(*indexer, *symbol_cache) ==> results.deep_view()
                    == counterparts_among(
                    reading,
                    name@,
                    package@,
                    cur_uri@,
                    is_expect,
                    all.take(i as int),
                ),
        decreases locations.len() - i,
    {
        let location = &locations[i];
        let ghost before = results.deep_view();
        let ghost cache_before = *symbol_cache;
        assert(all[i as int] == location.deep_view());
        assert(all.take(i + 1).drop_last() =~= all.take(i as int));
        let found = counterpart_set(
            indexer,
            name,
            package,
            cur_uri,
            &cur_set,
            is_expect,
            location,
            symbol_cache,
        );
        assert(indexer.locations_of(name@)[i as int].uri == location.uri@);
        if let Some(target_set) = found {
            let counterpart = (target_label(&target_set), location.clone());
            results.push(counterpart);
            assert(results.deep_view() =~= before.push(counterpart.deep_view()));
        }
        proof {
            assert forall|reading: Reading| #[trigger]
                reading.agrees(*indexer, *symbol_cache) implies results.deep_view()
                == counterparts_among(
                reading,
                name@,
                package@,
                cur_uri@,
                is_expect,
                all.take(i + 1),
            ) by {
                assert(reading.agrees(*indexer, cache_before));
            }
        }
        i += 1;
    }
    assert(all.take(i as int) =~= all);
    results
}

/// The source set of a location, where the location is a counterpart of a declaration.
fn counterpart_set(
    indexer: &Indexer,
    name: &str,
    package: &str,
    cur_uri: &str,
    cur_set: &Option<String>,
    is_expect: bool,
    location: &Location,
    cache: &mut DeclCache,
) -> (r: Option<String>)
    requires
        indexer.wf(),
        old(cache).wf(),
        cur_set.deep_view() == set_of_uri(cur_uri@),
    ensures
        read_more(*indexer, *old(cache), *final(cache)),
        forall|uri: Seq<char>| #[trigger]
            final(cache)@.contains_key(uri) && !old(cache)@.contains_key(uri) ==> {
                &&& uri == location.uri@
                &&& uri != cur_uri@
                &&& indexer.package_of(uri) == Some(package@)
                &&& set_of_uri(uri) is Some
                &&& set_of_uri(uri) != set_of_uri(cur_uri@)
            },
        r matches Some(set) ==> set_of_uri(location.uri@) == Some(set@),
        forall|reading: Reading| #[trigger]
            reading.agrees(*indexer, *final(cache)) ==> (r is Some <==> is_counterpart(
                reading,
                name@,
                package@,
                cur_uri@,
                is_expect,
                location.deep_view(),
            )),
{
    if same_text(&location.uri, cur_uri) {
        return None;
    }
    match indexer.file_data_for(&location.uri) {
        Some(data) => match &data.package {
            Some(theirs) => if !same_text(theirs, package) {
                return None;
            },
            None => return None,
        },
        None => return None,
    }
    let target_set = match classify_source_set(&location.uri) {
        Some(set) => set,
        None => return None,
    };
    if let Some(ours) = cur_set {
        if same_text(ours, &target_set) {
            return None;
        }
    }
    let must_be_actual = is_expect || !same_text(&target_set, "common");
    let marked = symbol_has_modifier(indexer, &location.uri, name, must_be_actual, cache);
    assert(cache@.contains_key(location.uri@));
    if marked {
        Some(target_set)
    } else {
        None
    }
}

/// A position as JSON.
fn position_value(position: &Position) -> (r: JsonValue)
    ensures
        r.deep_view() == position_json(*position),
{
    JsonValue::pair(
        "line",
        JsonValue::Unsigned(position.line as u64),
        "character",
        JsonValue::Unsigned(position.character as u64),
    )
}

/// A location as JSON.
fn location_value(location: &Location) -> (r: JsonValue)
    ensures
        r.deep_view() == location_json(location.deep_view()),
{
    let range = JsonValue::pair(
        "start",
        position_value(&location.range.start),
        "end",
        position_value(&location.range.end),
    );
    JsonValue::pair("uri", JsonValue::Str(location.uri.clone()), "range", range)
}

/// The lens at a range that leads to a location.
pub fn make_navigate_lens(range: Range, title: &str, target: &Location) -> (r: CodeLens)
    ensures
        r.deep_view() == navigate_lens(range, title@, target.deep_view()),
{
    let mut locations: Vec<JsonValue> = Vec::new();
    locations.push(location_value(target));
    let list = JsonValue::Array(locations);
    assert(list.deep_view()->Array_0 =~= seq![location_json(target.deep_view())]);
    let mut arguments: Vec<JsonValue> = Vec::new();
    arguments.push(JsonValue::Str(target.uri.clone()));
    arguments.push(position_value(&target.range.start));
    arguments.push(list);
    arguments.push(JsonValue::Str("goto".to_owned()));
    assert(arguments.deep_view() =~= navigate_arguments(target.deep_view()));
    CodeLens {
        range,
        command: Some(
            Command {
                title: title.to_owned(),
                command: GO_TO_LOCATIONS.to_owned(),
                arguments: Some(arguments),
            },
        ),
        data: None,
    }
}

/// The lenses at the listed declarations of a document, one for each counterpart.
///
/// The documents that hold definitions to look at are read where the cache does not have them.
pub fn lenses_at(
    indexer: &Indexer,
    uri: &str,
    symbols: &Vec<MarkedDecl>,
    cache: &mut DeclCache,
) -> (r: Vec<CodeLens>)
    requires
        indexer.wf(),
        old(cache).wf(),
    ensures
        read_more(*indexer, *old(cache), *final(cache)),
        final(cache)@.contains_key(uri@) <==> old(cache)@.contains_key(uri@),
        forall|reading: Reading| #[trigger]
            reading.agrees(*indexer, *final(cache)) ==> r.deep_view() == lenses_among(
                reading,
                uri@,
                symbols.deep_view(),
            ),
{
    let mut lenses: Vec<CodeLens> = Vec::new();
    assert(lenses.deep_view() =~= Seq::<CodeLensModel>::empty());
    let cur_pkg = match indexer.file_data_for(uri) {
        Some(data) => match &data.package {
            Some(package) => Some(package.as_str()),
            None => None,
        },
        None => None,
    };
    let ghost all = symbols.deep_view();
    let mut i: usize = 0;
    assert(all.take(0) =~= Seq::<MarkedDeclModel>::empty());
    while i < symbols.len()
        invariant
            i <= symbols@.len(),
            indexer.wf(),
            cache.wf(),
            read_more(*indexer, *old(cache), *cache),
            cache@.contains_key(uri@) <==> old(cache)@.contains_key(uri@),
            all == symbols.deep_view(),
            cur_pkg.deep_view() == indexer.package_of(uri@),
            forall|reading: Reading| #[trigger]
                reading.agrees(*indexer, *cache) ==> lenses.deep_view() == lenses_among(
                    reading,
                    uri@,
                    all.take(i as int),
                ),
        decreases symbols.len() - i,
    {
        let (name, range, is_expect) = &symbols[i];
        assert(all[i as int] == symbols@[i as int].deep_view());
        assert(all.take(i + 1).drop_last() =~= all.take(i as int));
        let ghost cache_before = *cache;
        let targets = resolve_counterparts(indexer, name, cur_pkg, uri, *is_expect, cache);
        let ghost before = lenses.deep_view();
        push_lenses(*range, &targets, &mut lenses);
        proof {
            assert forall|reading: Reading| #[trigger]
                reading.agrees(*indexer, *cache) implies lenses.deep_view() == lenses_among(
                reading,
                uri@,
                all.take(i + 1),
            ) by {
                assert(reading.agrees(*indexer, cache_before));
            }
        }
        i += 1;
    }
    assert(all.take(i as int) =~= all);
    lenses
}

/// Adds the lenses at a range that lead to the listed counterparts.
fn push_lenses(range: Range, targets: &Vec<(String, Location)>, lenses: &mut Vec<CodeLens>)
    ensures
        final(lenses).deep_view() == old(lenses).deep_view() + lenses_to(
            range,
            targets.deep_view(),
        ),
{
    let ghost before = lenses.deep_view();
    let ghost wanted = lenses_to(range, targets.deep_view());
    let mut j: usize = 0;
    assert(lenses.deep_view() =~= before + wanted.take(0));
    while j < targets.len()
        invariant
            j <= targets@.len(),
            wanted == lenses_to(range, targets.deep_view()),
            lenses.deep_view() == before + wanted.take(j as int),
        decreases targets.len() - j,
    {
        let (label, target) = &targets[j];
        let lens = make_navigate_lens(range, label, target);
        let ghost so_far = lenses.deep_view();
        assert(wanted[j as int] == lens.deep_view());
        lenses.push(lens);
        assert(lenses.deep_view() =~= so_far.push(lens.deep_view()));
        assert(wanted.take(j + 1) =~= wanted.take(j as int).push(lens.deep_view()));
        assert(lenses.deep_view() =~= before + wanted.take(j + 1));
        j += 1;
    }
    assert(wanted.take(j as int) =~= wanted);
}

/// What was read of some documents, each in a way that it can be read, is part of a possible
/// reading of all.
pub proof fn lemma_possible_reading(indexer: Indexer, cache: DeclCache) -> (reading: Reading)
    requires
        forall|uri: Seq<char>| #[trigger]
            cache@.contains_key(uri) ==> may_declare(indexer, uri, cache@[uri].deep_view()),
    ensures
        reading.is_possible(indexer),
        reading.agrees(indexer, cache),
{
    let reading = Reading {
        indexer,
        decls: |uri: Seq<char>|
            if cache@.contains_key(uri) {
                cache@[uri].deep_view()
            } else {
                choose|decls: Seq<MarkedDeclModel>| may_declare(indexer, uri, decls)
            },
    };
    assert forall|uri: Seq<char>| is_readable(indexer, uri) implies may_declare(
        indexer,
        uri,
        #[trigger] decls_of(reading, uri),
    ) by {}
    reading
}

/// The lenses of a document: for each of its marked declarations, one for each counterpart.
pub fn compute_code_lens(indexer: &Indexer, uri: &str) -> (r: Vec<CodeLens>)
    requires
        indexer.wf(),
    ensures
        exists|reading: Reading| #[trigger]
            reading.is_possible(*indexer) && r.deep_view() == code_lenses(reading, uri@),
{
    let mut cache: DeclCache = StringMap::new();
    let doc = indexer.live_doc_or_parse(uri);
    let symbols = match &doc {
        Some(doc) => detect_expect_actual(doc),
        None => {
            let none: Vec<MarkedDecl> = Vec::new();
            assert(none.deep_view() =~= Seq::<MarkedDeclModel>::empty());
            none
        },
    };
    let lenses = lenses_at(indexer, uri, &symbols, &mut cache);
    proof {
        assert(may_be_read(uri@, indexer.source_of(uri@), optional_model(doc)));
        let others = lemma_possible_reading(*indexer, cache);
        let reading = Reading {
            indexer: *indexer,
            decls: |other: Seq<char>|
                if other == uri@ {
                    symbols.deep_view()
                } else {
                    decls_of(others, other)
                },
        };
        assert forall|other: Seq<char>| is_readable(*indexer, other) implies may_declare(
            *indexer,
            other,
            #[trigger] decls_of(reading, other),
        ) by {
            assert(may_declare(*indexer, other, decls_of(others, other)));
        }
        assert(reading.is_possible(*indexer));
        assert(reading.agrees(*indexer, cache));
        assert(decls_of(reading, uri@) == symbols.deep_view());
    }
    lenses
}

/// Answers a request for the lenses of a document, which only Kotlin documents have.
pub fn code_lens(indexer: &Indexer, uri: &str) -> (r: Option<Vec<CodeLens>>)
    requires
        indexer.wf(),
    ensures
        r is Some <==> is_kotlin(uri@),
        r matches Some(lenses) ==> exists|reading: Reading| #[trigger]
            reading.is_possible(*indexer) && lenses.deep_view() == code_lenses(reading, uri@),
{
    if is_kotlin_uri(uri) {
        Some(compute_code_lens(indexer, uri))
    } else {
        None
    }
}

}
