//! What the server knows of a workspace: indexed files, definitions, and the state of the
//! documents that are open in the editor.

use crate::protocol::{Location, LocationModel};
use crate::string_map::StringMap;
use crate::syntax::{
    doc_model, may_parse, optional_model, parse_live, within_limits, DocModel, LiveDoc,
};
use crate::text::ends_with;
use crate::urls::{path_of_url, url_path};
use vstd::prelude::*;

verus! {

/// What the index holds of a file.
#[derive(Debug, PartialEq, Eq)]
pub struct FileData {
    pub package: Option<String>,
    pub text: String,
}

/// What a document is read from.
pub enum DocSource {
    /// A stored parse.
    Stored(DocModel),
    /// A text that is yet to be parsed.
    Text(Seq<char>),
    /// Nothing: the document is not in memory.
    Absent,
}

/// The index of a workspace. Files and open documents are known by their addresses.
#[derive(Debug)]
pub struct Indexer {
    pub files: StringMap<FileData>,
    pub definitions: StringMap<Vec<Location>>,
    pub live_trees: StringMap<LiveDoc>,
    pub live_lines: StringMap<String>,
}

/// Whether a path is that of a Kotlin source, told by its end.
pub open spec fn names_kotlin(path: Seq<char>) -> bool {
    ".kt"@.is_suffix_of(path) || ".kts"@.is_suffix_of(path)
}

/// Whether a document is written in Kotlin, told by the path of its address.
pub open spec fn is_kotlin(uri: Seq<char>) -> bool {
    path_of_url(uri) matches Some(path) && names_kotlin(path)
}

/// Whether the text of the document with the given address is parsed: it is Kotlin, within the
/// limits of the parser.
pub open spec fn is_parsed(uri: Seq<char>, text: Seq<char>) -> bool {
    is_kotlin(uri) && within_limits(text)
}

/// Whether a document, or that there is none, can come of parsing the text of the document with
/// the given address. Only Kotlin is parsed.
pub open spec fn may_be_parsed(uri: Seq<char>, text: Seq<char>, doc: Option<DocModel>) -> bool {
    if is_kotlin(uri) {
        may_parse(text, doc)
    } else {
        doc is None
    }
}

/// Whether a document, or that there is none, can come of reading the document with the given
/// address from a source.
pub open spec fn may_be_read(uri: Seq<char>, source: DocSource, doc: Option<DocModel>) -> bool {
    match source {
        DocSource::Stored(stored) => doc == Some(stored),
        DocSource::Text(text) => may_be_parsed(uri, text, doc),
        DocSource::Absent => doc is None,
    }
}

/// Whether there is a document to read from a source.
pub open spec fn is_there(uri: Seq<char>, source: DocSource) -> bool {
    match source {
        DocSource::Stored(_) => true,
        DocSource::Text(text) => is_parsed(uri, text),
        DocSource::Absent => false,
    }
}

/// Whether the stored parse of a document is one of the given text.
pub open spec fn holds_parse_of(
    trees: Map<Seq<char>, LiveDoc>,
    uri: Seq<char>,
    text: Seq<char>,
) -> bool {
    trees.contains_key(uri) && may_parse(text, Some(doc_model(trees[uri])))
}

/// Whether the stored parses took in what came of parsing a document: its parse takes the place
/// of the one before, and where there is none the one before stays.
pub open spec fn took_in(
    before: Map<Seq<char>, LiveDoc>,
    uri: Seq<char>,
    doc: Option<DocModel>,
    after: Map<Seq<char>, LiveDoc>,
) -> bool {
    match doc {
        Some(doc) => {
            &&& after.dom() == before.dom().insert(uri)
            &&& doc_model(after[uri]) == doc
            &&& forall|other: Seq<char>|
                other != uri ==> #[trigger] after[other] == before[other]
        },
        None => after == before,
    }
}

impl Indexer {
    /// Every part of the index is valid.
    pub open spec fn wf(&self) -> bool {
        &&& self.files.wf()
        &&& self.definitions.wf()
        &&& self.live_trees.wf()
        &&& self.live_lines.wf()
        &&& forall|uri: Seq<char>| #[trigger]
            self.live_trees@.contains_key(uri) ==> self.live_trees@[uri].wf()
    }

    /// The package of an indexed file, where it has one.
    pub open spec fn package_of(&self, uri: Seq<char>) -> Option<Seq<char>> {
        if self.files@.contains_key(uri) {
            self.files@[uri].package.deep_view()
        } else {
            None
        }
    }

    /// The places where a name is defined.
    pub open spec fn locations_of(&self, name: Seq<char>) -> Seq<LocationModel> {
        if self.definitions@.contains_key(name) {
            self.definitions@[name].deep_view()
        } else {
            Seq::empty()
        }
    }

    /// The latest text of a document that is in memory: what the editor holds, or else what was
    /// indexed.
    pub open spec fn text_of(&self, uri: Seq<char>) -> Option<Seq<char>> {
        if self.live_lines@.contains_key(uri) {
            Some(self.live_lines@[uri]@)
        } else if self.files@.contains_key(uri) {
            Some(self.files@[uri].text@)
        } else {
            None
        }
    }

    /// What a document is read from: its stored parse, or else its latest text.
    pub open spec fn source_of(&self, uri: Seq<char>) -> DocSource {
        if self.live_trees@.contains_key(uri) {
            DocSource::Stored(doc_model(self.live_trees@[uri]))
        } else {
            match self.text_of(uri) {
                Some(text) => DocSource::Text(text),
                None => DocSource::Absent,
            }
        }
    }

    /// An index that knows nothing.
    pub fn new() -> (r: Self)
        ensures
            r.wf(),
            r.files@ == Map::<Seq<char>, FileData>::empty(),
            r.definitions@ == Map::<Seq<char>, Vec<Location>>::empty(),
            r.live_trees@ == Map::<Seq<char>, LiveDoc>::empty(),
            r.live_lines@ == Map::<Seq<char>, String>::empty(),
    {
        Indexer {
            files: StringMap::new(),
            definitions: StringMap::new(),
            live_trees: StringMap::new(),
            live_lines: StringMap::new(),
        }
    }

    /// What the index holds of a file.
    pub fn file_data_for(&self, uri: &str) -> (r: Option<&FileData>)
        requires
            self.wf(),
        ensures
            match r {
                Some(data) => self.files@.contains_key(uri@) && *data == self.files@[uri@],
                None => !self.files@.contains_key(uri@),
            },
    {
        self.files.get(uri)
    }

    /// The places where a name is defined.
    pub fn definition_locations(&self, name: &str) -> (r: Vec<Location>)
        requires
            self.wf(),
        ensures
            r.deep_view() == self.locations_of(name@),
    {
        match self.definitions.get(name) {
            Some(list) => {
                let copy = list.clone();
                proof {
                    assert forall|i: int| 0 <= i < list@.len() implies #[trigger] copy@[i]
                        == list@[i] by {
                        assert(cloned(list@[i], copy@[i]));
                    }
                    assert(copy.deep_view() =~= list.deep_view());
                }
                copy
            },
            None => {
                let none: Vec<Location> = Vec::new();
                assert(none.deep_view() =~= Seq::<LocationModel>::empty());
                none
            },
        }
    }

    /// The stored parse of a document.
    pub fn live_doc(&self, uri: &str) -> (r: Option<LiveDoc>)
        requires
            self.wf(),
        ensures
            match r {
                Some(doc) => {
                    &&& doc.wf()
                    &&& self.live_trees@.contains_key(uri@)
                    &&& doc_model(doc) == doc_model(self.live_trees@[uri@])
                },
                None => !self.live_trees@.contains_key(uri@),
            },
    {
        match self.live_trees.get(uri) {
            Some(doc) => Some(doc.clone()),
            None => None,
        }
    }

    /// The parsed document with the given address: the stored one, or else the latest text in
    /// memory, parsed.
    pub fn live_doc_or_parse(&self, uri: &str) -> (r: Option<LiveDoc>)
        requires
            self.wf(),
        ensures
            r is Some <==> is_there(uri@, self.source_of(uri@)),
            may_be_read(uri@, self.source_of(uri@), optional_model(r)),
            r matches Some(doc) ==> doc.wf(),
    {
        if let Some(doc) = self.live_trees.get(uri) {
            return Some(doc.clone());
        }
        if let Some(text) = self.live_lines.get(uri) {
            return parse_document(uri, text);
        }
        match self.files.get(uri) {
            Some(data) => parse_document(uri, &data.text),
            None => None,
        }
    }

    /// Records what was indexed of a file.
    pub fn set_file(&mut self, uri: &str, data: FileData)
        requires
            old(self).wf(),
        ensures
            final(self).wf(),
            final(self).files@ == old(self).files@.insert(uri@, data),
            final(self).definitions == old(self).definitions,
            final(self).live_trees == old(self).live_trees,
            final(self).live_lines == old(self).live_lines,
    {
        self.files.insert(uri.to_owned(), data);
    }

    /// Records one more place where a name is defined.
    pub fn add_definition(&mut self, name: &str, location: Location)
        requires
            old(self).wf(),
        ensures
            final(self).wf(),
            final(self).locations_of(name@) == old(self).locations_of(name@).push(
                location.deep_view(),
            ),
            forall|other: Seq<char>|
                other != name@ ==> #[trigger] final(self).locations_of(other) == old(
                    self,
                ).locations_of(other),
            final(self).files == old(self).files,
            final(self).live_trees == old(self).live_trees,
            final(self).live_lines == old(self).live_lines,
    {
        let ghost before = self.locations_of(name@);
        let mut list = self.definition_locations(name);
        list.push(location);
        assert(list.deep_view() =~= before.push(location.deep_view()));
        self.definitions.insert(name.to_owned(), list);
    }

    /// Forgets an indexed file. Definitions in it stay listed.
    pub fn remove_indexed_file(&mut self, uri: &str)
        requires
            old(self).wf(),
        ensures
            final(self).wf(),
            final(self).files@ == old(self).files@.remove(uri@),
            final(self).definitions == old(self).definitions,
            final(self).live_trees == old(self).live_trees,
            final(self).live_lines == old(self).live_lines,
    {
        let _ = self.files.remove(uri);
    }

    /// Forgets all indexed files and definitions. Open documents stay.
    pub fn reset_index_state(&mut self)
        requires
            old(self).wf(),
        ensures
            final(self).wf(),
            final(self).files@ == Map::<Seq<char>, FileData>::empty(),
            final(self).definitions@ == Map::<Seq<char>, Vec<Location>>::empty(),
            final(self).live_trees == old(self).live_trees,
            final(self).live_lines == old(self).live_lines,
    {
        self.files = StringMap::new();
        self.definitions = StringMap::new();
    }

    /// Records the text that the editor holds of a document.
    pub fn set_live_lines(&mut self, uri: &str, text: &str)
        requires
            old(self).wf(),
        ensures
            final(self).wf(),
            final(self).live_lines@.dom() == old(self).live_lines@.dom().insert(uri@),
            final(self).live_lines@[uri@]@ == text@,
            forall|other: Seq<char>|
                other != uri@ ==> #[trigger] final(self).live_lines@[other] == old(
                    self,
                ).live_lines@[other],
            final(self).files == old(self).files,
            final(self).definitions == old(self).definitions,
            final(self).live_trees == old(self).live_trees,
    {
        self.live_lines.insert(uri.to_owned(), text.to_owned());
        assert(self.live_lines@.dom() =~= old(self).live_lines@.dom().insert(uri@));
    }

    /// Forgets the text that the editor held of a document.
    pub fn remove_live_lines(&mut self, uri: &str)
        requires
            old(self).wf(),
        ensures
            final(self).wf(),
            final(self).live_lines@ == old(self).live_lines@.remove(uri@),
            final(self).files == old(self).files,
            final(self).definitions == old(self).definitions,
            final(self).live_trees == old(self).live_trees,
    {
        let _ = self.live_lines.remove(uri);
    }

    /// Forgets the stored parse of a document.
    pub fn remove_live_tree(&mut self, uri: &str)
        requires
            old(self).wf(),
        ensures
            final(self).wf(),
            final(self).live_trees@ == old(self).live_trees@.remove(uri@),
            final(self).files == old(self).files,
            final(self).definitions == old(self).definitions,
            final(self).live_lines == old(self).live_lines,
    {
        let _ = self.live_trees.remove(uri);
    }

    /// Stores the parse of a document, where there is one.
    pub fn keep_live_tree(&mut self, uri: &str, doc: Option<LiveDoc>)
        requires
            old(self).wf(),
            doc matches Some(doc) ==> doc.wf(),
        ensures
            final(self).wf(),
            took_in(old(self).live_trees@, uri@, optional_model(doc), final(self).live_trees@),
            final(self).files == old(self).files,
            final(self).definitions == old(self).definitions,
            final(self).live_lines == old(self).live_lines,
    {
        if let Some(doc) = doc {
            self.live_trees.insert(uri.to_owned(), doc);
            assert(self.live_trees@.dom() =~= old(self).live_trees@.dom().insert(uri@));
        }
    }

    /// Parses a text and stores the parse of the document, where it is Kotlin that parses.
    pub fn store_live_tree(&mut self, uri: &str, text: &str)
        requires
            old(self).wf(),
        ensures
            final(self).wf(),
            exists|doc: Option<DocModel>| #[trigger]
                may_be_parsed(uri@, text@, doc) && took_in(
                    old(self).live_trees@,
                    uri@,
                    doc,
                    final(self).live_trees@,
                ),
            is_parsed(uri@, text@) ==> holds_parse_of(final(self).live_trees@, uri@, text@),
            !is_parsed(uri@, text@) ==> final(self).live_trees@ == old(self).live_trees@,
            final(self).files == old(self).files,
            final(self).definitions == old(self).definitions,
            final(self).live_lines == old(self).live_lines,
    {
        let doc = parse_document(uri, text);
        let ghost model = optional_model(doc);
        self.keep_live_tree(uri, doc);
        assert(may_be_parsed(uri@, text@, model));
        assert(model is Some ==> self.live_trees@.dom().contains(uri@));
    }
}

/// Whether a path is that of a Kotlin source, told by its end.
pub fn is_kotlin_path(path: &str) -> (r: bool)
    ensures
        r == names_kotlin(path@),
{
    ends_with(path, ".kt") || ends_with(path, ".kts")
}

/// Whether a document is written in Kotlin, told by the path of its address.
pub fn is_kotlin_uri(uri: &str) -> (r: bool)
    ensures
        r == is_kotlin(uri@),
{
    match url_path(uri) {
        Some(path) => is_kotlin_path(&path),
        None => false,
    }
}

/// The document with the given address and text, where it is Kotlin that parses.
pub fn parse_document(uri: &str, text: &str) -> (r: Option<LiveDoc>)
    ensures
        r is Some <==> is_parsed(uri@, text@),
        may_be_parsed(uri@, text@, optional_model(r)),
        r matches Some(doc) ==> doc.wf(),
{
    if is_kotlin_uri(uri) {
        parse_live(text)
    } else {
        None
    }
}

}
