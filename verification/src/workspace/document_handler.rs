//! What happens as documents are opened, closed and deleted.

use crate::features::kmp_expect_diagnostics::SourceDirEntry;
use crate::indexer::{
    holds_parse_of, is_parsed, may_be_parsed, parse_document, took_in, Indexer,
};
use crate::paths::FilePath;
use crate::protocol::{Diagnostic, DiagnosticModel};
use crate::syntax::{doc_model, optional_model, DocModel, LiveDoc};
use crate::urls::{normal_url, normalize_url};
use crate::workspace::diagnostics::{
    first_diagnostics, first_list, full_diagnostics, full_list, may_warn, warnings_of, Findings,
    Publication, PublicationModel,
};
use crate::workspace::directories::{
    auto_detect_workspace_root, detected_level, entries_of, DirectoryLevel,
};
use vstd::prelude::*;

verus! {

/// A file that was opened.
pub struct OpenedFile<P> {
    /// Where its path leads once symbolic links are resolved.
    pub canonical: FilePath,
    /// The directories above it, from the nearest up.
    pub levels: Vec<DirectoryLevel<P>>,
}

/// What to do about a file that was opened.
#[derive(Debug, PartialEq, Eq)]
pub struct OpenPlan<P> {
    /// The workspace root to switch to first.
    pub switch_root: Option<P>,
    /// Whether its content is indexed and nothing is published of it.
    pub content_only: bool,
}

/// Whether a file lies in a directory.
pub open spec fn lies_in(file: Seq<Seq<u8>>, directory: Seq<Seq<u8>>) -> bool {
    directory.is_prefix_of(file)
}

/// Whether a detected root replaces the current one: there is none yet, or the file lies outside
/// the current one and the detected one is another.
pub open spec fn replaces_root(
    file: Seq<Seq<u8>>,
    detected: Seq<Seq<u8>>,
    current: Option<Seq<Seq<u8>>>,
) -> bool {
    match current {
        Some(current) => !lies_in(file, current) && detected != current,
        None => true,
    }
}

/// The directory above an opened file that the workspace root switches to. A pinned root stays.
pub open spec fn switched_level<P>(
    pinned: bool,
    opened: Option<OpenedFile<P>>,
    current: Option<Seq<Seq<u8>>>,
) -> Option<int> {
    if pinned {
        None
    } else {
        match opened {
            Some(file) => match detected_level(entries_of(file.levels@)) {
                Some(i) => if replaces_root(
                    file.canonical.deep_view(),
                    file.levels@[i].canonical.deep_view(),
                    current,
                ) {
                    Some(i)
                } else {
                    None
                },
                None => None,
            },
            None => None,
        }
    }
}

/// Whether an opened file lies outside a pinned workspace root.
pub open spec fn outside_pinned(
    pinned: bool,
    file: Option<Seq<Seq<u8>>>,
    current: Option<Seq<Seq<u8>>>,
) -> bool {
    match (file, current) {
        (Some(file), Some(current)) => pinned && !lies_in(file, current),
        _ => false,
    }
}

/// The workspace root never switches for a file that is treated as lying outside of it.
pub proof fn outside_files_do_not_switch_the_root<P>(
    pinned: bool,
    opened: Option<OpenedFile<P>>,
    file: Option<Seq<Seq<u8>>>,
    current: Option<Seq<Seq<u8>>>,
)
    ensures
        !(switched_level(pinned, opened, current) is Some && outside_pinned(pinned, file, current)),
{
}

/// Once the root has switched to a directory above a file, opening a file in that directory
/// switches nothing.
pub proof fn files_in_the_root_do_not_switch_it<P>(
    pinned: bool,
    file: OpenedFile<P>,
    root: Seq<Seq<u8>>,
)
    requires
        lies_in(file.canonical.deep_view(), root),
    ensures
        switched_level(pinned, Some(file), Some(root)) is None,
        !outside_pinned(pinned, Some(file.canonical.deep_view()), Some(root)),
{
}

/// Where the workspace is not pinned, the root switches to the directory that is detected above
/// an opened file, wherever the file does not lie in the current root and that directory is
/// another one. How the two directories lie to each other does not matter.
pub proof fn files_elsewhere_switch_the_root<P>(
    file: OpenedFile<P>,
    root: Seq<Seq<u8>>,
    i: int,
)
    requires
        detected_level(entries_of(file.levels@)) == Some(i),
        !root.is_prefix_of(file.canonical.deep_view()),
        file.levels@[i].canonical.deep_view() != root,
    ensures
        switched_level(false, Some(file), Some(root)) == Some(i),
{
}

/// Where there is no root yet and the workspace is not pinned, the root becomes the directory
/// that is detected above an opened file.
pub proof fn the_first_file_gives_the_root<P>(file: OpenedFile<P>)
    ensures
        switched_level(false, Some(file), None) == detected_level(entries_of(file.levels@)),
{
}

/// The root stays where the workspace is pinned, where no file is told, where the file lies in
/// the current root, and where the detected directory is the current root.
pub proof fn otherwise_the_root_stays<P>(
    pinned: bool,
    file: OpenedFile<P>,
    root: Option<Seq<Seq<u8>>>,
)
    ensures
        switched_level(true, Some(file), root) is None,
        switched_level::<P>(pinned, None, root) is None,
        root is Some && root->0.is_prefix_of(file.canonical.deep_view()) ==> switched_level(
            pinned,
            Some(file),
            root,
        ) is None,
        root is Some && detected_level(entries_of(file.levels@)) is Some
            && file.levels@[detected_level(entries_of(file.levels@))->0].canonical.deep_view()
            == root->0 ==> switched_level(pinned, Some(file), root) is None,
{
}

/// A file is only indexed, and nothing published of it, exactly where the workspace is pinned and
/// the file does not lie in its root.
pub proof fn outside_files_are_those_beyond_a_pinned_root(
    pinned: bool,
    file: Seq<Seq<u8>>,
    root: Seq<Seq<u8>>,
)
    ensures
        outside_pinned(pinned, Some(file), Some(root)) <==> pinned && !root.is_prefix_of(file),
        !outside_pinned(pinned, None, Some(root)),
        !outside_pinned(pinned, Some(file), None),
{
}

/// Whether a detected root replaces the current one.
pub fn should_switch_workspace_root(
    opened_file_path: &FilePath,
    candidate: &FilePath,
    current_root: Option<&FilePath>,
) -> (r: bool)
    ensures
        r == replaces_root(
            opened_file_path.deep_view(),
            candidate.deep_view(),
            current_root.deep_view(),
        ),
        match current_root {
            Some(current) => r == (!current.deep_view().is_prefix_of(opened_file_path.deep_view())
                && candidate.deep_view() != current.deep_view()),
            None => r,
        },
{
    match current_root {
        Some(current) => !opened_file_path.starts_with(current) && !candidate.same(current),
        None => true,
    }
}

/// The workspace root to switch to for an opened file.
pub fn detect_workspace_root_switch<P>(
    workspace_pinned: bool,
    opened: Option<OpenedFile<P>>,
    current_root: Option<&FilePath>,
) -> (r: Option<P>)
    ensures
        r == (match switched_level(workspace_pinned, opened, current_root.deep_view()) {
            Some(i) => Some(opened->0.levels@[i].path),
            None => None,
        }),
{
    if workspace_pinned {
        return None;
    }
    let file = opened?;
    let i: usize = auto_detect_workspace_root(&file.levels)?;
    if should_switch_workspace_root(&file.canonical, &file.levels[i].canonical, current_root) {
        let mut levels = file.levels;
        Some(levels.swap_remove(i).path)
    } else {
        None
    }
}

/// Whether an opened file lies outside a pinned workspace root.
pub fn is_outside_pinned_workspace_root(
    workspace_pinned: bool,
    opened_file_path: Option<&FilePath>,
    current_root: Option<&FilePath>,
) -> (r: bool)
    ensures
        r == outside_pinned(
            workspace_pinned,
            opened_file_path.deep_view(),
            current_root.deep_view(),
        ),
{
    if !workspace_pinned {
        return false;
    }
    match (opened_file_path, current_root) {
        (Some(file), Some(current)) => !file.starts_with(current),
        _ => false,
    }
}

/// What to do about a file that was opened.
pub fn handle_file_opened<P>(
    workspace_pinned: bool,
    opened: Option<OpenedFile<P>>,
    current_root: Option<&FilePath>,
) -> (r: OpenPlan<P>)
    ensures
        r.switch_root == (match switched_level(
            workspace_pinned,
            opened,
            current_root.deep_view(),
        ) {
            Some(i) => Some(opened->0.levels@[i].path),
            None => None,
        }),
        r.content_only == outside_pinned(
            workspace_pinned,
            match opened {
                Some(file) => Some(file.canonical.deep_view()),
                None => None,
            },
            current_root.deep_view(),
        ),
{
    let content_only = match &opened {
        Some(file) => is_outside_pinned_workspace_root(
            workspace_pinned,
            Some(&file.canonical),
            current_root,
        ),
        None => false,
    };
    OpenPlan {
        switch_root: detect_workspace_root_switch(workspace_pinned, opened, current_root),
        content_only,
    }
}

/// Records the text of a document that was opened, and its parse.
pub fn store_live_document_state(indexer: &mut Indexer, uri: &str, content: &str)
    requires
        old(indexer).wf(),
    ensures
        final(indexer).wf(),
        final(indexer).live_lines@.dom() == old(indexer).live_lines@.dom().insert(uri@),
        final(indexer).live_lines@[uri@]@ == content@,
        forall|other: Seq<char>|
            other != uri@ ==> #[trigger] final(indexer).live_lines@[other] == old(
                indexer,
            ).live_lines@[other],
        exists|doc: Option<DocModel>| #[trigger]
            may_be_parsed(uri@, content@, doc) && took_in(
                old(indexer).live_trees@,
                uri@,
                doc,
                final(indexer).live_trees@,
            ),
        is_parsed(uri@, content@) ==> holds_parse_of(final(indexer).live_trees@, uri@, content@),
        !is_parsed(uri@, content@) ==> final(indexer).live_trees@ == old(indexer).live_trees@,
        final(indexer).files == old(indexer).files,
        final(indexer).definitions == old(indexer).definitions,
        forall|other: Seq<char>|
            other != uri@ ==> #[trigger] final(indexer).source_of(other) == old(indexer).source_of(
                other,
            ),
{
    indexer.set_live_lines(uri, content);
    indexer.store_live_tree(uri, content);
    proof {
        assert forall|other: Seq<char>| other != uri@ implies #[trigger] indexer.source_of(other)
            == old(indexer).source_of(other) by {
            assert(indexer.live_lines@.dom().contains(other) == old(
                indexer,
            ).live_lines@.dom().contains(other));
            assert(indexer.live_lines@[other] == old(indexer).live_lines@[other]);
            assert(indexer.live_trees@.dom().contains(other) == old(
                indexer,
            ).live_trees@.dom().contains(other));
            assert(indexer.live_trees@[other] == old(indexer).live_trees@[other]);
        }
    }
}

/// Forgets a file that was deleted. What the editor shows of it is cleared.
pub fn handle_file_deleted(indexer: &mut Indexer, uri: String) -> (r: Publication)
    requires
        old(indexer).wf(),
    ensures
        final(indexer).wf(),
        final(indexer).files@ == old(indexer).files@.remove(uri@),
        final(indexer).definitions == old(indexer).definitions,
        final(indexer).live_trees@ == old(indexer).live_trees@.remove(uri@),
        final(indexer).live_lines@ == old(indexer).live_lines@.remove(uri@),
        final(indexer).source_of(uri@) is Absent,
        r.deep_view() == (PublicationModel { uri: uri@, diagnostics: Seq::empty() }),
{
    indexer.remove_indexed_file(&uri);
    indexer.remove_live_tree(&uri);
    indexer.remove_live_lines(&uri);
    cleared(uri)
}

/// The publication that clears what the editor shows of a document.
pub fn cleared(uri: String) -> (r: Publication)
    ensures
        r.deep_view() == (PublicationModel { uri: uri@, diagnostics: Seq::empty() }),
{
    let none: Vec<Diagnostic> = Vec::new();
    assert(none.deep_view() =~= Seq::<DiagnosticModel>::empty());
    Publication { uri, diagnostics: none }
}

/// The indexing of a document that was opened, from its address and text to what is published
/// of it.
#[derive(Debug)]
pub struct OpenDocumentIndexing {
    pub uri: String,
    /// The parse of the very text that is indexed.
    pub doc: Option<LiveDoc>,
}

impl OpenDocumentIndexing {
    /// The parse, where there is one, is valid.
    pub open spec fn wf(&self) -> bool {
        self.doc matches Some(doc) ==> doc.wf()
    }

    /// The indexing of a document with the given text.
    pub fn new(uri: String, content: &str) -> (r: Self)
        ensures
            r.wf(),
            r.uri == uri,
            r.doc is Some <==> is_parsed(uri@, content@),
            may_be_parsed(uri@, content@, optional_model(r.doc)),
    {
        let doc = parse_document(&uri, content);
        OpenDocumentIndexing { uri, doc }
    }

    /// What is published once the content is indexed.
    pub fn first(&self, findings: Findings, indexing_in_progress: bool) -> (r: Publication)
        requires
            self.wf(),
        ensures
            r.deep_view() == (PublicationModel {
                uri: self.uri@,
                diagnostics: first_list(
                    findings.deep_view(),
                    indexing_in_progress,
                    self.doc is Some,
                ),
            }),
    {
        let is_parsed = self.doc.is_some();
        Publication {
            uri: self.uri.clone(),
            diagnostics: first_diagnostics(findings, indexing_in_progress, is_parsed),
        }
    }

    /// The warnings that are worth a further publication. While the workspace is being indexed
    /// there are none.
    pub fn warnings(
        &self,
        indexer: &Indexer,
        source_dir: &Vec<SourceDirEntry>,
        indexing_in_progress: bool,
    ) -> (r: Option<Vec<Diagnostic>>)
        requires
            self.wf(),
            indexer.wf(),
        ensures
            indexing_in_progress ==> r is None,
            !indexing_in_progress ==> may_warn(
                *indexer,
                self.uri@,
                optional_model(self.doc),
                source_dir.deep_view(),
                r.deep_view(),
            ),
    {
        if indexing_in_progress {
            return None;
        }
        warnings_of(indexer, &self.uri, self.doc.as_ref(), source_dir)
    }

    /// What is published once there are warnings.
    pub fn second(&self, findings: Findings, warnings: Vec<Diagnostic>) -> (r: Publication)
        requires
            self.wf(),
        ensures
            r.deep_view() == (PublicationModel {
                uri: self.uri@,
                diagnostics: full_list(
                    findings.deep_view(),
                    self.doc is Some,
                    warnings.deep_view(),
                ),
            }),
    {
        Publication {
            uri: self.uri.clone(),
            diagnostics: full_diagnostics(findings, self.doc.is_some(), warnings),
        }
    }
}

/// The addresses among what the keys of open documents were parsed to.
pub open spec fn addresses_among(parsed_keys: Seq<Option<Seq<char>>>) -> Seq<Seq<char>>
    decreases parsed_keys.len(),
{
    if parsed_keys.len() == 0 {
        Seq::empty()
    } else {
        let before = addresses_among(parsed_keys.drop_last());
        match parsed_keys.last() {
            Some(uri) => before.push(uri),
            None => before,
        }
    }
}

/// The addresses among what the keys of open documents were parsed to.
pub fn valid_addresses(parsed_keys: Vec<Option<String>>) -> (r: Vec<String>)
    ensures
        r.deep_view() == addresses_among(parsed_keys.deep_view()),
{
    let ghost all = parsed_keys.deep_view();
    let mut uris: Vec<String> = Vec::new();
    let mut i: usize = 0;
    assert(all.take(0) =~= Seq::<Option<Seq<char>>>::empty());
    assert(uris.deep_view() =~= Seq::<Seq<char>>::empty());
    while i < parsed_keys.len()
        invariant
            i <= parsed_keys@.len(),
            all == parsed_keys.deep_view(),
            uris.deep_view() == addresses_among(all.take(i as int)),
        decreases parsed_keys.len() - i,
    {
        let ghost before = uris.deep_view();
        assert(all[i as int] == parsed_keys@[i as int].deep_view());
        assert(all.take(i + 1).drop_last() =~= all.take(i as int));
        if let Some(uri) = &parsed_keys[i] {
            uris.push(uri.clone());
            assert(uris.deep_view() =~= before.push(uri@));
        }
        i += 1;
    }
    assert(all.take(i as int) =~= all);
    uris
}

/// The documents whose diagnostics are published again once the workspace is indexed: those that
/// are open and parsed.
pub fn documents_to_republish(indexer: &Indexer) -> (r: Vec<String>)
    requires
        indexer.wf(),
    ensures
        r.deep_view() == addresses_among(
            indexer.live_trees.keys().map_values(|key: Seq<char>| normal_url(key)),
        ),
{
    let ghost keys = indexer.live_trees.keys();
    let ghost wanted = keys.map_values(|key: Seq<char>| normal_url(key));
    let mut parsed_keys: Vec<Option<String>> = Vec::new();
    let mut i: usize = 0;
    assert(parsed_keys.deep_view() =~= wanted.take(0));
    while i < indexer.live_trees.len()
        invariant
            indexer.wf(),
            keys == indexer.live_trees.keys(),
            wanted == keys.map_values(|key: Seq<char>| normal_url(key)),
            i <= keys.len(),
            parsed_keys.deep_view() == wanted.take(i as int),
        decreases keys.len() - i,
    {
        let ghost before = parsed_keys.deep_view();
        let uri = normalize_url(indexer.live_trees.key_at(i));
        parsed_keys.push(uri);
        assert(parsed_keys.deep_view() =~= before.push(uri.deep_view()));
        assert(parsed_keys.deep_view() =~= wanted.take(i + 1));
        i += 1;
    }
    assert(wanted.take(i as int) =~= wanted);
    valid_addresses(parsed_keys)
}

/// What is published again of an open document once the workspace is indexed.
pub fn republished_first(indexer: &Indexer, uri: &str, findings: Findings) -> (r: Publication)
    requires
        indexer.wf(),
    ensures
        r.deep_view() == (PublicationModel {
            uri: uri@,
            diagnostics: first_list(
                findings.deep_view(),
                false,
                indexer.live_trees@.contains_key(uri@),
            ),
        }),
{
    let is_parsed = indexer.live_trees.contains_key(uri);
    Publication {
        uri: uri.to_owned(),
        diagnostics: first_diagnostics(findings, false, is_parsed),
    }
}

/// The warnings about an open document that are worth a further publication.
pub fn republished_warnings(
    indexer: &Indexer,
    uri: &str,
    source_dir: &Vec<SourceDirEntry>,
) -> (r: Option<Vec<Diagnostic>>)
    requires
        indexer.wf(),
    ensures
        may_warn(
            *indexer,
            uri@,
            if indexer.live_trees@.contains_key(uri@) {
                Some(doc_model(indexer.live_trees@[uri@]))
            } else {
                None
            },
            source_dir.deep_view(),
            r.deep_view(),
        ),
{
    let doc = indexer.live_doc(uri);
    warnings_of(indexer, uri, doc.as_ref(), source_dir)
}

/// What is published again of an open document once there are warnings.
pub fn republished_second(
    indexer: &Indexer,
    uri: &str,
    findings: Findings,
    warnings: Vec<Diagnostic>,
) -> (r: Publication)
    requires
        indexer.wf(),
    ensures
        r.deep_view() == (PublicationModel {
            uri: uri@,
            diagnostics: full_list(
                findings.deep_view(),
                indexer.live_trees@.contains_key(uri@),
                warnings.deep_view(),
            ),
        }),
{
    let is_parsed = indexer.live_trees.contains_key(uri);
    Publication {
        uri: uri.to_owned(),
        diagnostics: full_diagnostics(findings, is_parsed, warnings),
    }
}

}
