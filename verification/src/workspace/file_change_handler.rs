//! What happens as documents are edited.
//!
//! An edit is indexed by a task that first waits a while, so that a burst of edits is indexed
//! once. Every edit moves the generation of its document on. A task publishes nothing once the
//! generation is no longer the one that it was started with.

use crate::backend::events::ContentChange;
use crate::features::kmp_expect_diagnostics::SourceDirEntry;
use crate::indexer::{
    holds_parse_of, is_parsed, may_be_parsed, parse_document, took_in, Indexer,
};
use crate::protocol::Diagnostic;
use crate::string_map::StringMap;
use crate::syntax::{optional_model, DocModel, LiveDoc};
use crate::workspace::diagnostics::{
    first_diagnostics, first_list, full_diagnostics, full_list, may_warn, warnings_of, Findings,
    FindingsModel, Publication, PublicationModel,
};
use crate::workspace::document_handler::cleared;
use vstd::prelude::*;

verus! {

/// How long, in milliseconds, a task waits before it indexes an edit.
pub const DEBOUNCE_MILLIS: u64 = 300;

/// The state of the documents that are being edited. Tasks are known by numbers.
#[derive(Debug)]
pub struct FileChangeHandler {
    /// The task that is to index the latest edit of a document.
    pub pending_reindex: StringMap<u64>,
    /// The place of the counter that holds the generation of a document.
    pub diagnostic_generation: StringMap<usize>,
    /// The counters. One that no document holds any more stays, for a task may still look at it.
    pub counters: Vec<u64>,
}

/// A task that is to index an edit.
#[derive(Debug, PartialEq, Eq)]
pub struct ReindexTask {
    pub uri: String,
    pub text: String,
    /// The place of the counter that holds the document's generation.
    pub counter: usize,
    /// The generation of the edit.
    pub generation: u64,
}

/// What to do about an edit.
#[derive(Debug, PartialEq, Eq)]
pub struct ChangePlan {
    /// What to publish at once: what the editor shows of the document is cleared.
    pub clear: Publication,
    /// The task to abort.
    pub abort: Option<u64>,
    /// The task to start.
    pub task: ReindexTask,
}

/// The generation after another. The last is followed by the first.
pub open spec fn next_generation(generation: u64) -> u64 {
    if generation == u64::MAX {
        0
    } else {
        (generation + 1) as u64
    }
}

/// Whether an edit of a document moved its generation on, from zero where it had none, and left
/// the others. The generation is held by the given counter.
pub open spec fn edited(
    before: FileChangeHandler,
    uri: Seq<char>,
    counter: usize,
    after: FileChangeHandler,
) -> bool {
    &&& after.diagnostic_generation@ == before.diagnostic_generation@.insert(uri, counter)
    &&& match before.generation_of(uri) {
        Some(generation) => {
            &&& counter == before.diagnostic_generation@[uri]
            &&& after.counters@ == before.counters@.update(
                counter as int,
                next_generation(generation),
            )
        },
        None => {
            &&& counter == before.counters@.len()
            &&& after.counters@ == before.counters@.push(next_generation(0))
        },
    }
}

/// Whether a document's generation is looked at and held by the given counter, and nothing else
/// changed. Where the document had none, it is zero.
pub open spec fn followed(
    before: FileChangeHandler,
    uri: Seq<char>,
    counter: usize,
    after: FileChangeHandler,
) -> bool {
    &&& after.diagnostic_generation@ == before.diagnostic_generation@.insert(uri, counter)
    &&& match before.generation_of(uri) {
        Some(_) => {
            &&& counter == before.diagnostic_generation@[uri]
            &&& after.counters@ == before.counters@
        },
        None => {
            &&& counter == before.counters@.len()
            &&& after.counters@ == before.counters@.push(0)
        },
    }
}

/// The pending tasks without those that are finished.
pub open spec fn without_finished(
    pending: Map<Seq<char>, u64>,
    finished: Seq<u64>,
) -> Map<Seq<char>, u64> {
    pending.restrict(
        Set::new(|uri: Seq<char>| pending.contains_key(uri) && !finished.contains(pending[uri])),
    )
}

/// The pending task of a document.
pub open spec fn pending_of(pending: Map<Seq<char>, u64>, uri: Seq<char>) -> Option<u64> {
    if pending.contains_key(uri) {
        Some(pending[uri])
    } else {
        None
    }
}

impl FileChangeHandler {
    /// Every document's generation is held by a counter of its own.
    pub open spec fn wf(&self) -> bool {
        &&& self.pending_reindex.wf()
        &&& self.diagnostic_generation.wf()
        &&& forall|uri: Seq<char>| #[trigger]
            self.diagnostic_generation@.contains_key(uri) ==> self.diagnostic_generation@[uri]
                < self.counters@.len()
        &&& forall|a: Seq<char>, b: Seq<char>|
            self.diagnostic_generation@.contains_key(a) && self.diagnostic_generation@.contains_key(
                b,
            ) && a != b ==> #[trigger] self.diagnostic_generation@[a]
                != #[trigger] self.diagnostic_generation@[b]
    }

    /// The generation of a document that was edited since it was opened.
    pub open spec fn generation_of(&self, uri: Seq<char>) -> Option<u64> {
        if self.diagnostic_generation@.contains_key(uri) {
            Some(self.counters@[self.diagnostic_generation@[uri] as int])
        } else {
            None
        }
    }

    /// Whether no edit came after the one that a task was started for.
    pub open spec fn current(&self, task: ReindexTask) -> bool {
        self.counters@[task.counter as int] == task.generation
    }

    /// Whether a task looks at one of the counters.
    pub open spec fn knows(&self, task: ReindexTask) -> bool {
        task.counter < self.counters@.len()
    }

    /// No document is being edited.
    pub fn new() -> (r: Self)
        ensures
            r.wf(),
            r.pending_reindex@ == Map::<Seq<char>, u64>::empty(),
            r.diagnostic_generation@ == Map::<Seq<char>, usize>::empty(),
            r.counters@.len() == 0,
    {
        FileChangeHandler {
            pending_reindex: StringMap::new(),
            diagnostic_generation: StringMap::new(),
            counters: Vec::new(),
        }
    }

    /// Moves the generation of a document on, from zero where it has none. Returns the place of
    /// its counter.
    fn bump_generation(&mut self, uri: &str) -> (r: usize)
        requires
            old(self).wf(),
            old(self).counters@.len() < usize::MAX,
        ensures
            final(self).wf(),
            final(self).pending_reindex == old(self).pending_reindex,
            edited(*old(self), uri@, r, *final(self)),
    {
        match self.diagnostic_generation.get(uri) {
            Some(place) => {
                let place: usize = *place;
                let generation: u64 = self.counters[place];
                let next: u64 = if generation == u64::MAX {
                    0
                } else {
                    generation + 1
                };
                self.counters.set(place, next);
                assert(self.diagnostic_generation@ =~= old(
                    self,
                ).diagnostic_generation@.insert(uri@, place));
                place
            },
            None => {
                let place: usize = self.counters.len();
                self.counters.push(1);
                self.diagnostic_generation.insert(uri.to_owned(), place);
                place
            },
        }
    }

    /// Forgets the tasks that are finished.
    fn drop_finished(&mut self, finished: &Vec<u64>)
        requires
            old(self).wf(),
        ensures
            final(self).wf(),
            final(self).pending_reindex@ == without_finished(
                old(self).pending_reindex@,
                finished@,
            ),
            final(self).diagnostic_generation == old(self).diagnostic_generation,
            final(self).counters == old(self).counters,
    {
        let ghost keys = self.pending_reindex.keys();
        let ghost pending = self.pending_reindex@;
        let ghost wanted = without_finished(pending, finished@);
        proof {
            self.pending_reindex.lemma_keys();
        }
        let mut kept: StringMap<u64> = StringMap::new();
        let mut i: usize = 0;
        while i < self.pending_reindex.len()
            invariant
                *self == *old(self),
                self.wf(),
                keys == self.pending_reindex.keys(),
                pending == self.pending_reindex@,
                wanted == without_finished(pending, finished@),
                forall|uri: Seq<char>| #[trigger] pending.contains_key(uri) <==> keys.contains(uri),
                i <= keys.len(),
                kept.wf(),
                forall|uri: Seq<char>| #[trigger]
                    kept@.contains_key(uri) ==> wanted.contains_key(uri) && kept@[uri]
                        == wanted[uri],
                forall|j: int|
                    0 <= j < i && wanted.contains_key(#[trigger] keys[j]) ==> kept@.contains_key(
                        keys[j],
                    ),
            decreases keys.len() - i,
        {
            let uri = self.pending_reindex.key_at(i);
            assert(keys.contains(keys[i as int]));
            if let Some(task) = self.pending_reindex.get(uri) {
                let task: u64 = *task;
                if !contains_number(finished, task) {
                    kept.insert(uri.clone(), task);
                }
            }
            i += 1;
        }
        proof {
            assert forall|uri: Seq<char>| #[trigger] wanted.contains_key(uri) implies kept@.contains_key(
                uri,
            ) by {
                let j = choose|j: int| 0 <= j < keys.len() && keys[j] == uri;
                assert(wanted.contains_key(keys[j]));
            }
            assert(kept@ =~= wanted);
        }
        self.pending_reindex = kept;
    }

    /// The place of the counter that holds the generation of a document. Where it has none, the
    /// generation is zero from now on.
    fn counter_of(&mut self, uri: &str) -> (r: usize)
        requires
            old(self).wf(),
            old(self).generation_of(uri@) is Some || old(self).counters@.len() < usize::MAX,
        ensures
            final(self).wf(),
            final(self).pending_reindex == old(self).pending_reindex,
            followed(*old(self), uri@, r, *final(self)),
    {
        match self.diagnostic_generation.get(uri) {
            Some(place) => {
                let place: usize = *place;
                assert(self.diagnostic_generation@ =~= old(
                    self,
                ).diagnostic_generation@.insert(uri@, place));
                place
            },
            None => {
                let place: usize = self.counters.len();
                self.counters.push(0);
                self.diagnostic_generation.insert(uri.to_owned(), place);
                place
            },
        }
    }

    /// Starts the task that indexes an edit, given which tasks are finished and the number of
    /// the new one. Returns the task that it takes the place of, and the new one.
    pub fn reschedule_debounced_reindex(
        &mut self,
        uri: String,
        text: String,
        finished: &Vec<u64>,
        number: u64,
    ) -> (r: (Option<u64>, ReindexTask))
        requires
            old(self).wf(),
            old(self).generation_of(uri@) is Some || old(self).counters@.len() < usize::MAX,
        ensures
            final(self).wf(),
            r.0 == pending_of(without_finished(old(self).pending_reindex@, finished@), uri@),
            final(self).pending_reindex@ == without_finished(
                old(self).pending_reindex@,
                finished@,
            ).insert(uri@, number),
            followed(*old(self), uri@, r.1.counter, *final(self)),
            r.1.uri@ == uri@,
            r.1.text@ == text@,
            final(self).knows(r.1),
            final(self).current(r.1),
    {
        self.drop_finished(finished);
        let ghost kept = self.pending_reindex@;
        let replaced = self.pending_reindex.remove(&uri);
        self.pending_reindex.insert(uri.clone(), number);
        assert(kept.remove(uri@).insert(uri@, number) =~= kept.insert(uri@, number));
        let counter: usize = self.counter_of(&uri);
        let generation: u64 = self.counters[counter];
        (replaced, ReindexTask { uri, text, counter, generation })
    }

    /// Takes in the edits of a document, given which tasks are finished and the number of the
    /// task that is to index the latest text. Without an edit there is nothing to do.
    pub fn handle_file_changed(
        &mut self,
        indexer: &mut Indexer,
        uri: String,
        changes: &Vec<ContentChange>,
        finished: &Vec<u64>,
        task: u64,
    ) -> (r: Option<ChangePlan>)
        requires
            old(self).wf(),
            old(indexer).wf(),
            old(self).counters@.len() < usize::MAX,
        ensures
            final(self).wf(),
            final(indexer).wf(),
            changes@.len() == 0 ==> r is None && *final(self) == *old(self) && *final(indexer)
                == *old(indexer),
            changes@.len() > 0 ==> {
                &&& r matches Some(plan)
                &&& plan.clear.deep_view() == (PublicationModel {
                    uri: uri@,
                    diagnostics: Seq::empty(),
                })
                &&& plan.abort == pending_of(
                    without_finished(old(self).pending_reindex@, finished@),
                    uri@,
                )
                &&& plan.task.uri@ == uri@
                &&& plan.task.text@ == changes@.last().text@
                &&& final(self).knows(plan.task)
                &&& final(self).current(plan.task)
                &&& edited(*old(self), uri@, plan.task.counter, *final(self))
                &&& final(self).pending_reindex@ == without_finished(
                    old(self).pending_reindex@,
                    finished@,
                ).insert(uri@, task)
                &&& final(indexer).live_lines@.dom() == old(indexer).live_lines@.dom().insert(uri@)
                &&& final(indexer).live_lines@[uri@]@ == changes@.last().text@
                &&& forall|other: Seq<char>|
                    other != uri@ ==> #[trigger] final(indexer).live_lines@[other] == old(
                        indexer,
                    ).live_lines@[other]
            },
            final(indexer).files == old(indexer).files,
            final(indexer).definitions == old(indexer).definitions,
            final(indexer).live_trees == old(indexer).live_trees,
    {
        let text = drain_file_changed_batch(changes)?;
        let counter: usize = self.bump_generation(&uri);
        indexer.set_live_lines(&uri, &text);
        let clear = cleared(uri.clone());
        let (abort, task) = self.reschedule_debounced_reindex(uri, text, finished, task);
        assert(self.diagnostic_generation@ =~= old(self).diagnostic_generation@.insert(
            clear.uri@,
            counter,
        ));
        Some(ChangePlan { clear, abort, task })
    }

    /// Forgets the pending task and the generation of a document. Returns the task to abort.
    pub fn cancel_pending_reindex(&mut self, uri: &str) -> (r: Option<u64>)
        requires
            old(self).wf(),
        ensures
            final(self).wf(),
            r == pending_of(old(self).pending_reindex@, uri@),
            final(self).pending_reindex@ == old(self).pending_reindex@.remove(uri@),
            final(self).diagnostic_generation@ == old(self).diagnostic_generation@.remove(uri@),
            final(self).counters == old(self).counters,
    {
        let abort = self.pending_reindex.remove(uri);
        let _ = self.diagnostic_generation.remove(uri);
        abort
    }

    /// Whether no edit came after the one that a task was started for.
    pub fn is_current(&self, task: &ReindexTask) -> (r: bool)
        requires
            self.knows(*task),
        ensures
            r == self.current(*task),
    {
        self.counters[task.counter] == task.generation
    }
}

/// Whether a number is among the listed ones.
fn contains_number(list: &Vec<u64>, number: u64) -> (r: bool)
    ensures
        r == list@.contains(number),
{
    let mut i: usize = 0;
    while i < list.len()
        invariant
            i <= list@.len(),
            forall|j: int| 0 <= j < i ==> list@[j] != number,
        decreases list.len() - i,
    {
        if list[i] == number {
            return true;
        }
        i += 1;
    }
    false
}

/// The text of a document after all its edits: that of the last one.
pub fn drain_file_changed_batch(changes: &Vec<ContentChange>) -> (r: Option<String>)
    ensures
        r.deep_view() == (if changes@.len() > 0 {
            Some(changes@.last().text@)
        } else {
            None
        }),
{
    if changes.len() > 0 {
        Some(changes[changes.len() - 1].text.clone())
    } else {
        None
    }
}

/// Stores the parse of an edited document, unless it was closed or deleted meanwhile.
pub fn update_live_tree(indexer: &mut Indexer, uri: &str, text: &str)
    requires
        old(indexer).wf(),
    ensures
        final(indexer).wf(),
        old(indexer).live_lines@.contains_key(uri@) ==> exists|doc: Option<DocModel>| #[trigger]
            may_be_parsed(uri@, text@, doc) && took_in(
                old(indexer).live_trees@,
                uri@,
                doc,
                final(indexer).live_trees@,
            ),
        old(indexer).live_lines@.contains_key(uri@) && is_parsed(uri@, text@) ==> holds_parse_of(
            final(indexer).live_trees@,
            uri@,
            text@,
        ),
        old(indexer).live_lines@.contains_key(uri@) && !is_parsed(uri@, text@) ==> final(indexer).live_trees@ == old(indexer).live_trees@,
        !old(indexer).live_lines@.contains_key(uri@) ==> *final(indexer) == *old(indexer),
        final(indexer).files == old(indexer).files,
        final(indexer).definitions == old(indexer).definitions,
        final(indexer).live_lines == old(indexer).live_lines,
{
    if indexer.live_lines.contains_key(uri) {
        indexer.store_live_tree(uri, text);
    }
}

/// Forgets a document that was closed, and its pending task. Returns the task to abort. What the
/// editor shows of the document is cleared.
pub fn handle_file_closed(
    handler: &mut FileChangeHandler,
    indexer: &mut Indexer,
    uri: String,
) -> (r: (Option<u64>, Publication))
    requires
        old(handler).wf(),
        old(indexer).wf(),
    ensures
        final(handler).wf(),
        final(indexer).wf(),
        r.0 == pending_of(old(handler).pending_reindex@, uri@),
        r.1.deep_view() == (PublicationModel { uri: uri@, diagnostics: Seq::empty() }),
        final(handler).pending_reindex@ == old(handler).pending_reindex@.remove(uri@),
        final(handler).diagnostic_generation@ == old(handler).diagnostic_generation@.remove(uri@),
        final(handler).counters == old(handler).counters,
        final(indexer).live_trees@ == old(indexer).live_trees@.remove(uri@),
        final(indexer).live_lines@ == old(indexer).live_lines@.remove(uri@),
        final(indexer).files == old(indexer).files,
        final(indexer).definitions == old(indexer).definitions,
{
    let abort = handler.cancel_pending_reindex(&uri);
    indexer.remove_live_tree(&uri);
    indexer.remove_live_lines(&uri);
    (abort, cleared(uri))
}

/// The findings of a task. It does not look at the package.
pub open spec fn without_package(findings: FindingsModel) -> FindingsModel {
    FindingsModel { package: None, ..findings }
}

/// An edit that is indexed, on its way to what is published of it.
#[derive(Debug)]
pub struct IndexedEdit {
    pub task: ReindexTask,
    /// The parse of the very text that was indexed.
    pub doc: Option<LiveDoc>,
}

impl ReindexTask {
    /// Whether the task still indexes its text once it has waited: not where the document was
    /// closed or deleted meanwhile.
    pub fn should_index(&self, indexer: &Indexer) -> (r: bool)
        requires
            indexer.wf(),
        ensures
            r == indexer.live_lines@.contains_key(self.uri@),
    {
        indexer.live_lines.contains_key(&self.uri)
    }

    /// Goes on once the text is indexed. Ends the task where nobody listens, or where a newer
    /// edit arrived.
    pub fn indexed(self, handler: &FileChangeHandler, has_client: bool) -> (r: Option<IndexedEdit>)
        requires
            handler.knows(self),
        ensures
            match r {
                Some(edit) => {
                    &&& has_client && handler.current(self)
                    &&& edit.wf()
                    &&& edit.task == self
                    &&& edit.doc is Some <==> is_parsed(self.uri@, self.text@)
                    &&& may_be_parsed(self.uri@, self.text@, optional_model(edit.doc))
                },
                None => !(has_client && handler.current(self)),
            },
    {
        if has_client && handler.is_current(&self) {
            let doc = parse_document(&self.uri, &self.text);
            Some(IndexedEdit { task: self, doc })
        } else {
            None
        }
    }
}

impl IndexedEdit {
    /// The parse, where there is one, is valid.
    pub open spec fn wf(&self) -> bool {
        self.doc matches Some(doc) ==> doc.wf()
    }

    /// What is published first, unless a newer edit arrived.
    pub fn first(&self, handler: &FileChangeHandler, findings: Findings) -> (r: Option<Publication>)
        requires
            handler.knows(self.task),
        ensures
            r.deep_view() == (if handler.current(self.task) {
                Some(
                    PublicationModel {
                        uri: self.task.uri@,
                        diagnostics: first_list(
                            without_package(findings.deep_view()),
                            false,
                            self.doc is Some,
                        ),
                    },
                )
            } else {
                None
            }),
    {
        if handler.is_current(&self.task) {
            let findings = Findings { package: None, ..findings };
            Some(
                Publication {
                    uri: self.task.uri.clone(),
                    diagnostics: first_diagnostics(findings, false, self.doc.is_some()),
                },
            )
        } else {
            None
        }
    }

    /// The warnings that are worth a further publication, unless a newer edit arrived.
    pub fn warnings(
        &self,
        handler: &FileChangeHandler,
        indexer: &Indexer,
        source_dir: &Vec<SourceDirEntry>,
    ) -> (r: Option<Vec<Diagnostic>>)
        requires
            self.wf(),
            handler.knows(self.task),
            indexer.wf(),
        ensures
            handler.current(self.task) ==> may_warn(
                *indexer,
                self.task.uri@,
                optional_model(self.doc),
                source_dir.deep_view(),
                r.deep_view(),
            ),
            !handler.current(self.task) ==> r is None,
    {
        let warnings = warnings_of(indexer, &self.task.uri, self.doc.as_ref(), source_dir);
        if handler.is_current(&self.task) {
            warnings
        } else {
            None
        }
    }

    /// What is published once there are warnings. Whether the arguments of calls count depends
    /// on the document that is stored by then.
    pub fn second(
        &self,
        indexer: &Indexer,
        findings: Findings,
        warnings: Vec<Diagnostic>,
    ) -> (r: Publication)
        requires
            indexer.wf(),
        ensures
            r.deep_view() == (PublicationModel {
                uri: self.task.uri@,
                diagnostics: full_list(
                    without_package(findings.deep_view()),
                    indexer.live_trees@.contains_key(self.task.uri@),
                    warnings.deep_view(),
                ),
            }),
    {
        let is_parsed = indexer.live_trees.contains_key(&self.task.uri);
        let findings = Findings { package: None, ..findings };
        Publication {
            uri: self.task.uri.clone(),
            diagnostics: full_diagnostics(findings, is_parsed, warnings),
        }
    }
}

}
