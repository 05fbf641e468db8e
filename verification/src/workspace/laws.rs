//! What holds of open documents, edits, and the tasks that index them.

use crate::indexer::Indexer;
use crate::urls::normal_url;
use crate::workspace::document_handler::addresses_among;
use crate::workspace::file_change_handler::{
    edited, next_generation, FileChangeHandler, ReindexTask,
};
use vstd::prelude::*;

verus! {

/// The generation after a number of edits.
pub open spec fn generation_after(generation: u64, edits: nat) -> u64
    decreases edits,
{
    if edits == 0 {
        generation
    } else {
        next_generation(generation_after(generation, (edits - 1) as nat))
    }
}

proof fn lemma_generation_after(generation: u64, edits: nat)
    requires
        edits <= u64::MAX,
    ensures
        generation_after(generation, edits) == if generation + edits <= u64::MAX {
            generation + edits
        } else {
            generation + edits - u64::MAX - 1
        },
    decreases edits,
{
    if edits > 0 {
        lemma_generation_after(generation, (edits - 1) as nat);
    }
}

/// A generation does not come back before every other one had its turn.
pub proof fn generations_do_not_come_back(generation: u64, edits: nat)
    requires
        0 < edits <= u64::MAX,
    ensures
        generation_after(generation, edits) != generation,
{
    lemma_generation_after(generation, edits);
}

/// An edit outdates the task that was started for the edit before it: the task publishes nothing
/// from then on.
pub proof fn an_edit_outdates_the_task_before_it(
    before: FileChangeHandler,
    uri: Seq<char>,
    counter: usize,
    after: FileChangeHandler,
    task: ReindexTask,
)
    requires
        before.wf(),
        edited(before, uri, counter, after),
        before.diagnostic_generation@.contains_key(uri),
        before.diagnostic_generation@[uri] == task.counter,
        before.current(task),
    ensures
        after.knows(task),
        !after.current(task),
{
}

/// How often a document is among the listed ones.
pub open spec fn times(uris: Seq<Seq<char>>, uri: Seq<char>) -> nat
    decreases uris.len(),
{
    if uris.len() == 0 {
        0
    } else if uris.last() == uri {
        times(uris.drop_last(), uri) + 1
    } else {
        times(uris.drop_last(), uri)
    }
}

/// Whether the states follow from one another by edits of the listed documents, whose generations
/// are held by the listed counters.
pub open spec fn run_of_edits(
    states: Seq<FileChangeHandler>,
    uris: Seq<Seq<char>>,
    counters: Seq<usize>,
) -> bool {
    &&& states.len() == uris.len() + 1
    &&& counters.len() == uris.len()
    &&& forall|i: int| 0 <= i < states.len() ==> (#[trigger] states[i]).wf()
    &&& forall|i: int|
        0 <= i < uris.len() ==> edited(states[i], #[trigger] uris[i], counters[i], states[i + 1])
}

proof fn lemma_run_of_edits(
    states: Seq<FileChangeHandler>,
    uris: Seq<Seq<char>>,
    counters: Seq<usize>,
    uri: Seq<char>,
)
    requires
        run_of_edits(states, uris, counters),
        states.first().diagnostic_generation@.contains_key(uri),
    ensures
        states.last().diagnostic_generation@.contains_key(uri),
        states.last().diagnostic_generation@[uri] == states.first().diagnostic_generation@[uri],
        states.last().generation_of(uri) == Some(
            generation_after(states.first().generation_of(uri)->0, times(uris, uri)),
        ),
    decreases uris.len(),
{
    if uris.len() > 0 {
        let before = states.drop_last();
        let earlier = uris.drop_last();
        let last = uris.len() - 1;
        assert forall|i: int| 0 <= i < earlier.len() implies edited(
            before[i],
            #[trigger] earlier[i],
            counters.drop_last()[i],
            before[i + 1],
        ) by {
            assert(uris[i] == earlier[i]);
        }
        lemma_run_of_edits(before, earlier, counters.drop_last(), uri);
        assert(edited(states[last], uris[last], counters[last], states[last + 1]));
        assert(states[last].wf());
        assert(states[last] == before.last());
        if uris[last] != uri {
            counters_stay_apart(states[last], uris[last], uri, counters[last], states[last + 1]);
        }
    }
}

/// A task stays outdated: it publishes nothing once its document was edited again, whatever other
/// documents were edited meanwhile, unless the generation has gone all the way round.
pub proof fn edits_outdate_earlier_tasks(
    states: Seq<FileChangeHandler>,
    uris: Seq<Seq<char>>,
    counters: Seq<usize>,
    uri: Seq<char>,
    task: ReindexTask,
)
    requires
        run_of_edits(states, uris, counters),
        states.first().diagnostic_generation@.contains_key(uri),
        states.first().diagnostic_generation@[uri] == task.counter,
        states.first().current(task),
        0 < times(uris, uri) <= u64::MAX,
    ensures
        states.last().knows(task),
        !states.last().current(task),
{
    lemma_run_of_edits(states, uris, counters, uri);
    generations_do_not_come_back(task.generation, times(uris, uri));
    assert(states[states.len() - 1].wf());
}

/// An edit of one document outdates no task of another, nor one of the same document from before
/// it was last closed.
pub proof fn an_edit_leaves_other_tasks(
    before: FileChangeHandler,
    uri: Seq<char>,
    counter: usize,
    after: FileChangeHandler,
    task: ReindexTask,
)
    requires
        before.wf(),
        edited(before, uri, counter, after),
        before.knows(task),
        before.diagnostic_generation@.contains_key(uri) ==> before.diagnostic_generation@[uri]
            != task.counter,
    ensures
        after.knows(task),
        after.current(task) == before.current(task),
{
}

/// Documents that are edited at the same time never share a counter, and a counter that a task
/// looks at never goes away.
pub proof fn counters_stay_apart(
    before: FileChangeHandler,
    uri: Seq<char>,
    other: Seq<char>,
    counter: usize,
    after: FileChangeHandler,
)
    requires
        before.wf(),
        edited(before, uri, counter, after),
        before.diagnostic_generation@.contains_key(other),
        other != uri,
    ensures
        after.diagnostic_generation@[other] == before.diagnostic_generation@[other],
        after.diagnostic_generation@[other] != after.diagnostic_generation@[uri],
        after.generation_of(other) == before.generation_of(other),
        before.counters@.len() <= after.counters@.len(),
{
}

proof fn lemma_addresses_among(parsed_keys: Seq<Option<Seq<char>>>, uri: Seq<char>)
    ensures
        addresses_among(parsed_keys).contains(uri) <==> parsed_keys.contains(Some(uri)),
    decreases parsed_keys.len(),
{
    let all = addresses_among(parsed_keys);
    if parsed_keys.len() > 0 {
        let rest = parsed_keys.drop_last();
        let before = addresses_among(rest);
        lemma_addresses_among(rest, uri);
        if all.contains(uri) {
            let i = choose|i: int| 0 <= i < all.len() && all[i] == uri;
            if i < before.len() {
                assert(before[i] == uri);
                let j = choose|j: int| 0 <= j < rest.len() && rest[j] == Some(uri);
                assert(parsed_keys[j] == Some(uri));
            } else {
                assert(parsed_keys[parsed_keys.len() - 1] == Some(uri));
            }
        }
        if parsed_keys.contains(Some(uri)) {
            let j = choose|j: int| 0 <= j < parsed_keys.len() && parsed_keys[j] == Some(uri);
            if j < rest.len() {
                assert(rest[j] == Some(uri));
                let i = choose|i: int| 0 <= i < before.len() && before[i] == uri;
                assert(all[i] == uri);
            } else {
                assert(all.last() == uri);
            }
        }
    } else {
        assert(all == Seq::<Seq<char>>::empty());
    }
}

/// Once the workspace is indexed, what is found is published anew for every open document that
/// is parsed and has a valid address, and for no other.
pub proof fn every_open_document_is_reported_again(indexer: Indexer, uri: Seq<char>)
    requires
        indexer.wf(),
    ensures
        addresses_among(
            indexer.live_trees.keys().map_values(|key: Seq<char>| normal_url(key)),
        ).contains(uri) <==> exists|key: Seq<char>| #[trigger]
            indexer.live_trees@.contains_key(key) && normal_url(key) == Some(uri),
{
    let keys = indexer.live_trees.keys();
    let parsed_keys = keys.map_values(|key: Seq<char>| normal_url(key));
    indexer.live_trees.lemma_keys();
    lemma_addresses_among(parsed_keys, uri);
    if parsed_keys.contains(Some(uri)) {
        let j = choose|j: int| 0 <= j < parsed_keys.len() && parsed_keys[j] == Some(uri);
        assert(keys.contains(keys[j]));
        assert(indexer.live_trees@.contains_key(keys[j]));
    }
    if exists|key: Seq<char>| #[trigger]
        indexer.live_trees@.contains_key(key) && normal_url(key) == Some(uri) {
        let key = choose|key: Seq<char>| #[trigger]
            indexer.live_trees@.contains_key(key) && normal_url(key) == Some(uri);
        let j = choose|j: int| 0 <= j < keys.len() && keys[j] == key;
        assert(parsed_keys[j] == Some(uri));
    }
}

}
