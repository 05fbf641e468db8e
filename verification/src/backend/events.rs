//! What the editor tells of documents, as events that the workspace works through in turn.

use crate::indexer::{DocSource, Indexer};
use crate::protocol::{Message, MessageModel, MessageType};
use vstd::prelude::*;

verus! {

/// A change of a document. It carries the whole new text.
#[derive(Debug, PartialEq, Eq)]
pub struct ContentChange {
    pub text: String,
}

/// What happened to a document.
#[derive(Debug, PartialEq, Eq)]
pub enum Event {
    FileOpened { uri: String, language_id: String, content: String },
    FileChanged { uri: String, changes: Vec<ContentChange> },
    FileClosed { uri: String },
    FileSaved { uri: String },
    FileDeleted { uri: String },
}

/// What happened to a file on disk.
#[derive(Clone, Copy, Debug, PartialEq, Eq)]
pub enum FileChangeType {
    Created,
    Changed,
    Deleted,
}

/// A file on disk that something happened to.
#[derive(Debug, PartialEq, Eq)]
pub struct FileEvent {
    pub uri: String,
    pub kind: FileChangeType,
}

/// What to do about a file on disk.
#[derive(Debug, PartialEq, Eq)]
pub enum WatchedFileAction {
    /// Pass an event on to the workspace.
    Send(Event),
    /// Read the file and index its content.
    Reindex { uri: String },
}

/// What to do about a file on disk: a deleted one is forgotten, any other indexed anew.
pub open spec fn action_for(change: FileEvent) -> WatchedFileAction {
    if change.kind is Deleted {
        WatchedFileAction::Send(Event::FileDeleted { uri: change.uri })
    } else {
        WatchedFileAction::Reindex { uri: change.uri }
    }
}

/// The message for the log that the server is ready.
pub fn initialized() -> (r: Message)
    ensures
        r.deep_view() == (MessageModel { kind: MessageType::Info, text: "kotlin-lsp ready"@ }),
{
    Message::info("kotlin-lsp ready")
}

/// A document was opened.
pub fn did_open(uri: String, language_id: String, text: String) -> (r: Event)
    ensures
        r == (Event::FileOpened { uri, language_id, content: text }),
{
    Event::FileOpened { uri, language_id, content: text }
}

/// A document was edited.
///
/// Its latest text counts at once, before the workspace works through the event: a request that
/// follows reads the document parsed from that text.
pub fn did_change(indexer: &mut Indexer, uri: String, changes: Vec<ContentChange>) -> (r: Event)
    requires
        old(indexer).wf(),
    ensures
        final(indexer).wf(),
        r == (Event::FileChanged { uri, changes }),
        changes@.len() == 0 ==> *final(indexer) == *old(indexer),
        changes@.len() > 0 ==> {
            &&& final(indexer).live_trees@ == old(indexer).live_trees@.remove(uri@)
            &&& final(indexer).live_lines@.dom() == old(indexer).live_lines@.dom().insert(uri@)
            &&& final(indexer).live_lines@[uri@]@ == changes@.last().text@
            &&& final(indexer).source_of(uri@) == DocSource::Text(changes@.last().text@)
            &&& forall|other: Seq<char>|
                other != uri@ ==> #[trigger] final(indexer).live_lines@[other] == old(
                    indexer,
                ).live_lines@[other]
        },
        final(indexer).files == old(indexer).files,
        final(indexer).definitions == old(indexer).definitions,
        forall|other: Seq<char>|
            other != uri@ ==> #[trigger] final(indexer).source_of(other) == old(indexer).source_of(
                other,
            ),
{
    if changes.len() > 0 {
        indexer.remove_live_tree(&uri);
        indexer.set_live_lines(&uri, &changes[changes.len() - 1].text);
        proof {
            assert forall|other: Seq<char>| other != uri@ implies #[trigger] indexer.source_of(other)
                == old(indexer).source_of(other) by {
                assert(indexer.live_lines@.dom().contains(other) == old(
                    indexer,
                ).live_lines@.dom().contains(other));
                assert(indexer.live_lines@[other] == old(indexer).live_lines@[other]);
            }
            assert(indexer.live_lines@.dom().contains(uri@));
        }
    }
    Event::FileChanged { uri, changes }
}

/// A document was closed.
pub fn did_close(uri: String) -> (r: Event)
    ensures
        r == (Event::FileClosed { uri }),
{
    Event::FileClosed { uri }
}

/// A document was saved.
pub fn did_save(uri: String) -> (r: Event)
    ensures
        r == (Event::FileSaved { uri }),
{
    Event::FileSaved { uri }
}

/// Something happened to files on disk.
pub fn did_change_watched_files(changes: &Vec<FileEvent>) -> (r: Vec<WatchedFileAction>)
    ensures
        r@ == changes@.map_values(|change: FileEvent| action_for(change)),
{
    let mut actions: Vec<WatchedFileAction> = Vec::new();
    let mut i: usize = 0;
    while i < changes.len()
        invariant
            i <= changes@.len(),
            actions@ == changes@.take(i as int).map_values(|change: FileEvent| action_for(change)),
        decreases changes.len() - i,
    {
        let uri = changes[i].uri.clone();
        match changes[i].kind {
            FileChangeType::Deleted => {
                actions.push(WatchedFileAction::Send(Event::FileDeleted { uri }));
            },
            _ => {
                actions.push(WatchedFileAction::Reindex { uri });
            },
        }
        assert(changes@.take(i + 1) =~= changes@.take(i as int).push(changes@[i as int]));
        assert(actions@ =~= changes@.take(i + 1).map_values(
            |change: FileEvent| action_for(change),
        ));
        i += 1;
    }
    assert(changes@.take(i as int) =~= changes@);
    actions
}

}
