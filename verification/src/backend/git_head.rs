//! Watching for a switch of the git branch.

use crate::indexer::{FileData, Indexer};
use crate::protocol::{Location, Message, MessageModel, MessageType};
use crate::text::{same_text, strip_prefix, trim, trimmed};
use vstd::prelude::*;

verus! {

/// How often, in seconds, the head of the repository is looked at.
pub const POLL_SECONDS: u64 = 2;

/// The file of a git directory that names the head.
pub const HEAD_FILE: &'static str = "HEAD";

/// The file, below the git directory, that holds the commit of a symbolic head.
pub open spec fn ref_path(head: Seq<char>) -> Option<Seq<char>> {
    let head = trimmed(head);
    if "ref: "@.is_prefix_of(head) {
        Some(head.skip("ref: "@.len() as int))
    } else {
        None
    }
}

/// What came of reading the file that a symbolic head names.
#[derive(Debug, PartialEq, Eq)]
pub enum RefFile {
    Text(String),
    /// There is no such file: the branch has no commit yet.
    Missing,
    /// The file is there and cannot be read.
    Unreadable,
}

/// What came of reading the file that a symbolic head names, as far as it says something.
pub enum RefFileModel {
    Text(Seq<char>),
    Missing,
    Unreadable,
}

impl DeepView for RefFile {
    type V = RefFileModel;

    open spec fn deep_view(&self) -> RefFileModel {
        match self {
            RefFile::Text(text) => RefFileModel::Text(text@),
            RefFile::Missing => RefFileModel::Missing,
            RefFile::Unreadable => RefFileModel::Unreadable,
        }
    }
}

/// The commit that the head stands at. A symbolic head stands at that in the file which it
/// names, and where the file is missing, at the name. Any other head says the commit itself.
/// There is none where a file cannot be read.
pub open spec fn commit_at(head: Option<Seq<char>>, ref_file: RefFileModel) -> Option<Seq<char>> {
    match head {
        Some(head) => if ref_path(head) is Some {
            match ref_file {
                RefFileModel::Text(commit) => Some(trimmed(commit)),
                RefFileModel::Missing => Some(trimmed(head)),
                RefFileModel::Unreadable => None,
            }
        } else {
            Some(trimmed(head))
        },
        None => None,
    }
}

/// The file, below the git directory, that holds the commit of a symbolic head.
pub fn symbolic_ref(head: &str) -> (r: Option<String>)
    ensures
        r.deep_view() == ref_path(head@),
{
    strip_prefix(trim(head), "ref: ")
}

/// The commit that the head stands at, given what came of reading the file that a symbolic head
/// names. For any other head that file does not count.
pub fn read_git_commit(head: Option<&str>, ref_file: &RefFile) -> (r: Option<String>)
    ensures
        r.deep_view() == commit_at(head.deep_view(), ref_file.deep_view()),
{
    match head {
        Some(head) => {
            if symbolic_ref(head).is_some() {
                match ref_file {
                    RefFile::Text(commit) => Some(trim(commit).to_owned()),
                    RefFile::Missing => Some(trim(head).to_owned()),
                    RefFile::Unreadable => None,
                }
            } else {
                Some(trim(head).to_owned())
            }
        },
        None => None,
    }
}

/// A watcher of the commit that a repository stands at.
#[derive(Debug, PartialEq, Eq)]
pub struct GitHeadWatcher {
    pub last_commit: String,
}

/// The text of a commit, empty where there is none.
pub open spec fn commit_text(commit: Option<Seq<char>>) -> Seq<char> {
    match commit {
        Some(text) => text,
        None => Seq::empty(),
    }
}

/// Whether a commit is one that the watcher has not seen last.
pub open spec fn is_switch(last: Seq<char>, current: Option<Seq<char>>) -> bool {
    commit_text(current).len() > 0 && commit_text(current) != last
}

/// A commit that the watcher has seen last is no switch.
pub proof fn a_commit_is_reported_once(commit: Option<Seq<char>>)
    ensures
        !is_switch(commit_text(commit), commit),
{
}

/// While the head or the file that it names cannot be read, no switch is noticed.
pub proof fn unreadable_files_are_no_switch(last: Seq<char>, head: Seq<char>, file: RefFileModel)
    requires
        ref_path(head) is Some,
    ensures
        !is_switch(last, commit_at(None, file)),
        !is_switch(last, commit_at(Some(head), RefFileModel::Unreadable)),
{
}

/// A switch between branches that have no commit yet is noticed by their names.
pub proof fn unborn_branches_are_told_apart(head: Seq<char>, other: Seq<char>)
    requires
        ref_path(head) is Some,
        ref_path(other) is Some,
        trimmed(head) != trimmed(other),
    ensures
        is_switch(
            commit_text(commit_at(Some(head), RefFileModel::Missing)),
            commit_at(Some(other), RefFileModel::Missing),
        ),
{
    reveal_strlit("ref: ");
    assert("ref: "@.len() == 5);
}

impl GitHeadWatcher {
    /// A watcher of a workspace that has a git directory, given the commit that it stands at.
    pub fn start(has_git_dir: bool, commit: Option<String>) -> (r: Option<GitHeadWatcher>)
        ensures
            match r {
                Some(watcher) => has_git_dir && watcher.last_commit@ == commit_text(
                    commit.deep_view(),
                ),
                None => !has_git_dir,
            },
    {
        if !has_git_dir {
            return None;
        }
        let last_commit = match commit {
            Some(text) => text,
            None => {
                let none = String::new();
                assert(none@ =~= Seq::<char>::empty());
                none
            },
        };
        Some(GitHeadWatcher { last_commit })
    }

    /// Looks at the commit that the repository stands at now. Where it is another one, what was
    /// indexed is forgotten, the workspace is to be indexed anew, and the user is told.
    pub fn tick(&mut self, indexer: &mut Indexer, current: Option<String>) -> (r: Option<Message>)
        requires
            old(indexer).wf(),
        ensures
            final(indexer).wf(),
            is_switch(old(self).last_commit@, current.deep_view()) ==> {
                &&& r.deep_view() == Some(
                    MessageModel {
                        kind: MessageType::Info,
                        text: "kotlin-lsp: branch changed, reindexing workspace…"@,
                    },
                )
                &&& final(self).last_commit@ == commit_text(current.deep_view())
                &&& final(indexer).files@ == Map::<Seq<char>, FileData>::empty()
                &&& final(indexer).definitions@ == Map::<Seq<char>, Vec<Location>>::empty()
                &&& final(indexer).live_trees == old(indexer).live_trees
                &&& final(indexer).live_lines == old(indexer).live_lines
            },
            !is_switch(old(self).last_commit@, current.deep_view()) ==> {
                &&& r is None
                &&& *final(self) == *old(self)
                &&& *final(indexer) == *old(indexer)
            },
    {
        match current {
            Some(commit) => {
                if commit.as_str().unicode_len() == 0 || same_text(&commit, &self.last_commit) {
                    return None;
                }
                self.last_commit = commit;
                indexer.reset_index_state();
                Some(Message::info("kotlin-lsp: branch changed, reindexing workspace…"))
            },
            None => None,
        }
    }
}

}
