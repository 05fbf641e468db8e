//! The commands that the editor has the server execute.
//!
//! Executing a command is a chain of steps. Each step is performed outside, and what came of it
//! leads to the next one.

use crate::features::code_lens::GO_TO_LOCATIONS;
use crate::indexer::{FileData, Indexer};
use crate::json::{JsonModel, JsonValue};
use crate::protocol::{
    Location, Message, MessageModel, MessageType, Position, Range, ShowDocument, ShowDocumentModel,
};
use crate::text::{joined, same_text};
use crate::urls::{normal_url, normalize_url};
use vstd::prelude::*;

verus! {

/// The command to index the workspace anew.
pub const REINDEX: &'static str = "kotlin-lsp/reindex";

/// The command to remove the cache of a workspace.
pub const CLEAR_CACHE: &'static str = "kotlin-lsp/clearCache";

/// What to do next in executing a command.
#[derive(Debug, PartialEq, Eq)]
pub enum CommandStep {
    /// Nothing: the command is done.
    Nothing,
    /// Show a message. The command is then done.
    Show(Message),
    /// Start to index the workspace, and show a message. The command is then done.
    Reindex(Message),
    /// Find out whether a path leads to a directory.
    CheckDirectory(String),
    /// Find the cache directory of a workspace: of the one at the given path, or else of the
    /// current one. The second text is how the workspace's path is displayed.
    LocateCache(Option<String>, String),
    /// Remove the cache directory that was found. The text is how the workspace's path is
    /// displayed.
    RemoveCache(String),
    /// Show a document. The command is then done.
    Open(ShowDocument),
}

/// What a step says.
pub enum CommandStepModel {
    Nothing,
    Show(MessageModel),
    Reindex(MessageModel),
    CheckDirectory(Seq<char>),
    LocateCache(Option<Seq<char>>, Seq<char>),
    RemoveCache(Seq<char>),
    Open(ShowDocumentModel),
}

impl DeepView for CommandStep {
    type V = CommandStepModel;

    open spec fn deep_view(&self) -> CommandStepModel {
        match self {
            CommandStep::Nothing => CommandStepModel::Nothing,
            CommandStep::Show(message) => CommandStepModel::Show(message.deep_view()),
            CommandStep::Reindex(message) => CommandStepModel::Reindex(message.deep_view()),
            CommandStep::CheckDirectory(path) => CommandStepModel::CheckDirectory(path@),
            CommandStep::LocateCache(path, shown) => CommandStepModel::LocateCache(
                path.deep_view(),
                shown@,
            ),
            CommandStep::RemoveCache(shown) => CommandStepModel::RemoveCache(shown@),
            CommandStep::Open(document) => CommandStepModel::Open(document.deep_view()),
        }
    }
}

/// The step that shows a warning.
pub open spec fn warn(text: Seq<char>) -> CommandStepModel {
    CommandStepModel::Show(MessageModel { kind: MessageType::Warning, text })
}

/// The step that shows an information.
pub open spec fn inform(text: Seq<char>) -> CommandStepModel {
    CommandStepModel::Show(MessageModel { kind: MessageType::Info, text })
}

/// The first step of reindexing: there has to be a workspace.
pub open spec fn reindex_step(root: Option<Seq<char>>) -> CommandStepModel {
    match root {
        Some(_) => CommandStepModel::Reindex(
            MessageModel {
                kind: MessageType::Info,
                text: "kotlin-lsp: reindexing workspace…"@,
            },
        ),
        None => warn("kotlin-lsp: no workspace root set"@),
    }
}

/// The path that the first argument gives.
pub open spec fn path_argument(arguments: Seq<JsonModel>) -> Option<Seq<char>> {
    if arguments.len() > 0 {
        arguments[0].as_str()
    } else {
        None
    }
}

/// The first step of clearing a cache: that of the workspace at the path that is given, or else
/// of the current workspace.
pub open spec fn clear_cache_step(
    arguments: Seq<JsonModel>,
    root: Option<Seq<char>>,
) -> CommandStepModel {
    match path_argument(arguments) {
        Some(path) => CommandStepModel::CheckDirectory(path),
        None => match root {
            Some(shown) => CommandStepModel::LocateCache(None, shown),
            None => warn("kotlin-lsp/clearCache: no workspace root set and no path provided"@),
        },
    }
}

/// The address and the range of the first of the locations that the third argument lists.
pub open spec fn first_location(arguments: Seq<JsonModel>) -> Option<(Seq<char>, JsonModel)> {
    if arguments.len() > 2 {
        match arguments[2].as_array() {
            Some(locations) if locations.len() > 0 => {
                let uri = match locations[0].get("uri"@) {
                    Some(value) => value.as_str(),
                    None => None,
                };
                match (uri, locations[0].get("range"@)) {
                    (Some(uri), Some(range)) => Some((uri, range)),
                    _ => None,
                }
            },
            _ => None,
        }
    } else {
        None
    }
}

/// A coordinate of a position: zero where it is not given, and cut to its low bits where it is
/// too large.
pub open spec fn coordinate(position: JsonModel, name: Seq<char>) -> u32 {
    match position.get(name) {
        Some(value) => match value.as_u64() {
            Some(n) => n as u32,
            None => 0,
        },
        None => 0,
    }
}

/// The position that a value describes.
pub open spec fn position_in(value: JsonModel) -> Position {
    Position {
        line: coordinate(value, "line"@),
        character: coordinate(value, "character"@),
    }
}

/// The range that a value describes, where it has both ends.
pub open spec fn range_in(value: JsonModel) -> Option<Range> {
    match (value.get("start"@), value.get("end"@)) {
        (Some(start), Some(end)) => Some(
            Range { start: position_in(start), end: position_in(end) },
        ),
        _ => None,
    }
}

/// The step that shows a range of the document with the given address, where there is one.
pub open spec fn open_step(uri: Option<Seq<char>>, range: JsonModel) -> CommandStepModel {
    match uri {
        Some(uri) => CommandStepModel::Open(
            ShowDocumentModel {
                uri,
                external: Some(false),
                take_focus: Some(true),
                selection: range_in(range),
            },
        ),
        None => CommandStepModel::Nothing,
    }
}

/// The step that goes to the first of the listed locations.
pub open spec fn go_to_step(arguments: Seq<JsonModel>) -> CommandStepModel {
    match first_location(arguments) {
        Some((uri, range)) => open_step(normal_url(uri), range),
        None => CommandStepModel::Nothing,
    }
}

/// The first step of executing a command. The root is how the path of the current workspace is
/// displayed, where there is one.
pub open spec fn first_step(
    command: Seq<char>,
    arguments: Seq<JsonModel>,
    root: Option<Seq<char>>,
) -> CommandStepModel {
    if command == REINDEX@ {
        reindex_step(root)
    } else if command == CLEAR_CACHE@ {
        clear_cache_step(arguments, root)
    } else if command == GO_TO_LOCATIONS@ {
        go_to_step(arguments)
    } else {
        CommandStepModel::Nothing
    }
}

/// The step after it was found out whether the given path leads to a directory.
pub open spec fn checked_step(path: Seq<char>, is_dir: bool) -> CommandStepModel {
    if is_dir {
        CommandStepModel::LocateCache(Some(path), path)
    } else {
        warn("kotlin-lsp/clearCache: not a directory: "@ + path)
    }
}

/// The step after the cache directory was looked for.
pub open spec fn located_step(shown: Seq<char>, found: bool) -> CommandStepModel {
    if found {
        CommandStepModel::RemoveCache(shown)
    } else {
        warn("kotlin-lsp/clearCache: cache path parent missing"@)
    }
}

/// The step after the removal of the cache directory, or the text of the error that it ended in.
pub open spec fn removed_step(
    shown: Seq<char>,
    failure: Option<Seq<char>>,
) -> CommandStepModel {
    match failure {
        None => inform("kotlin-lsp: cleared cache for "@ + shown),
        Some(error) => warn("kotlin-lsp: failed to clear cache: "@ + error),
    }
}

/// Starts to execute a command. The root is how the path of the current workspace is displayed,
/// where there is one.
///
/// Reindexing forgets at once what was indexed.
pub fn execute_command_impl(
    indexer: &mut Indexer,
    root: Option<&str>,
    command: &str,
    arguments: &Vec<JsonValue>,
) -> (r: CommandStep)
    requires
        old(indexer).wf(),
    ensures
        final(indexer).wf(),
        r.deep_view() == first_step(command@, arguments.deep_view(), root.deep_view()),
        r is Reindex ==> {
            &&& final(indexer).files@ == Map::<Seq<char>, FileData>::empty()
            &&& final(indexer).definitions@ == Map::<Seq<char>, Vec<Location>>::empty()
            &&& final(indexer).live_trees == old(indexer).live_trees
            &&& final(indexer).live_lines == old(indexer).live_lines
        },
        !(r is Reindex) ==> *final(indexer) == *old(indexer),
{
    if same_text(command, REINDEX) {
        match root {
            Some(_) => {
                indexer.reset_index_state();
                CommandStep::Reindex(Message::info("kotlin-lsp: reindexing workspace…"))
            },
            None => CommandStep::Show(Message::warning("kotlin-lsp: no workspace root set")),
        }
    } else if same_text(command, CLEAR_CACHE) {
        start_clear_cache(root, arguments)
    } else if same_text(command, GO_TO_LOCATIONS) {
        start_go_to_locations(arguments)
    } else {
        CommandStep::Nothing
    }
}

/// Starts to clear a cache.
fn start_clear_cache(root: Option<&str>, arguments: &Vec<JsonValue>) -> (r: CommandStep)
    ensures
        r.deep_view() == clear_cache_step(arguments.deep_view(), root.deep_view()),
{
    if arguments.len() > 0 {
        assert(arguments.deep_view()[0] == arguments@[0].deep_view());
        if let Some(path) = arguments[0].as_str() {
            return CommandStep::CheckDirectory(path.to_owned());
        }
    }
    match root {
        Some(shown) => CommandStep::LocateCache(None, shown.to_owned()),
        None => CommandStep::Show(
            Message::warning("kotlin-lsp/clearCache: no workspace root set and no path provided"),
        ),
    }
}

/// Goes to the first of the listed locations.
fn start_go_to_locations(arguments: &Vec<JsonValue>) -> (r: CommandStep)
    ensures
        r.deep_view() == go_to_step(arguments.deep_view()),
{
    if arguments.len() <= 2 {
        return CommandStep::Nothing;
    }
    assert(arguments.deep_view()[2] == arguments@[2].deep_view());
    let locations = match arguments[2].as_array() {
        Some(locations) => locations,
        None => return CommandStep::Nothing,
    };
    if locations.len() == 0 {
        return CommandStep::Nothing;
    }
    assert(locations.deep_view()[0] == locations@[0].deep_view());
    let uri = match locations[0].get("uri") {
        Some(value) => value.as_str(),
        None => None,
    };
    match (uri, locations[0].get("range")) {
        (Some(uri), Some(range)) => show_location(normalize_url(uri), range),
        _ => CommandStep::Nothing,
    }
}

/// Shows a range of the document with the given address, where there is one.
pub fn show_location(uri: Option<String>, range: &JsonValue) -> (r: CommandStep)
    ensures
        r.deep_view() == open_step(uri.deep_view(), range.deep_view()),
{
    match uri {
        Some(uri) => CommandStep::Open(
            ShowDocument {
                uri,
                external: Some(false),
                take_focus: Some(true),
                selection: parse_range(range),
            },
        ),
        None => CommandStep::Nothing,
    }
}

/// The range that a value describes, where it has both ends.
pub fn parse_range(value: &JsonValue) -> (r: Option<Range>)
    ensures
        r == range_in(value.deep_view()),
{
    match (value.get("start"), value.get("end")) {
        (Some(start), Some(end)) => Some(
            Range { start: parse_position(start), end: parse_position(end) },
        ),
        _ => None,
    }
}

/// The position that a value describes.
fn parse_position(value: &JsonValue) -> (r: Position)
    ensures
        r == position_in(value.deep_view()),
{
    Position {
        line: parse_coordinate(value, "line"),
        character: parse_coordinate(value, "character"),
    }
}

/// A coordinate of a position.
fn parse_coordinate(position: &JsonValue, name: &str) -> (r: u32)
    ensures
        r == coordinate(position.deep_view(), name@),
{
    match position.get(name) {
        Some(value) => match value.as_u64() {
            Some(n) => #[verifier::truncate] (n as u32),
            None => 0,
        },
        None => 0,
    }
}

/// Goes on once it is known whether the given path leads to a directory.
pub fn directory_checked(path: &str, is_dir: bool) -> (r: CommandStep)
    ensures
        r.deep_view() == checked_step(path@, is_dir),
{
    if is_dir {
        CommandStep::LocateCache(Some(path.to_owned()), path.to_owned())
    } else {
        CommandStep::Show(
            Message::warning(&joined("kotlin-lsp/clearCache: not a directory: ", path)),
        )
    }
}

/// Goes on once the cache directory was looked for.
pub fn cache_located(shown: &str, found: bool) -> (r: CommandStep)
    ensures
        r.deep_view() == located_step(shown@, found),
{
    if found {
        CommandStep::RemoveCache(shown.to_owned())
    } else {
        CommandStep::Show(Message::warning("kotlin-lsp/clearCache: cache path parent missing"))
    }
}

/// Goes on once the cache directory was removed, or the removal ended in an error.
pub fn cache_removed(shown: &str, failure: Option<&str>) -> (r: CommandStep)
    ensures
        r.deep_view() == removed_step(shown@, failure.deep_view()),
{
    match failure {
        None => CommandStep::Show(
            Message::info(&joined("kotlin-lsp: cleared cache for ", shown)),
        ),
        Some(error) => CommandStep::Show(
            Message::warning(&joined("kotlin-lsp: failed to clear cache: ", error)),
        ),
    }
}

}
