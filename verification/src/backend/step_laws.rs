//! What holds of the steps of a command, stated over the command, its arguments and what came of
//! the steps before.

use crate::backend::capabilities::{capabilities_with, SyncKind, TokenLegendModel};
use crate::backend::commands::{
    checked_step, coordinate, first_location, first_step, located_step, range_in, removed_step,
    CommandStepModel,
};
use crate::backend::events::{action_for, Event, FileChangeType, FileEvent, WatchedFileAction};
use crate::backend::git_head::{HEAD_FILE, POLL_SECONDS};
use crate::backend::panic_guard::{panic_text, PanicPayload, INTERNAL_ERROR};
use crate::backend::progress::{
    percent, CREATE_TIMEOUT_MILLIS, PROGRESS_METHOD, PROGRESS_TITLE,
};
use crate::features::code_lens::navigate_lens;
use crate::json::{field_named, JsonModel};
use crate::protocol::{
    LocationModel, MessageModel, MessageType, Position, Range, ShowDocumentModel,
};
use crate::urls::normal_url;
use crate::workspace::file_change_handler::DEBOUNCE_MILLIS;
use vstd::prelude::*;

verus! {

/// The step that shows a message.
pub open spec fn shows(kind: MessageType, text: Seq<char>) -> CommandStepModel {
    CommandStepModel::Show(MessageModel { kind, text })
}

/// Reindexing starts where there is a workspace, and tells the user so. Where there is none, the
/// user is warned.
pub proof fn reindexing_starts_in_a_workspace(arguments: Seq<JsonModel>, root: Option<Seq<char>>)
    ensures
        root is Some ==> first_step("kotlin-lsp/reindex"@, arguments, root)
            == CommandStepModel::Reindex(
            MessageModel { kind: MessageType::Info, text: "kotlin-lsp: reindexing workspace…"@ },
        ),
        root is None ==> first_step("kotlin-lsp/reindex"@, arguments, root) == shows(
            MessageType::Warning,
            "kotlin-lsp: no workspace root set"@,
        ),
{
}

proof fn lemma_clear_cache_is_another_command()
    ensures
        "kotlin-lsp/reindex"@ != "kotlin-lsp/clearCache"@,
        "kotlin-lsp/reindex"@ != "editor.action.goToLocations"@,
        "kotlin-lsp/clearCache"@ != "editor.action.goToLocations"@,
{
    reveal_strlit("kotlin-lsp/reindex");
    reveal_strlit("kotlin-lsp/clearCache");
    reveal_strlit("editor.action.goToLocations");
    assert("kotlin-lsp/reindex"@.len() == 18);
    assert("kotlin-lsp/clearCache"@.len() == 21);
    assert("editor.action.goToLocations"@.len() == 27);
}

/// The cache that is cleared is that of the path in the first argument, where it is a text, and
/// else that of the current workspace. Where there is neither, the user is warned.
pub proof fn a_cache_is_that_of_the_path_or_of_the_workspace(
    arguments: Seq<JsonModel>,
    root: Option<Seq<char>>,
    path: Seq<char>,
)
    ensures
        arguments.len() > 0 && arguments[0] == JsonModel::Str(path) ==> first_step(
            "kotlin-lsp/clearCache"@,
            arguments,
            root,
        ) == CommandStepModel::CheckDirectory(path),
        arguments.len() == 0 || !(arguments[0] is Str) ==> first_step(
            "kotlin-lsp/clearCache"@,
            arguments,
            root,
        ) == (match root {
            Some(shown) => CommandStepModel::LocateCache(None, shown),
            None => shows(
                MessageType::Warning,
                "kotlin-lsp/clearCache: no workspace root set and no path provided"@,
            ),
        }),
{
    lemma_clear_cache_is_another_command();
}

/// Clearing a cache goes on as long as what is needed is there. The user is told the path once
/// the cache is cleared, and warned of what went wrong otherwise.
pub proof fn clearing_a_cache_goes_on_while_it_can(
    path: Seq<char>,
    shown: Seq<char>,
    error: Seq<char>,
)
    ensures
        checked_step(path, true) == CommandStepModel::LocateCache(Some(path), path),
        checked_step(path, false) == shows(
            MessageType::Warning,
            "kotlin-lsp/clearCache: not a directory: "@ + path,
        ),
        located_step(shown, true) == CommandStepModel::RemoveCache(shown),
        located_step(shown, false) == shows(
            MessageType::Warning,
            "kotlin-lsp/clearCache: cache path parent missing"@,
        ),
        removed_step(shown, None) == shows(
            MessageType::Info,
            "kotlin-lsp: cleared cache for "@ + shown,
        ),
        removed_step(shown, Some(error)) == shows(
            MessageType::Warning,
            "kotlin-lsp: failed to clear cache: "@ + error,
        ),
{
}

/// Whether the third argument is a list whose first item has the given address and range.
pub open spec fn lists_first(
    arguments: Seq<JsonModel>,
    uri: Seq<char>,
    range: JsonModel,
) -> bool {
    &&& arguments.len() > 2
    &&& arguments[2] is Array
    &&& arguments[2]->Array_0.len() > 0
    &&& arguments[2]->Array_0[0].get("uri"@) == Some(JsonModel::Str(uri))
    &&& arguments[2]->Array_0[0].get("range"@) == Some(range)
}

/// Going to a location shows the first of those that the third argument lists, with its range
/// selected and the focus on it. Nothing is shown where no such location is given or its address
/// is not valid.
pub proof fn going_to_a_location_shows_the_first_listed(
    arguments: Seq<JsonModel>,
    root: Option<Seq<char>>,
    uri: Seq<char>,
    range: JsonModel,
)
    ensures
        lists_first(arguments, uri, range) ==> first_step(
            "editor.action.goToLocations"@,
            arguments,
            root,
        ) == (match normal_url(uri) {
            Some(normal) => CommandStepModel::Open(
                ShowDocumentModel {
                    uri: normal,
                    external: Some(false),
                    take_focus: Some(true),
                    selection: range_in(range),
                },
            ),
            None => CommandStepModel::Nothing,
        }),
        (forall|any_uri: Seq<char>, any_range: JsonModel|
            !#[trigger] lists_first(arguments, any_uri, any_range)) ==> first_step(
            "editor.action.goToLocations"@,
            arguments,
            root,
        ) is Nothing,
{
    lemma_clear_cache_is_another_command();
    if let Some((found, place)) = first_location(arguments) {
        assert(lists_first(arguments, found, place));
    }
}

/// A range is read where both of its ends are given. Of each end the line and the character are
/// read, and one that is not given as a number is zero.
pub proof fn ranges_are_read_from_both_ends(value: JsonModel, start: JsonModel, end: JsonModel)
    ensures
        value.get("start"@) == Some(start) && value.get("end"@) == Some(end) ==> range_in(value)
            == Some(
            Range {
                start: Position {
                    line: coordinate(start, "line"@),
                    character: coordinate(start, "character"@),
                },
                end: Position {
                    line: coordinate(end, "line"@),
                    character: coordinate(end, "character"@),
                },
            },
        ),
        value.get("start"@) is None || value.get("end"@) is None ==> range_in(value) is None,
{
}

/// A coordinate is the number that is given. Of a number that is too large its low bits count,
/// and without a number it is zero.
pub proof fn coordinates_are_the_numbers_given(position: JsonModel, name: Seq<char>, n: u64)
    ensures
        position.get(name) == Some(JsonModel::Unsigned(n)) && n <= u32::MAX ==> coordinate(
            position,
            name,
        ) == n,
        position.get(name) == Some(JsonModel::Unsigned(n)) ==> coordinate(position, name) == n
            % 0x1_0000_0000,
        position.get(name) is None || !(position.get(name)->0 is Unsigned) ==> coordinate(
            position,
            name,
        ) == 0,
{
    assert((n as u32) as u64 == n % 0x1_0000_0000) by (bit_vector);
}

proof fn lemma_two_fields(
    first: (Seq<char>, JsonModel),
    second: (Seq<char>, JsonModel),
)
    requires
        first.0 != second.0,
    ensures
        JsonModel::Object(seq![first, second]).get(first.0) == Some(first.1),
        JsonModel::Object(seq![first, second]).get(second.0) == Some(second.1),
{
    let fields = seq![first, second];
    assert(fields.drop_first() =~= seq![second]);
    assert(field_named(fields.drop_first(), second.0) == Some(second.1));
}

/// Whether a value is an object that gives a line and a character.
pub open spec fn gives_position(value: JsonModel, position: Position) -> bool {
    &&& value.get("line"@) == Some(JsonModel::Unsigned(position.line as u64))
    &&& value.get("character"@) == Some(JsonModel::Unsigned(position.character as u64))
}

/// Whether a value is an object that gives the address and the range of a location.
pub open spec fn gives_location(value: JsonModel, location: LocationModel) -> bool {
    &&& value.get("uri"@) == Some(JsonModel::Str(location.uri))
    &&& value.get("range"@) is Some
    &&& value.get("range"@)->0.get("start"@) is Some
    &&& value.get("range"@)->0.get("end"@) is Some
    &&& gives_position(value.get("range"@)->0.get("start"@)->0, location.range.start)
    &&& gives_position(value.get("range"@)->0.get("end"@)->0, location.range.end)
}

/// A navigation lens stands at the given range under the given title. Its command is to go to
/// locations, and the arguments are the target's address, where the target begins, the list of
/// the target alone, and how to go there.
pub proof fn lenses_carry_their_targets(range: Range, title: Seq<char>, target: LocationModel)
    ensures
        ({
            let lens = navigate_lens(range, title, target);
            let command = lens.command->0;
            let arguments = command.arguments->0;
            &&& lens.range == range
            &&& lens.data is None
            &&& lens.command is Some
            &&& command.title == title
            &&& command.command == "editor.action.goToLocations"@
            &&& command.arguments is Some
            &&& arguments.len() == 4
            &&& arguments[0] == JsonModel::Str(target.uri)
            &&& gives_position(arguments[1], target.range.start)
            &&& arguments[2] is Array
            &&& arguments[2]->Array_0.len() == 1
            &&& gives_location(arguments[2]->Array_0[0], target)
            &&& arguments[3] == JsonModel::Str("goto"@)
        }),
{
    reveal_strlit("start");
    reveal_strlit("end");
    reveal_strlit("line");
    reveal_strlit("character");
    reveal_strlit("uri");
    reveal_strlit("range");
    assert("start"@.len() == 5 && "end"@.len() == 3 && "uri"@.len() == 3 && "range"@.len() == 5);
    assert("line"@.len() == 4 && "character"@.len() == 9);
    let start = JsonModel::Object(
        seq![
            ("line"@, JsonModel::Unsigned(target.range.start.line as u64)),
            ("character"@, JsonModel::Unsigned(target.range.start.character as u64)),
        ],
    );
    let end = JsonModel::Object(
        seq![
            ("line"@, JsonModel::Unsigned(target.range.end.line as u64)),
            ("character"@, JsonModel::Unsigned(target.range.end.character as u64)),
        ],
    );
    lemma_two_fields(
        ("line"@, JsonModel::Unsigned(target.range.start.line as u64)),
        ("character"@, JsonModel::Unsigned(target.range.start.character as u64)),
    );
    lemma_two_fields(
        ("line"@, JsonModel::Unsigned(target.range.end.line as u64)),
        ("character"@, JsonModel::Unsigned(target.range.end.character as u64)),
    );
    lemma_two_fields(("start"@, start), ("end"@, end));
    lemma_two_fields(
        ("uri"@, JsonModel::Str(target.uri)),
        ("range"@, JsonModel::Object(seq![("start"@, start), ("end"@, end)])),
    );
}

/// A file that is deleted on disk is reported as deleted. One that is created or changed is read
/// and indexed.
pub proof fn files_on_disk_are_forgotten_or_indexed(change: FileEvent)
    ensures
        change.kind == FileChangeType::Deleted ==> action_for(change) == WatchedFileAction::Send(
            Event::FileDeleted { uri: change.uri },
        ),
        change.kind == FileChangeType::Created || change.kind == FileChangeType::Changed
            ==> action_for(change) == (WatchedFileAction::Reindex { uri: change.uri }),
{
}

/// The percentage is the largest whole one that is not more than what is done, as far as it can
/// be counted. Of no work, none is done.
pub proof fn percentages_are_rounded_down(done: nat, total: nat)
    requires
        done * 100 < total * 0x1_0000_0000 || total == 0,
    ensures
        total > 0 ==> percent(done, total) * total <= done * 100,
        total > 0 ==> done * 100 < (percent(done, total) + 1) * total,
        total == 0 ==> percent(done, total) == 0,
{
    if total > 0 {
        let share = done * 100 / total;
        assert(share < 0x1_0000_0000 && share * total <= done * 100 && done * 100 < (share + 1)
            * total) by (nonlinear_arith)
            requires
                total > 0,
                done * 100 < total * 0x1_0000_0000,
                share == done * 100 / total,
        ;
        assert(percent(done, total) == share);
    }
}

/// A panic is logged with its text, where it carried one, and answered as an internal error.
pub proof fn panics_are_told_by_their_text(payload: PanicPayload)
    ensures
        INTERNAL_ERROR == -32603,
        payload matches PanicPayload::Text(text) ==> panic_text(payload) == text@,
        payload is Other ==> panic_text(payload) == "unknown panic"@,
{
}

/// An edit is indexed three tenths of a second after it, the head of the repository is looked at
/// every two seconds, and the editor has half a second to accept a token. Progress is reported
/// under the server's name.
pub proof fn the_server_keeps_its_times()
    ensures
        DEBOUNCE_MILLIS == 300,
        POLL_SECONDS == 2,
        HEAD_FILE@ == "HEAD"@,
        CREATE_TIMEOUT_MILLIS == 500,
        PROGRESS_TITLE@ == "kotlin-lsp"@,
        PROGRESS_METHOD@ == "$/progress"@,
{
}

/// The server wants to be told of opened, edited and closed documents, with the whole text of
/// those that are edited. It offers everything that it can do, and names the commands that it
/// executes and the characters that it completes after.
pub proof fn the_server_offers_what_it_can_do(legend: TokenLegendModel)
    ensures
        ({
            let offer = capabilities_with(legend);
            &&& offer.text_document_sync.open_close == Some(true)
            &&& offer.text_document_sync.change == Some(SyncKind::Full)
            &&& offer.text_document_sync.save_with_text == Some(false)
            &&& offer.completion_triggers == seq!["."@, ":"@, "@"@]
            &&& offer.signature_triggers == seq!["("@, ","@]
            &&& offer.commands == seq![
                "kotlin-lsp/reindex"@,
                "kotlin-lsp/clearCache"@,
                "editor.action.goToLocations"@,
            ]
            &&& offer.completion_resolve && offer.hover && offer.definition && offer.declaration
            &&& offer.implementation && offer.references && offer.document_highlight
            &&& offer.document_symbol && offer.inlay_hint && offer.workspace_symbol
            &&& offer.prepare_rename && offer.folding_range && offer.code_action
            &&& offer.tokens_full && offer.tokens_range
            &&& !offer.code_lens_resolve
            &&& offer.token_legend == legend
        }),
{
}

}
