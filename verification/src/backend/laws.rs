//! What holds of the server's commands and lenses together.

use crate::backend::capabilities::{capabilities_with, TokenLegendModel};
use crate::backend::commands::{
    checked_step, first_step, located_step, open_step, range_in, removed_step, CommandStepModel,
    CLEAR_CACHE, REINDEX,
};
use crate::features::code_lens::{
    location_json, navigate_arguments, navigate_lens, position_json, range_json, GO_TO_LOCATIONS,
};
use crate::json::{field_named, JsonModel};
use crate::protocol::{LocationModel, Range, ShowDocumentModel};
use crate::urls::normal_url;
use vstd::prelude::*;

verus! {

/// The last step of executing a command, whatever comes of the steps before it: whether the
/// given path leads to a directory, whether a cache directory was found, and what its removal
/// failed with.
pub open spec fn last_step(
    step: CommandStepModel,
    is_dir: bool,
    found: bool,
    failure: Option<Seq<char>>,
) -> CommandStepModel {
    let checked = match step {
        CommandStepModel::CheckDirectory(path) => checked_step(path, is_dir),
        step => step,
    };
    let located = match checked {
        CommandStepModel::LocateCache(_, shown) => located_step(shown, found),
        step => step,
    };
    match located {
        CommandStepModel::RemoveCache(shown) => removed_step(shown, failure),
        step => step,
    }
}

proof fn lemma_commands_differ()
    ensures
        REINDEX@ != CLEAR_CACHE@,
        REINDEX@ != GO_TO_LOCATIONS@,
        CLEAR_CACHE@ != GO_TO_LOCATIONS@,
{
    reveal_strlit("kotlin-lsp/reindex");
    reveal_strlit("kotlin-lsp/clearCache");
    reveal_strlit("editor.action.goToLocations");
    assert(REINDEX@.len() == 18);
    assert(CLEAR_CACHE@.len() == 21);
    assert(GO_TO_LOCATIONS@.len() == 27);
}

/// Every command comes to an end: the user is told exactly once what came of reindexing and of
/// clearing a cache, going to a location shows at most one document, and a command that the
/// server does not know does nothing.
pub proof fn every_command_ends(
    command: Seq<char>,
    arguments: Seq<JsonModel>,
    root: Option<Seq<char>>,
    is_dir: bool,
    found: bool,
    failure: Option<Seq<char>>,
)
    ensures
        ({
            let end = last_step(first_step(command, arguments, root), is_dir, found, failure);
            if command == REINDEX@ {
                end is Reindex || end is Show
            } else if command == CLEAR_CACHE@ {
                end is Show
            } else if command == GO_TO_LOCATIONS@ {
                end is Open || end is Nothing
            } else {
                end is Nothing
            }
        }),
{
    lemma_commands_differ();
}

/// A cache directory is removed only where the command asks for it, and the path that it gives
/// leads to a directory.
pub proof fn caches_are_removed_only_on_demand(
    command: Seq<char>,
    arguments: Seq<JsonModel>,
    root: Option<Seq<char>>,
    path: Seq<char>,
    is_dir: bool,
)
    ensures
        first_step(command, arguments, root) is CheckDirectory ==> command == CLEAR_CACHE@,
        first_step(command, arguments, root) is LocateCache ==> command == CLEAR_CACHE@
            && root is Some,
        !(first_step(command, arguments, root) is RemoveCache),
        checked_step(path, is_dir) is LocateCache ==> is_dir,
{
}

/// The command of a navigation lens is one that the server tells the editor of.
pub proof fn lens_commands_are_known(
    legend: TokenLegendModel,
    range: Range,
    title: Seq<char>,
    target: LocationModel,
)
    ensures
        capabilities_with(legend).commands.contains(
            navigate_lens(range, title, target).command->0.command,
        ),
{
    assert(capabilities_with(legend).commands[2] == GO_TO_LOCATIONS@);
}

/// A command that the server does not tell the editor of does nothing.
pub proof fn unknown_commands_do_nothing(
    legend: TokenLegendModel,
    command: Seq<char>,
    arguments: Seq<JsonModel>,
    root: Option<Seq<char>>,
)
    requires
        !capabilities_with(legend).commands.contains(command),
    ensures
        first_step(command, arguments, root) is Nothing,
{
    let known = capabilities_with(legend).commands;
    assert(known[0] == REINDEX@);
    assert(known[1] == CLEAR_CACHE@);
    assert(known[2] == GO_TO_LOCATIONS@);
}

proof fn lemma_pair_fields(first: (Seq<char>, JsonModel), second: (Seq<char>, JsonModel))
    requires
        first.0 != second.0,
    ensures
        JsonModel::Object(seq![first, second]).get(first.0) == Some(first.1),
        JsonModel::Object(seq![first, second]).get(second.0) == Some(second.1),
{
    let fields = seq![first, second];
    assert(fields.drop_first() =~= seq![second]);
    assert(field_named(fields.drop_first(), second.0) == Some(second.1));
}

/// A range that a lens carries is read back as it was.
proof fn lemma_range_round_trip(range: Range)
    ensures
        range_in(range_json(range)) == Some(range),
{
    reveal_strlit("start");
    reveal_strlit("end");
    reveal_strlit("line");
    reveal_strlit("character");
    assert("start"@.len() == 5 && "end"@.len() == 3);
    assert("line"@.len() == 4 && "character"@.len() == 9);
    lemma_pair_fields(
        ("start"@, position_json(range.start)),
        ("end"@, position_json(range.end)),
    );
    lemma_pair_fields(
        ("line"@, JsonModel::Unsigned(range.start.line as u64)),
        ("character"@, JsonModel::Unsigned(range.start.character as u64)),
    );
    lemma_pair_fields(
        ("line"@, JsonModel::Unsigned(range.end.line as u64)),
        ("character"@, JsonModel::Unsigned(range.end.character as u64)),
    );
}

/// A navigation lens leads to its target: executing its command shows the target's document with
/// the target's range selected.
pub proof fn lenses_lead_to_their_targets(
    range: Range,
    title: Seq<char>,
    target: LocationModel,
    root: Option<Seq<char>>,
)
    ensures
        ({
            let command = navigate_lens(range, title, target).command->0;
            let step = first_step(command.command, command.arguments->0, root);
            match normal_url(target.uri) {
                Some(uri) => step == CommandStepModel::Open(
                    ShowDocumentModel {
                        uri,
                        external: Some(false),
                        take_focus: Some(true),
                        selection: Some(target.range),
                    },
                ),
                None => step is Nothing,
            }
        }),
{
    lemma_commands_differ();
    reveal_strlit("uri");
    reveal_strlit("range");
    assert("uri"@.len() == 3 && "range"@.len() == 5);
    lemma_pair_fields(
        ("uri"@, JsonModel::Str(target.uri)),
        ("range"@, range_json(target.range)),
    );
    lemma_range_round_trip(target.range);
    let arguments = navigate_arguments(target);
    assert(arguments[2] == JsonModel::Array(seq![location_json(target)]));
    assert(seq![location_json(target)][0] == location_json(target));
    assert(first_step(GO_TO_LOCATIONS@, arguments, root) == open_step(
        normal_url(target.uri),
        range_json(target.range),
    ));
}

}
