//! What holds of how the server starts and watches the repository, stated over what the editor,
//! the environment and the files say.

use crate::backend::git_head::{commit_at, commit_text, is_switch, ref_path, RefFileModel};
use crate::backend::initialize::{
    listed_texts, option_texts, resolved_root, root_uri_of, supports_snippets, texts_among,
    ClientRoot, InitializeParams, RootCandidate, RootSources, CONFIG_FILE, FALLBACK_HOME,
    PREFER_CONFIG_VARIABLE, ROOT_VARIABLE, SERVER_NAME,
};
use crate::json::JsonModel;
use crate::text::trimmed;
use crate::workspace::directories::{the_nearest_repository_is_the_root, GitLevel};
use vstd::prelude::*;

verus! {

/// The editor supports snippets exactly where it says so of completed items.
pub proof fn snippets_are_supported_where_the_editor_says_so(params: InitializeParams)
    ensures
        supports_snippets(params) <==> {
            &&& params.text_document is Some
            &&& params.text_document->0.completion is Some
            &&& params.text_document->0.completion->0.completion_item is Some
            &&& params.text_document->0.completion->0.completion_item->0.snippet_support == Some(
                true,
            )
        },
{
}

/// The address of the workspace is the root that the editor gives, or else its first folder.
pub proof fn the_root_goes_before_the_folders(params: InitializeParams)
    ensures
        params.root_uri is Some ==> root_uri_of(params) == Some(params.root_uri->0@),
        params.root_uri is None && params.workspace_folders is Some
            && params.workspace_folders->0@.len() > 0 ==> root_uri_of(params) == Some(
            params.workspace_folders->0@[0]@,
        ),
        params.root_uri is None && (params.workspace_folders is None
            || params.workspace_folders->0@.len() == 0) ==> root_uri_of(params) is None,
        SERVER_NAME@ == "kotlin-lsp"@,
{
}

/// The root is named by an environment variable or by a file below the home directory, which is
/// the one for temporary files where there is none.
pub proof fn roots_are_named_by_a_variable_or_a_file()
    ensures
        ROOT_VARIABLE@ == "KOTLIN_LSP_WORKSPACE_ROOT"@,
        PREFER_CONFIG_VARIABLE@ == "KOTLIN_LSP_PREFER_CONFIG_ROOT"@,
        CONFIG_FILE@ == ".config/kotlin-lsp/workspace"@,
        FALLBACK_HOME@ == "/tmp"@,
{
}

/// Whether a path is given that leads to a directory.
pub open spec fn is_given<P>(candidate: Option<RootCandidate<P>>) -> bool {
    candidate is Some && candidate->0.is_dir
}

/// Whether the editor gives a path that leads to a directory.
pub open spec fn is_given_by_editor<P>(client: Option<ClientRoot<P>>) -> bool {
    client is Some && client->0.is_dir
}

/// Whether a directory is the nearest with a git repository, or else the first where there is
/// none.
pub open spec fn is_repository_of<P>(levels: Seq<GitLevel<P>>, i: int) -> bool {
    &&& 0 <= i < levels.len()
    &&& forall|j: int| 0 <= j < i ==> !(#[trigger] levels[j]).has_git
    &&& levels[i].has_git || (i == 0 && forall|j: int|
        0 <= j < levels.len() ==> !(#[trigger] levels[j]).has_git)
}

/// The root is the directory that the environment names. Without one it is that of the editor or
/// that of the configuration: the preferred one where both are directories, and else the one that
/// is. The editor's is moved up to the repository that it lies in. Without any there is no root.
pub proof fn the_root_is_the_first_directory_that_is_given<P>(
    prefer_config: bool,
    sources: RootSources<P>,
    i: int,
)
    ensures
        is_given(sources.environment) ==> resolved_root(prefer_config, sources) == Some(
            sources.environment->0.path,
        ),
        !is_given(sources.environment) && is_given(sources.config) && (prefer_config
            || !is_given_by_editor(sources.client)) ==> resolved_root(prefer_config, sources)
            == Some(sources.config->0.path),
        !is_given(sources.environment) && is_given_by_editor(sources.client) && (!prefer_config
            || !is_given(sources.config)) && is_repository_of(sources.client->0.levels@, i)
            ==> resolved_root(prefer_config, sources) == Some(sources.client->0.levels@[i].path),
        !is_given(sources.environment) && !is_given(sources.config) && !is_given_by_editor(
            sources.client,
        ) ==> resolved_root(prefer_config, sources) is None,
{
    if sources.client is Some {
        let levels = sources.client->0.levels@;
        the_nearest_repository_is_the_root(levels, i);
    }
}

proof fn lemma_texts_in_order(
    values: Seq<JsonModel>,
    pred: spec_fn(JsonModel) -> bool,
    text: spec_fn(JsonModel) -> Seq<char>,
)
    requires
        forall|value: JsonModel| #[trigger] pred(value) == (value is Str),
        forall|value: JsonModel| #[trigger] text(value) == value->Str_0,
    ensures
        texts_among(values) == values.filter(pred).map_values(text),
    decreases values.len(),
{
    reveal(Seq::filter);
    let wanted = values.filter(pred).map_values(text);
    if values.len() > 0 {
        let rest = values.drop_last();
        let last = values.last();
        lemma_texts_in_order(rest, pred, text);
        assert(pred(last) == (last is Str));
        if pred(last) {
            assert(wanted =~= rest.filter(pred).map_values(text).push(text(last)));
        }
    }
    assert(texts_among(values) =~= wanted);
}

/// Whether the options list values under a name among the options for indexing.
pub open spec fn lists_values(
    options: Option<JsonModel>,
    name: Seq<char>,
    values: Seq<JsonModel>,
) -> bool {
    &&& options is Some
    &&& options->0.get("indexingOptions"@) is Some
    &&& options->0.get("indexingOptions"@)->0.get(name) == Some(JsonModel::Array(values))
}

/// An option for indexing gives the texts that are listed under its name, in their order, and
/// leaves out what is no text. Where no list is given there are none.
pub proof fn options_give_the_texts_that_are_listed(
    options: Option<JsonModel>,
    name: Seq<char>,
    values: Seq<JsonModel>,
)
    ensures
        lists_values(options, name, values) ==> listed_texts(options, name) == values.filter(
            |value: JsonModel| value is Str,
        ).map_values(|value: JsonModel| value->Str_0),
        lists_values(options, name, values) ==> (option_texts(options, name) is Some
            <==> listed_texts(options, name).len() > 0),
        option_texts(options, name) is Some ==> option_texts(options, name)->0 == listed_texts(
            options,
            name,
        ),
        (forall|any: Seq<JsonModel>| !#[trigger] lists_values(options, name, any))
            ==> option_texts(options, name) is None && listed_texts(options, name).len() == 0,
{
    lemma_texts_in_order(
        values,
        |value: JsonModel| value is Str,
        |value: JsonModel| value->Str_0,
    );
    if option_texts(options, name) is Some {
        let found = options->0.get("indexingOptions"@)->0.get(name)->0->Array_0;
        assert(lists_values(options, name, found));
    }
}

/// A head is symbolic exactly where, trimmed, it begins with `ref: `. What follows is the file
/// that it names.
pub proof fn symbolic_heads_name_a_file(head: Seq<char>, path: Seq<char>)
    ensures
        ref_path(head) == Some(path) <==> trimmed(head) == "ref: "@ + path,
        ref_path(head) is None <==> !"ref: "@.is_prefix_of(trimmed(head)),
{
    let text = trimmed(head);
    let start = "ref: "@;
    if start.is_prefix_of(text) {
        assert(text =~= start + text.skip(start.len() as int));
    }
    if text == start + path {
        assert(text.subrange(0, start.len() as int) =~= start);
        assert(text.skip(start.len() as int) =~= path);
    }
}

/// The commit is what the head says, or what the file says that a symbolic head names, trimmed
/// in either case. A symbolic head whose file is missing stands for itself, and where a file
/// cannot be read there is no commit.
pub proof fn commits_are_read_from_the_head_or_its_file(
    head: Seq<char>,
    file: RefFileModel,
    text: Seq<char>,
)
    ensures
        !"ref: "@.is_prefix_of(trimmed(head)) ==> commit_at(Some(head), file) == Some(
            trimmed(head),
        ),
        "ref: "@.is_prefix_of(trimmed(head)) ==> {
            &&& commit_at(Some(head), RefFileModel::Text(text)) == Some(trimmed(text))
            &&& commit_at(Some(head), RefFileModel::Missing) == Some(trimmed(head))
            &&& commit_at(Some(head), RefFileModel::Unreadable) is None
        },
        commit_at(None, file) is None,
{
}

/// The branch has switched exactly where there is a commit, not empty, that is another than the
/// last one seen.
pub proof fn a_switch_is_another_commit(last: Seq<char>, commit: Seq<char>)
    ensures
        is_switch(last, Some(commit)) <==> commit.len() > 0 && commit != last,
        !is_switch(last, None),
        commit_text(Some(commit)) == commit,
        commit_text(None).len() == 0,
{
}

}
