//! How the server starts: what the editor supports, where the workspace lies, and what of it is
//! to be indexed.

use crate::backend::capabilities::{
    capabilities_with, server_capabilities, ServerCapabilities, TokenLegend,
};
use crate::json::{JsonModel, JsonValue};
use crate::text::{trim, trimmed};
use crate::workspace::directories::{git_level, walk_up_to_git_root, GitLevel};
use vstd::prelude::*;

verus! {

/// The name that the server goes by.
pub const SERVER_NAME: &'static str = "kotlin-lsp";

/// The environment variable that names the workspace root.
pub const ROOT_VARIABLE: &'static str = "KOTLIN_LSP_WORKSPACE_ROOT";

/// The environment variable that lets the configured root go before that of the editor.
pub const PREFER_CONFIG_VARIABLE: &'static str = "KOTLIN_LSP_PREFER_CONFIG_ROOT";

/// The file, below the home directory, that names the workspace root.
pub const CONFIG_FILE: &'static str = ".config/kotlin-lsp/workspace";

/// What stands for the home directory where there is none.
pub const FALLBACK_HOME: &'static str = "/tmp";

/// What the editor says of the items that it completes.
#[derive(Clone, Copy, Debug, PartialEq, Eq)]
pub struct CompletionItemCapability {
    pub snippet_support: Option<bool>,
}

/// What the editor says of completion.
#[derive(Clone, Copy, Debug, PartialEq, Eq)]
pub struct CompletionCapability {
    pub completion_item: Option<CompletionItemCapability>,
}

/// What the editor says of text documents.
#[derive(Clone, Copy, Debug, PartialEq, Eq)]
pub struct TextDocumentCapability {
    pub completion: Option<CompletionCapability>,
}

/// What the editor says as it starts the server.
#[derive(Debug, PartialEq, Eq)]
pub struct InitializeParams {
    pub text_document: Option<TextDocumentCapability>,
    pub root_uri: Option<String>,
    /// The addresses of the workspace's folders.
    pub workspace_folders: Option<Vec<String>>,
    pub initialization_options: Option<JsonValue>,
}

/// What the server is to index.
#[derive(Debug, PartialEq, Eq)]
pub struct Config<P> {
    pub root: P,
    pub explicit_source_paths: Vec<String>,
    pub ignore_patterns: Vec<String>,
    pub pin_workspace: bool,
}

/// What the server answers as it starts.
#[derive(Debug, PartialEq, Eq)]
pub struct InitializeResult {
    pub name: String,
    pub version: String,
    pub capabilities: ServerCapabilities,
}

/// What comes of starting the server.
#[derive(Debug, PartialEq, Eq)]
pub struct Initialization<P> {
    pub snippet_support: bool,
    /// What to index, where a workspace was found.
    pub config: Option<Config<P>>,
    pub result: InitializeResult,
}

/// A path that may be the workspace root.
pub struct RootCandidate<P> {
    pub path: P,
    pub is_dir: bool,
}

/// The path that the editor gives for the workspace.
pub struct ClientRoot<P> {
    pub is_dir: bool,
    /// The path and those above it, up to the root of the file system.
    pub levels: Vec<GitLevel<P>>,
}

/// Where the workspace may lie, by who says so.
pub struct RootSources<P> {
    pub environment: Option<RootCandidate<P>>,
    pub config: Option<RootCandidate<P>>,
    pub client: Option<ClientRoot<P>>,
}

/// Whether the editor says that it supports snippets.
pub open spec fn supports_snippets(params: InitializeParams) -> bool {
    params.text_document matches Some(text_document) && text_document.completion matches Some(
        completion,
    ) && completion.completion_item matches Some(item) && item.snippet_support == Some(true)
}

/// The address that the editor gives for the workspace: its root, or else its first folder.
pub open spec fn root_uri_of(params: InitializeParams) -> Option<Seq<char>> {
    match params.root_uri {
        Some(uri) => Some(uri@),
        None => match params.workspace_folders {
            Some(folders) if folders@.len() > 0 => Some(folders@[0]@),
            _ => None,
        },
    }
}

/// The candidate, where it is a directory.
pub open spec fn directory_of<P>(candidate: Option<RootCandidate<P>>) -> Option<P> {
    match candidate {
        Some(candidate) if candidate.is_dir => Some(candidate.path),
        _ => None,
    }
}

/// The root that the editor's path leads to, where it is a directory: the git repository that it
/// lies in, or else the path.
pub open spec fn client_root_of<P>(client: Option<ClientRoot<P>>) -> Option<P> {
    match client {
        Some(client) if client.is_dir => Some(client.levels@[git_level(client.levels@)].path),
        _ => None,
    }
}

/// The first of two paths that is there.
pub open spec fn either<P>(first: Option<P>, second: Option<P>) -> Option<P> {
    if first is Some {
        first
    } else {
        second
    }
}

/// The workspace root. The environment goes first. Then come the editor and the configuration,
/// in the order that is preferred.
pub open spec fn resolved_root<P>(prefer_config: bool, sources: RootSources<P>) -> Option<P> {
    let environment = directory_of(sources.environment);
    let config = directory_of(sources.config);
    let client = client_root_of(sources.client);
    if prefer_config {
        either(environment, either(config, client))
    } else {
        either(environment, either(client, config))
    }
}

/// The environment's root goes before all others. Beyond that the editor's root is honoured
/// wherever there is one, unless the configured one is preferred and there is one.
pub proof fn roots_go_by_preference<P>(prefer_config: bool, sources: RootSources<P>)
    ensures
        directory_of(sources.environment) is Some ==> resolved_root(prefer_config, sources)
            == directory_of(sources.environment),
        directory_of(sources.environment) is None && client_root_of(sources.client) is Some
            && !prefer_config ==> resolved_root(prefer_config, sources) == client_root_of(
            sources.client,
        ),
        directory_of(sources.environment) is None && directory_of(sources.config) is Some
            && prefer_config ==> resolved_root(prefer_config, sources) == directory_of(
            sources.config,
        ),
        resolved_root(prefer_config, sources) is None <==> directory_of(sources.environment) is None
            && directory_of(sources.config) is None && client_root_of(sources.client) is None,
{
}

/// The texts among the listed values.
pub open spec fn texts_among(values: Seq<JsonModel>) -> Seq<Seq<char>>
    decreases values.len(),
{
    if values.len() == 0 {
        Seq::empty()
    } else {
        let before = texts_among(values.drop_last());
        match values.last().as_str() {
            Some(text) => before.push(text),
            None => before,
        }
    }
}

/// The texts that an indexing option lists, where it lists any.
pub open spec fn option_texts(options: Option<JsonModel>, name: Seq<char>) -> Option<
    Seq<Seq<char>>,
> {
    match options {
        Some(options) => match options.get("indexingOptions"@) {
            Some(indexing) => match indexing.get(name) {
                Some(value) => match value.as_array() {
                    Some(values) => {
                        let texts = texts_among(values);
                        if texts.len() > 0 {
                            Some(texts)
                        } else {
                            None
                        }
                    },
                    None => None,
                },
                None => None,
            },
            None => None,
        },
        None => None,
    }
}

/// The texts that an indexing option lists.
pub open spec fn listed_texts(options: Option<JsonModel>, name: Seq<char>) -> Seq<Seq<char>> {
    match option_texts(options, name) {
        Some(texts) => texts,
        None => Seq::empty(),
    }
}

/// Whether the editor says that it supports snippets.
pub fn detect_snippet_support(params: &InitializeParams) -> (r: bool)
    ensures
        r == supports_snippets(*params),
{
    if let Some(text_document) = params.text_document {
        if let Some(completion) = text_document.completion {
            if let Some(item) = completion.completion_item {
                if let Some(supported) = item.snippet_support {
                    return supported;
                }
            }
        }
    }
    false
}

/// The address that the editor gives for the workspace.
pub fn initialize_root_uri(params: &InitializeParams) -> (r: Option<String>)
    ensures
        r.deep_view() == root_uri_of(*params),
{
    match &params.root_uri {
        Some(uri) => Some(uri.clone()),
        None => match &params.workspace_folders {
            Some(folders) => if folders.len() > 0 {
                Some(folders[0].clone())
            } else {
                None
            },
            None => None,
        },
    }
}

/// The path that the configuration file names.
pub fn configured_path(text: &str) -> (r: String)
    ensures
        r@ == trimmed(text@),
{
    trim(text).to_owned()
}

/// The candidate, where it is a directory.
fn existing_directory<P>(candidate: Option<RootCandidate<P>>) -> (r: Option<P>)
    ensures
        r == directory_of(candidate),
{
    match candidate {
        Some(candidate) => if candidate.is_dir {
            Some(candidate.path)
        } else {
            None
        },
        None => None,
    }
}

/// The root that the environment names, where it is a directory.
pub fn workspace_root_from_environment<P>(named: Option<RootCandidate<P>>) -> (r: Option<P>)
    ensures
        r == directory_of(named),
{
    existing_directory(named)
}

/// The root that the configuration names, where it is a directory.
pub fn workspace_root_from_config<P>(named: Option<RootCandidate<P>>) -> (r: Option<P>)
    ensures
        r == directory_of(named),
{
    existing_directory(named)
}

/// The root that the editor's path leads to, where it is a directory.
pub fn workspace_root_from_client<P>(client: Option<ClientRoot<P>>) -> (r: Option<P>)
    requires
        client matches Some(client) ==> client.levels@.len() > 0,
    ensures
        r == client_root_of(client),
{
    match client {
        Some(client) => if client.is_dir {
            Some(walk_up_to_git_root(client.levels))
        } else {
            None
        },
        None => None,
    }
}

/// The workspace root.
pub fn resolve_workspace_root<P>(prefer_config: bool, sources: RootSources<P>) -> (r: Option<P>)
    requires
        sources.client matches Some(client) ==> client.levels@.len() > 0,
    ensures
        r == resolved_root(prefer_config, sources),
{
    let environment = workspace_root_from_environment(sources.environment);
    if environment.is_some() {
        return environment;
    }
    if prefer_config {
        let config = workspace_root_from_config(sources.config);
        if config.is_some() {
            return config;
        }
        workspace_root_from_client(sources.client)
    } else {
        let client = workspace_root_from_client(sources.client);
        if client.is_some() {
            return client;
        }
        workspace_root_from_config(sources.config)
    }
}

/// The texts that an indexing option lists, where it lists any.
pub fn collect_indexing_option_strings(
    options: Option<&JsonValue>,
    option_name: &str,
) -> (r: Option<Vec<String>>)
    ensures
        r.deep_view() == option_texts(options.deep_view(), option_name@),
{
    let values = options?.get("indexingOptions")?.get(option_name)?.as_array()?;
    let ghost all = values.deep_view();
    let mut texts: Vec<String> = Vec::new();
    let mut i: usize = 0;
    assert(all.take(0) =~= Seq::<JsonModel>::empty());
    assert(texts.deep_view() =~= Seq::<Seq<char>>::empty());
    while i < values.len()
        invariant
            i <= values@.len(),
            all == values.deep_view(),
            texts.deep_view() == texts_among(all.take(i as int)),
        decreases values.len() - i,
    {
        let ghost before = texts.deep_view();
        assert(all[i as int] == values@[i as int].deep_view());
        assert(all.take(i + 1).drop_last() =~= all.take(i as int));
        if let Some(text) = values[i].as_str() {
            texts.push(text.to_owned());
            assert(texts.deep_view() =~= before.push(text@));
        }
        i += 1;
    }
    assert(all.take(i as int) =~= all);
    if texts.len() > 0 {
        Some(texts)
    } else {
        None
    }
}

/// The texts that an indexing option lists.
fn listed_option_strings(options: Option<&JsonValue>, option_name: &str) -> (r: Vec<String>)
    ensures
        r.deep_view() == listed_texts(options.deep_view(), option_name@),
{
    match collect_indexing_option_strings(options, option_name) {
        Some(texts) => texts,
        None => {
            let none: Vec<String> = Vec::new();
            assert(none.deep_view() =~= Seq::<Seq<char>>::empty());
            none
        },
    }
}

/// The source paths that are given, and the patterns of what is to be ignored.
pub fn apply_initialization_options(options: Option<&JsonValue>) -> (r: (Vec<String>, Vec<String>))
    ensures
        r.0.deep_view() == listed_texts(options.deep_view(), "sourcePaths"@),
        r.1.deep_view() == listed_texts(options.deep_view(), "ignorePatterns"@),
{
    let ignore_patterns = listed_option_strings(options, "ignorePatterns");
    let explicit_source_paths = listed_option_strings(options, "sourcePaths");
    (explicit_source_paths, ignore_patterns)
}

/// What to index of the workspace that was found.
pub fn configure_initialized_workspace<P>(
    options: Option<&JsonValue>,
    workspace_root: P,
    workspace_pinned: bool,
) -> (r: Config<P>)
    ensures
        r.root == workspace_root,
        r.explicit_source_paths.deep_view() == listed_texts(options.deep_view(), "sourcePaths"@),
        r.ignore_patterns.deep_view() == listed_texts(options.deep_view(), "ignorePatterns"@),
        r.pin_workspace == workspace_pinned,
{
    let (explicit_source_paths, ignore_patterns) = apply_initialization_options(options);
    Config {
        root: workspace_root,
        explicit_source_paths,
        ignore_patterns,
        pin_workspace: workspace_pinned,
    }
}

/// Starts the server.
///
/// A workspace that is found is indexed, and pinned: documents elsewhere do not move it.
pub fn initialize<P>(
    params: &InitializeParams,
    prefer_config: bool,
    sources: RootSources<P>,
    version: &str,
    legend: TokenLegend,
) -> (r: Initialization<P>)
    requires
        sources.client matches Some(client) ==> client.levels@.len() > 0,
    ensures
        r.snippet_support == supports_snippets(*params),
        match r.config {
            Some(config) => {
                &&& resolved_root(prefer_config, sources) == Some(config.root)
                &&& config.explicit_source_paths.deep_view() == listed_texts(
                    params.initialization_options.deep_view(),
                    "sourcePaths"@,
                )
                &&& config.ignore_patterns.deep_view() == listed_texts(
                    params.initialization_options.deep_view(),
                    "ignorePatterns"@,
                )
                &&& config.pin_workspace
            },
            None => resolved_root(prefer_config, sources) is None,
        },
        r.result.name@ == SERVER_NAME@,
        r.result.version@ == version@,
        r.result.capabilities.deep_view() == capabilities_with(legend.deep_view()),
{
    let config = match resolve_workspace_root(prefer_config, sources) {
        Some(root) => {
            let options = params.initialization_options.as_ref();
            Some(configure_initialized_workspace(options, root, true))
        },
        None => None,
    };
    Initialization {
        snippet_support: detect_snippet_support(params),
        config,
        result: InitializeResult {
            name: SERVER_NAME.to_owned(),
            version: version.to_owned(),
            capabilities: server_capabilities(legend),
        },
    }
}

}
