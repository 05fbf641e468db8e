//! What the server tells the editor that it can do.

use crate::backend::commands::{CLEAR_CACHE, REINDEX};
use crate::features::code_lens::GO_TO_LOCATIONS;
use vstd::prelude::*;

verus! {

/// How the editor sends the changes of a document.
#[derive(Clone, Copy, Debug, PartialEq, Eq)]
pub enum SyncKind {
    Off,
    Full,
    Incremental,
}

/// Which notifications about documents the server wants.
#[derive(Clone, Copy, Debug, PartialEq, Eq)]
pub struct SyncOptions {
    pub open_close: Option<bool>,
    pub change: Option<SyncKind>,
    /// Whether a notification that a document was saved carries its text.
    pub save_with_text: Option<bool>,
}

/// The names that semantic tokens are given by.
#[derive(Debug, PartialEq, Eq)]
pub struct TokenLegend {
    pub token_types: Vec<String>,
    pub token_modifiers: Vec<String>,
}

/// What a legend says.
pub struct TokenLegendModel {
    pub token_types: Seq<Seq<char>>,
    pub token_modifiers: Seq<Seq<char>>,
}

impl DeepView for TokenLegend {
    type V = TokenLegendModel;

    open spec fn deep_view(&self) -> TokenLegendModel {
        TokenLegendModel {
            token_types: self.token_types.deep_view(),
            token_modifiers: self.token_modifiers.deep_view(),
        }
    }
}

/// What the server can do.
#[derive(Debug, PartialEq, Eq)]
pub struct ServerCapabilities {
    pub text_document_sync: SyncOptions,
    pub completion_triggers: Vec<String>,
    pub completion_resolve: bool,
    pub hover: bool,
    pub definition: bool,
    pub declaration: bool,
    pub implementation: bool,
    pub references: bool,
    pub document_highlight: bool,
    pub document_symbol: bool,
    pub inlay_hint: bool,
    pub workspace_symbol: bool,
    pub commands: Vec<String>,
    pub prepare_rename: bool,
    pub folding_range: bool,
    pub code_action: bool,
    pub signature_triggers: Vec<String>,
    pub code_lens_resolve: bool,
    pub token_legend: TokenLegend,
    pub tokens_full: bool,
    pub tokens_range: bool,
}

/// What the capabilities say.
pub struct ServerCapabilitiesModel {
    pub text_document_sync: SyncOptions,
    pub completion_triggers: Seq<Seq<char>>,
    pub completion_resolve: bool,
    pub hover: bool,
    pub definition: bool,
    pub declaration: bool,
    pub implementation: bool,
    pub references: bool,
    pub document_highlight: bool,
    pub document_symbol: bool,
    pub inlay_hint: bool,
    pub workspace_symbol: bool,
    pub commands: Seq<Seq<char>>,
    pub prepare_rename: bool,
    pub folding_range: bool,
    pub code_action: bool,
    pub signature_triggers: Seq<Seq<char>>,
    pub code_lens_resolve: bool,
    pub token_legend: TokenLegendModel,
    pub tokens_full: bool,
    pub tokens_range: bool,
}

impl DeepView for ServerCapabilities {
    type V = ServerCapabilitiesModel;

    open spec fn deep_view(&self) -> ServerCapabilitiesModel {
        ServerCapabilitiesModel {
            text_document_sync: self.text_document_sync,
            completion_triggers: self.completion_triggers.deep_view(),
            completion_resolve: self.completion_resolve,
            hover: self.hover,
            definition: self.definition,
            declaration: self.declaration,
            implementation: self.implementation,
            references: self.references,
            document_highlight: self.document_highlight,
            document_symbol: self.document_symbol,
            inlay_hint: self.inlay_hint,
            workspace_symbol: self.workspace_symbol,
            commands: self.commands.deep_view(),
            prepare_rename: self.prepare_rename,
            folding_range: self.folding_range,
            code_action: self.code_action,
            signature_triggers: self.signature_triggers.deep_view(),
            code_lens_resolve: self.code_lens_resolve,
            token_legend: self.token_legend.deep_view(),
            tokens_full: self.tokens_full,
            tokens_range: self.tokens_range,
        }
    }
}

/// The commands that the server executes.
pub open spec fn known_commands() -> Seq<Seq<char>> {
    seq![REINDEX@, CLEAR_CACHE@, GO_TO_LOCATIONS@]
}

/// What the server can do, given the names of its semantic tokens.
pub open spec fn capabilities_with(legend: TokenLegendModel) -> ServerCapabilitiesModel {
    ServerCapabilitiesModel {
        text_document_sync: SyncOptions {
            open_close: Some(true),
            change: Some(SyncKind::Full),
            save_with_text: Some(false),
        },
        completion_triggers: seq!["."@, ":"@, "@"@],
        completion_resolve: true,
        hover: true,
        definition: true,
        declaration: true,
        implementation: true,
        references: true,
        document_highlight: true,
        document_symbol: true,
        inlay_hint: true,
        workspace_symbol: true,
        commands: known_commands(),
        prepare_rename: true,
        folding_range: true,
        code_action: true,
        signature_triggers: seq!["("@, ","@],
        code_lens_resolve: false,
        token_legend: legend,
        tokens_full: true,
        tokens_range: true,
    }
}

/// What the server can do, given the names of its semantic tokens.
pub fn server_capabilities(legend: TokenLegend) -> (r: ServerCapabilities)
    ensures
        r.deep_view() == capabilities_with(legend.deep_view()),
{
    let mut completion_triggers: Vec<String> = Vec::new();
    completion_triggers.push(".".to_owned());
    completion_triggers.push(":".to_owned());
    completion_triggers.push("@".to_owned());
    assert(completion_triggers.deep_view() =~= seq!["."@, ":"@, "@"@]);
    let mut commands: Vec<String> = Vec::new();
    commands.push(REINDEX.to_owned());
    commands.push(CLEAR_CACHE.to_owned());
    commands.push(GO_TO_LOCATIONS.to_owned());
    assert(commands.deep_view() =~= known_commands());
    let mut signature_triggers: Vec<String> = Vec::new();
    signature_triggers.push("(".to_owned());
    signature_triggers.push(",".to_owned());
    assert(signature_triggers.deep_view() =~= seq!["("@, ","@]);
    ServerCapabilities {
        text_document_sync: SyncOptions {
            open_close: Some(true),
            change: Some(SyncKind::Full),
            save_with_text: Some(false),
        },
        completion_triggers,
        completion_resolve: true,
        hover: true,
        definition: true,
        declaration: true,
        implementation: true,
        references: true,
        document_highlight: true,
        document_symbol: true,
        inlay_hint: true,
        workspace_symbol: true,
        commands,
        prepare_rename: true,
        folding_range: true,
        code_action: true,
        signature_triggers,
        code_lens_resolve: false,
        token_legend: legend,
        tokens_full: true,
        tokens_range: true,
    }
}

}
