//! The values that the server exchanges with an editor.

use crate::json::{JsonModel, JsonValue};
use vstd::prelude::*;

verus! {

/// A place in a text document.
#[derive(Clone, Copy, Debug, PartialEq, Eq)]
pub struct Position {
    pub line: u32,
    pub character: u32,
}

/// A part of a text document.
#[derive(Clone, Copy, Debug, PartialEq, Eq)]
pub struct Range {
    pub start: Position,
    pub end: Position,
}

impl DeepView for Range {
    type V = Range;

    open spec fn deep_view(&self) -> Range {
        *self
    }
}

/// A part of a document with the given address.
#[derive(Debug, PartialEq, Eq)]
pub struct Location {
    pub uri: String,
    pub range: Range,
}

/// What a location says.
pub struct LocationModel {
    pub uri: Seq<char>,
    pub range: Range,
}

impl DeepView for Location {
    type V = LocationModel;

    open spec fn deep_view(&self) -> LocationModel {
        LocationModel { uri: self.uri@, range: self.range }
    }
}

impl Clone for Location {
    fn clone(&self) -> (r: Self)
        ensures
            r == *self,
    {
        Location { uri: self.uri.clone(), range: self.range }
    }
}

/// A command that the editor offers or sends.
#[derive(Debug, PartialEq, Eq)]
pub struct Command {
    pub title: String,
    pub command: String,
    pub arguments: Option<Vec<JsonValue>>,
}

/// What a command says.
pub struct CommandModel {
    pub title: Seq<char>,
    pub command: Seq<char>,
    pub arguments: Option<Seq<JsonModel>>,
}

impl DeepView for Command {
    type V = CommandModel;

    open spec fn deep_view(&self) -> CommandModel {
        CommandModel {
            title: self.title@,
            command: self.command@,
            arguments: self.arguments.deep_view(),
        }
    }
}

/// A command that the editor shows beside a part of a document.
#[derive(Debug, PartialEq, Eq)]
pub struct CodeLens {
    pub range: Range,
    pub command: Option<Command>,
    pub data: Option<JsonValue>,
}

/// What a code lens says.
pub struct CodeLensModel {
    pub range: Range,
    pub command: Option<CommandModel>,
    pub data: Option<JsonModel>,
}

impl DeepView for CodeLens {
    type V = CodeLensModel;

    open spec fn deep_view(&self) -> CodeLensModel {
        CodeLensModel {
            range: self.range,
            command: self.command.deep_view(),
            data: self.data.deep_view(),
        }
    }
}

/// How severe a diagnostic is.
#[derive(Clone, Copy, Debug, PartialEq, Eq)]
pub enum DiagnosticSeverity {
    Error,
    Warning,
    Information,
    Hint,
}

impl DeepView for DiagnosticSeverity {
    type V = DiagnosticSeverity;

    open spec fn deep_view(&self) -> DiagnosticSeverity {
        *self
    }
}

/// Something that the editor reports about a part of a document.
#[derive(Debug, PartialEq, Eq)]
pub struct Diagnostic {
    pub range: Range,
    pub severity: Option<DiagnosticSeverity>,
    pub source: Option<String>,
    pub message: String,
    pub data: Option<JsonValue>,
}

/// What a diagnostic says.
pub struct DiagnosticModel {
    pub range: Range,
    pub severity: Option<DiagnosticSeverity>,
    pub source: Option<Seq<char>>,
    pub message: Seq<char>,
    pub data: Option<JsonModel>,
}

impl DeepView for Diagnostic {
    type V = DiagnosticModel;

    open spec fn deep_view(&self) -> DiagnosticModel {
        DiagnosticModel {
            range: self.range,
            severity: self.severity,
            source: self.source.deep_view(),
            message: self.message@,
            data: self.data.deep_view(),
        }
    }
}

/// How important a message to the user is.
#[derive(Clone, Copy, Debug, PartialEq, Eq)]
pub enum MessageType {
    Error,
    Warning,
    Info,
    Log,
}

/// A message that the editor shows to the user.
#[derive(Debug, PartialEq, Eq)]
pub struct Message {
    pub kind: MessageType,
    pub text: String,
}

/// What a message says.
pub struct MessageModel {
    pub kind: MessageType,
    pub text: Seq<char>,
}

impl DeepView for Message {
    type V = MessageModel;

    open spec fn deep_view(&self) -> MessageModel {
        MessageModel { kind: self.kind, text: self.text@ }
    }
}

impl Message {
    /// A message that informs.
    pub fn info(text: &str) -> (r: Message)
        ensures
            r.deep_view() == (MessageModel { kind: MessageType::Info, text: text@ }),
    {
        Message { kind: MessageType::Info, text: text.to_owned() }
    }

    /// A message that warns.
    pub fn warning(text: &str) -> (r: Message)
        ensures
            r.deep_view() == (MessageModel { kind: MessageType::Warning, text: text@ }),
    {
        Message { kind: MessageType::Warning, text: text.to_owned() }
    }
}

/// A document that the editor is asked to show.
#[derive(Debug, PartialEq, Eq)]
pub struct ShowDocument {
    pub uri: String,
    /// Whether to show it in another program.
    pub external: Option<bool>,
    /// Whether the editor should give it the focus.
    pub take_focus: Option<bool>,
    pub selection: Option<Range>,
}

/// What a request to show a document says.
pub struct ShowDocumentModel {
    pub uri: Seq<char>,
    pub external: Option<bool>,
    pub take_focus: Option<bool>,
    pub selection: Option<Range>,
}

impl DeepView for ShowDocument {
    type V = ShowDocumentModel;

    open spec fn deep_view(&self) -> ShowDocumentModel {
        ShowDocumentModel {
            uri: self.uri@,
            external: self.external,
            take_focus: self.take_focus,
            selection: self.selection,
        }
    }
}

}
