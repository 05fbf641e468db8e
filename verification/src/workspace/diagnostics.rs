//! Which diagnostics are published for a document, and in which order.

use crate::features::code_lens::Reading;
use crate::features::kmp_expect_diagnostics::{
    active_sets, expect_warnings, kmp_expect_diagnostics, SourceDirEntry, SourceDirEntryModel,
};
use crate::indexer::Indexer;
use crate::protocol::{Diagnostic, DiagnosticModel};
use crate::syntax::{doc_model, DocModel, LiveDoc};
use vstd::prelude::*;

verus! {

/// The diagnostics that replace those which the editor shows for a document.
#[derive(Debug, PartialEq, Eq)]
pub struct Publication {
    pub uri: String,
    pub diagnostics: Vec<Diagnostic>,
}

/// What a publication says.
pub struct PublicationModel {
    pub uri: Seq<char>,
    pub diagnostics: Seq<DiagnosticModel>,
}

impl DeepView for Publication {
    type V = PublicationModel;

    open spec fn deep_view(&self) -> PublicationModel {
        PublicationModel { uri: self.uri@, diagnostics: self.diagnostics.deep_view() }
    }
}

/// What was found in a document, by what was looked at.
#[derive(Debug, PartialEq, Eq)]
pub struct Findings {
    /// The syntax errors of the content that was just indexed, where it was.
    pub fresh_syntax: Option<Vec<Diagnostic>>,
    /// The syntax errors that the index holds of the file, where it holds the file.
    pub stored_syntax: Option<Vec<Diagnostic>>,
    /// What is wrong with `when` expressions.
    pub branches: Vec<Diagnostic>,
    /// What is wrong with the arguments of calls. Counts only where the document is parsed.
    pub call_arguments: Vec<Diagnostic>,
    /// That the package is not declared.
    pub package: Option<Diagnostic>,
}

/// What the findings say.
pub struct FindingsModel {
    pub fresh_syntax: Option<Seq<DiagnosticModel>>,
    pub stored_syntax: Option<Seq<DiagnosticModel>>,
    pub branches: Seq<DiagnosticModel>,
    pub call_arguments: Seq<DiagnosticModel>,
    pub package: Option<DiagnosticModel>,
}

impl DeepView for Findings {
    type V = FindingsModel;

    open spec fn deep_view(&self) -> FindingsModel {
        FindingsModel {
            fresh_syntax: self.fresh_syntax.deep_view(),
            stored_syntax: self.stored_syntax.deep_view(),
            branches: self.branches.deep_view(),
            call_arguments: self.call_arguments.deep_view(),
            package: self.package.deep_view(),
        }
    }
}

impl FindingsModel {
    /// The syntax errors: those of the content just indexed, or else those the index holds.
    pub open spec fn syntax(self) -> Seq<DiagnosticModel> {
        match self.fresh_syntax {
            Some(errors) => errors,
            None => match self.stored_syntax {
                Some(errors) => errors,
                None => Seq::empty(),
            },
        }
    }

    /// What is found only with the whole workspace in view.
    pub open spec fn semantic(self, is_parsed: bool) -> Seq<DiagnosticModel> {
        if is_parsed {
            self.branches + self.call_arguments
        } else {
            self.branches
        }
    }

    /// That the package is not declared.
    pub open spec fn package_list(self) -> Seq<DiagnosticModel> {
        match self.package {
            Some(diagnostic) => seq![diagnostic],
            None => Seq::empty(),
        }
    }
}

/// What is published first of a document. While the workspace is being indexed, what needs the
/// whole of it in view is left out.
pub open spec fn first_list(
    findings: FindingsModel,
    indexing: bool,
    is_parsed: bool,
) -> Seq<DiagnosticModel> {
    if indexing {
        findings.syntax() + findings.package_list()
    } else {
        findings.syntax() + findings.semantic(is_parsed) + findings.package_list()
    }
}

/// What is published of a document once there are warnings about its `expect` declarations.
pub open spec fn full_list(
    findings: FindingsModel,
    is_parsed: bool,
    warnings: Seq<DiagnosticModel>,
) -> Seq<DiagnosticModel> {
    findings.syntax() + findings.semantic(is_parsed) + warnings + findings.package_list()
}

/// The warnings about the `expect` declarations of a document, where there are any.
pub open spec fn expect_warnings_of(
    reading: Reading,
    uri: Seq<char>,
    doc: DocModel,
    source_dir: Seq<SourceDirEntryModel>,
) -> Option<Seq<DiagnosticModel>> {
    let warnings = expect_warnings(reading, uri, doc, active_sets(source_dir));
    if warnings.len() > 0 {
        Some(warnings)
    } else {
        None
    }
}

/// Whether the warnings about the `expect` declarations of a parsed document, where there are
/// any, are those of a possible reading of the other documents.
pub open spec fn may_warn(
    indexer: Indexer,
    uri: Seq<char>,
    doc: Option<DocModel>,
    source_dir: Seq<SourceDirEntryModel>,
    warnings: Option<Seq<DiagnosticModel>>,
) -> bool {
    match doc {
        Some(doc) => exists|reading: Reading| #[trigger]
            reading.is_possible(indexer) && warnings == expect_warnings_of(
                reading,
                uri,
                doc,
                source_dir,
            ),
        None => warnings is None,
    }
}

/// What is published first is published again with the warnings, given the same findings.
pub proof fn warnings_come_on_top(
    findings: FindingsModel,
    indexing: bool,
    is_parsed: bool,
    warnings: Seq<DiagnosticModel>,
    diagnostic: DiagnosticModel,
)
    ensures
        first_list(findings, indexing, is_parsed).contains(diagnostic) ==> full_list(
            findings,
            is_parsed,
            warnings,
        ).contains(diagnostic),
        warnings.contains(diagnostic) ==> full_list(findings, is_parsed, warnings).contains(
            diagnostic,
        ),
        !indexing && full_list(findings, is_parsed, warnings).contains(diagnostic) ==> first_list(
            findings,
            indexing,
            is_parsed,
        ).contains(diagnostic) || warnings.contains(diagnostic),
{
    let syntax = findings.syntax();
    let semantic = findings.semantic(is_parsed);
    let package = findings.package_list();
    let first = first_list(findings, indexing, is_parsed);
    let full = full_list(findings, is_parsed, warnings);
    if first.contains(diagnostic) {
        let i = choose|i: int| 0 <= i < first.len() && first[i] == diagnostic;
        let kept = first.len() - package.len();
        if i < kept {
            assert(full[i] == diagnostic);
        } else {
            assert(full[full.len() - package.len() + (i - kept)] == diagnostic);
        }
    }
    if warnings.contains(diagnostic) {
        let i = choose|i: int| 0 <= i < warnings.len() && warnings[i] == diagnostic;
        assert(full[syntax.len() + semantic.len() + i] == diagnostic);
    }
    if !indexing && full.contains(diagnostic) {
        let i = choose|i: int| 0 <= i < full.len() && full[i] == diagnostic;
        let kept = syntax.len() + semantic.len();
        if i < kept {
            assert(first[i] == diagnostic);
        } else if i < kept + warnings.len() {
            assert(warnings[i - kept] == diagnostic);
        } else {
            assert(first[i - warnings.len()] == diagnostic);
        }
    }
}

/// Puts one list of diagnostics behind another.
fn append_all(list: &mut Vec<Diagnostic>, more: Vec<Diagnostic>)
    ensures
        final(list).deep_view() == old(list).deep_view() + more.deep_view(),
{
    let mut more = more;
    let ghost before = list.deep_view();
    let ghost added = more.deep_view();
    list.append(&mut more);
    assert(list.deep_view() =~= before + added);
}

/// The syntax errors of the content just indexed, or else those that the index holds.
pub fn chosen_syntax(
    fresh: Option<Vec<Diagnostic>>,
    stored: Option<Vec<Diagnostic>>,
) -> (r: Vec<Diagnostic>)
    ensures
        r.deep_view() == (match (fresh.deep_view(), stored.deep_view()) {
            (Some(errors), _) => errors,
            (None, Some(errors)) => errors,
            (None, None) => Seq::empty(),
        }),
{
    match fresh {
        Some(errors) => errors,
        None => match stored {
            Some(errors) => errors,
            None => {
                let none: Vec<Diagnostic> = Vec::new();
                assert(none.deep_view() =~= Seq::<DiagnosticModel>::empty());
                none
            },
        },
    }
}

/// What is published first of a document.
pub fn first_diagnostics(findings: Findings, indexing: bool, is_parsed: bool) -> (r: Vec<Diagnostic>)
    ensures
        r.deep_view() == first_list(findings.deep_view(), indexing, is_parsed),
{
    let ghost model = findings.deep_view();
    let mut list = chosen_syntax(findings.fresh_syntax, findings.stored_syntax);
    if !indexing {
        append_all(&mut list, findings.branches);
        if is_parsed {
            append_all(&mut list, findings.call_arguments);
            assert(list.deep_view() =~= model.syntax() + model.semantic(is_parsed));
        }
    }
    let ghost before = list.deep_view();
    match findings.package {
        Some(diagnostic) => {
            list.push(diagnostic);
            assert(list.deep_view() =~= before + model.package_list());
        },
        None => {
            assert(before =~= before + model.package_list());
        },
    }
    list
}

/// What is published of a document once there are warnings about its `expect` declarations.
pub fn full_diagnostics(
    findings: Findings,
    is_parsed: bool,
    warnings: Vec<Diagnostic>,
) -> (r: Vec<Diagnostic>)
    ensures
        r.deep_view() == full_list(findings.deep_view(), is_parsed, warnings.deep_view()),
{
    let ghost model = findings.deep_view();
    let mut list = chosen_syntax(findings.fresh_syntax, findings.stored_syntax);
    append_all(&mut list, findings.branches);
    if is_parsed {
        append_all(&mut list, findings.call_arguments);
    }
    assert(list.deep_view() =~= model.syntax() + model.semantic(is_parsed));
    append_all(&mut list, warnings);
    let ghost before = list.deep_view();
    match findings.package {
        Some(diagnostic) => {
            list.push(diagnostic);
            assert(list.deep_view() =~= before + model.package_list());
        },
        None => {
            assert(before =~= before + model.package_list());
        },
    }
    list
}

/// The warnings about the `expect` declarations of a parsed document, where there are any.
pub fn warnings_of(
    indexer: &Indexer,
    uri: &str,
    doc: Option<&LiveDoc>,
    source_dir: &Vec<SourceDirEntry>,
) -> (r: Option<Vec<Diagnostic>>)
    requires
        indexer.wf(),
        doc matches Some(doc) ==> doc.wf(),
    ensures
        may_warn(
            *indexer,
            uri@,
            match doc {
                Some(doc) => Some(doc_model(*doc)),
                None => None,
            },
            source_dir.deep_view(),
            r.deep_view(),
        ),
{
    match doc {
        Some(doc) => {
            let warnings = kmp_expect_diagnostics(indexer, uri, doc, source_dir);
            if warnings.len() > 0 {
                Some(warnings)
            } else {
                None
            }
        },
        None => None,
    }
}

}
