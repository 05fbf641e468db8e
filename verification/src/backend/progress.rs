//! How the server reports the progress of indexing.

use crate::text::{decimal, decimal_text, joined};
use vstd::prelude::*;

verus! {

/// The title of the work whose progress is reported.
pub const PROGRESS_TITLE: &'static str = "kotlin-lsp";

/// The notification that carries a report of progress.
pub const PROGRESS_METHOD: &'static str = "$/progress";

/// How long, in milliseconds, the editor has to accept a token before reports are sent anyway.
pub const CREATE_TIMEOUT_MILLIS: u64 = 500;

/// A report of progress.
#[derive(Debug, PartialEq, Eq)]
pub enum WorkDoneProgress {
    Begin {
        title: String,
        cancellable: Option<bool>,
        message: Option<String>,
        percentage: Option<u32>,
    },
    Report { cancellable: Option<bool>, message: Option<String>, percentage: Option<u32> },
    End { message: Option<String> },
}

/// What a report says.
pub enum WorkDoneProgressModel {
    Begin {
        title: Seq<char>,
        cancellable: Option<bool>,
        message: Option<Seq<char>>,
        percentage: Option<u32>,
    },
    Report { cancellable: Option<bool>, message: Option<Seq<char>>, percentage: Option<u32> },
    End { message: Option<Seq<char>> },
}

impl DeepView for WorkDoneProgress {
    type V = WorkDoneProgressModel;

    open spec fn deep_view(&self) -> WorkDoneProgressModel {
        match self {
            WorkDoneProgress::Begin { title, cancellable, message, percentage } => {
                WorkDoneProgressModel::Begin {
                    title: title@,
                    cancellable: *cancellable,
                    message: message.deep_view(),
                    percentage: *percentage,
                }
            },
            WorkDoneProgress::Report { cancellable, message, percentage } => {
                WorkDoneProgressModel::Report {
                    cancellable: *cancellable,
                    message: message.deep_view(),
                    percentage: *percentage,
                }
            },
            WorkDoneProgress::End { message } => WorkDoneProgressModel::End {
                message: message.deep_view(),
            },
        }
    }
}

/// How much of the work is done, in full percents. Of no work, none is.
pub open spec fn percent(done: nat, total: nat) -> u32 {
    if total == 0 {
        0
    } else {
        (done * 100 / total) as u32
    }
}

/// The percentage lies between zero and a hundred, is a hundred once all is done, and never
/// shrinks as more is done.
pub proof fn percentage_grows_to_a_hundred(done: nat, later: nat, total: nat)
    requires
        0 < total,
        done <= later <= total,
    ensures
        percent(0, total) == 0,
        percent(done, total) <= percent(later, total) <= 100,
        percent(total, total) == 100,
{
    assert(0nat * 100 / total == 0) by (nonlinear_arith)
        requires
            0 < total,
    ;
    assert(total * 100 / total == 100) by (nonlinear_arith)
        requires
            0 < total,
    ;
    assert(done * 100 / total <= later * 100 / total) by (nonlinear_arith)
        requires
            0 < total,
            done <= later,
    ;
    assert(later * 100 / total <= 100) by (nonlinear_arith)
        requires
            0 < total,
            later <= total,
    ;
}

/// The report that indexing begins.
pub fn begin(message: &str) -> (r: WorkDoneProgress)
    ensures
        r.deep_view() == (WorkDoneProgressModel::Begin {
            title: PROGRESS_TITLE@,
            cancellable: Some(false),
            message: Some(message@),
            percentage: Some(0),
        }),
{
    WorkDoneProgress::Begin {
        title: PROGRESS_TITLE.to_owned(),
        cancellable: Some(false),
        message: Some(message.to_owned()),
        percentage: Some(0),
    }
}

/// The report that a part of the files is indexed.
pub fn report(done: usize, total: usize) -> (r: WorkDoneProgress)
    requires
        done * 100 <= usize::MAX,
    ensures
        r.deep_view() == (WorkDoneProgressModel::Report {
            cancellable: Some(false),
            message: Some(decimal(done as nat) + "/"@ + decimal(total as nat) + " files…"@),
            percentage: Some(percent(done as nat, total as nat)),
        }),
{
    let share: usize = if total == 0 {
        0
    } else {
        done * 100 / total
    };
    let counted = joined(&joined(&decimal_text(done), "/"), &decimal_text(total));
    WorkDoneProgress::Report {
        cancellable: Some(false),
        message: Some(joined(&counted, " files…")),
        percentage: Some(#[verifier::truncate] (share as u32)),
    }
}

/// The report that indexing is over.
pub fn end(message: &str) -> (r: WorkDoneProgress)
    ensures
        r.deep_view() == (WorkDoneProgressModel::End { message: Some(message@) }),
{
    WorkDoneProgress::End { message: Some(message.to_owned()) }
}

}
