//! Why the files of a goal could not be written or read.
use crate::app_server_path::AppServerPath;
use crate::decimal;
use vstd::prelude::*;

verus! {

/// Why a goal could not be materialized or read back.
#[derive(Debug, PartialEq, Eq)]
pub enum GoalError {
    EmptyObjective,
    MissingCodexHome,
    ReferenceTooLong { actual_chars: usize, limit: usize },
    CreateDirectory { path: AppServerPath, cause: String },
    WriteFile { path: AppServerPath, cause: String },
    ReadFile { path: AppServerPath, cause: String },
    InvalidUtf8 { path: AppServerPath },
}

/// The mathematical value of an error.
pub enum GoalErrorView {
    EmptyObjective,
    MissingCodexHome,
    ReferenceTooLong { actual_chars: nat, limit: nat },
    CreateDirectory { path: Seq<char>, cause: Seq<char> },
    WriteFile { path: Seq<char>, cause: Seq<char> },
    ReadFile { path: Seq<char>, cause: Seq<char> },
    InvalidUtf8 { path: Seq<char> },
}

impl View for GoalError {
    type V = GoalErrorView;

    open spec fn view(&self) -> GoalErrorView {
        match *self {
            GoalError::EmptyObjective => GoalErrorView::EmptyObjective,
            GoalError::MissingCodexHome => GoalErrorView::MissingCodexHome,
            GoalError::ReferenceTooLong { actual_chars, limit } => GoalErrorView::ReferenceTooLong {
                actual_chars: actual_chars as nat,
                limit: limit as nat,
            },
            GoalError::CreateDirectory { path, cause } => GoalErrorView::CreateDirectory {
                path: path@,
                cause: cause@,
            },
            GoalError::WriteFile { path, cause } => GoalErrorView::WriteFile {
                path: path@,
                cause: cause@,
            },
            GoalError::ReadFile { path, cause } => GoalErrorView::ReadFile {
                path: path@,
                cause: cause@,
            },
            GoalError::InvalidUtf8 { path } => GoalErrorView::InvalidUtf8 { path: path@ },
        }
    }
}

/// What the user is told of an error.
pub open spec fn message_of(error: GoalErrorView) -> Seq<char> {
    match error {
        GoalErrorView::EmptyObjective => "Goal objective must not be empty."@,
        GoalErrorView::MissingCodexHome =>
            "App server did not report $CODEX_HOME; cannot materialize goal files"@,
        GoalErrorView::ReferenceTooLong { actual_chars, limit } =>
            "Goal objective file reference is too long: "@ + decimal::decimal(actual_chars)
            + " characters. Limit: "@ + decimal::decimal(limit) + " characters."@,
        GoalErrorView::CreateDirectory { path, .. } =>
            "Could not create goal attachment directory "@ + path,
        GoalErrorView::WriteFile { path, .. } => "Could not write goal file "@ + path,
        GoalErrorView::ReadFile { path, .. } => "Could not read goal objective file "@ + path,
        GoalErrorView::InvalidUtf8 { path } => "Goal objective file "@ + path
            + " is not valid UTF-8"@,
    }
}

impl GoalError {
    /// What the user is told.
    pub fn message(&self) -> (res: String)
        ensures
            res@ == message_of(self@),
    {
        match self {
            GoalError::EmptyObjective => "Goal objective must not be empty.".to_owned(),
            GoalError::MissingCodexHome =>
                "App server did not report $CODEX_HOME; cannot materialize goal files".to_owned(),
            GoalError::ReferenceTooLong { actual_chars, limit } => {
                let mut out = "Goal objective file reference is too long: ".to_owned();
                decimal::push_decimal(&mut out, *actual_chars);
                out.append(" characters. Limit: ");
                decimal::push_decimal(&mut out, *limit);
                out.append(" characters.");
                out
            },
            GoalError::CreateDirectory { path, .. } => {
                let mut out = "Could not create goal attachment directory ".to_owned();
                out.append(path.as_str());
                out
            },
            GoalError::WriteFile { path, .. } => {
                let mut out = "Could not write goal file ".to_owned();
                out.append(path.as_str());
                out
            },
            GoalError::ReadFile { path, .. } => {
                let mut out = "Could not read goal objective file ".to_owned();
                out.append(path.as_str());
                out
            },
            GoalError::InvalidUtf8 { path } => {
                let mut out = "Goal objective file ".to_owned();
                out.append(path.as_str());
                out.append(" is not valid UTF-8");
                out
            },
        }
    }
}

/// What the user is told names the path that failed, and of a reference that is too long
/// first its length and then the limit. The cause is not part of it.
pub proof fn law_messages_name_what_failed(
    path: Seq<char>,
    cause: Seq<char>,
    actual_chars: nat,
    limit: nat,
)
    ensures
        message_of(GoalErrorView::ReferenceTooLong { actual_chars, limit })
            == "Goal objective file reference is too long: "@ + decimal::decimal(actual_chars)
            + " characters. Limit: "@ + decimal::decimal(limit) + " characters."@,
        message_of(GoalErrorView::CreateDirectory { path, cause })
            == "Could not create goal attachment directory "@ + path,
        message_of(GoalErrorView::WriteFile { path, cause }) == "Could not write goal file "@
            + path,
        message_of(GoalErrorView::ReadFile { path, cause })
            == "Could not read goal objective file "@ + path,
        message_of(GoalErrorView::InvalidUtf8 { path }) == "Goal objective file "@ + path
            + " is not valid UTF-8"@,
        message_of(GoalErrorView::EmptyObjective) == "Goal objective must not be empty."@,
        message_of(GoalErrorView::MissingCodexHome)
            == "App server did not report $CODEX_HOME; cannot materialize goal files"@,
{
}

} // verus!
