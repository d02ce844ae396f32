//! Why an operation on a thread failed.
use crate::ids::ThreadId;
use vstd::prelude::*;

verus! {

/// Why an operation on a thread failed.
#[derive(Clone, Debug, PartialEq, Eq)]
pub enum ThreadStoreError {
    ThreadNotFound { thread_id: ThreadId },
    InvalidRequest { message: String },
    Conflict { message: String },
    Internal { message: String },
}

/// The result of an operation on a thread.
pub type ThreadStoreResult<T> = Result<T, ThreadStoreError>;

/// The mathematical value of an error.
pub enum ThreadErrorView {
    ThreadNotFound { thread_id: ThreadId },
    InvalidRequest { message: Seq<char> },
    Conflict { message: Seq<char> },
    Internal { message: Seq<char> },
}

impl View for ThreadStoreError {
    type V = ThreadErrorView;

    open spec fn view(&self) -> ThreadErrorView {
        match *self {
            ThreadStoreError::ThreadNotFound { thread_id } => ThreadErrorView::ThreadNotFound {
                thread_id,
            },
            ThreadStoreError::InvalidRequest { message } => ThreadErrorView::InvalidRequest {
                message: message@,
            },
            ThreadStoreError::Conflict { message } => ThreadErrorView::Conflict {
                message: message@,
            },
            ThreadStoreError::Internal { message } => ThreadErrorView::Internal {
                message: message@,
            },
        }
    }
}

/// The value of a result.
pub open spec fn result_view(result: ThreadStoreResult<()>) -> Result<(), ThreadErrorView> {
    match result {
        Ok(_) => Ok(()),
        Err(error) => Err(error@),
    }
}

/// `std::io::Error`, of which nothing but its text is used.
#[verifier::external_type_specification]
#[verifier::external_body]
pub struct ExIoError(std::io::Error);

/// An I/O error with the given text, as an error of the store.
pub fn io_failure(text: String) -> (error: ThreadStoreError)
    ensures
        error@ == (ThreadErrorView::Internal { message: text@ }),
{
    ThreadStoreError::Internal { message: text }
}

/// An I/O error as an error of the store: an internal error with the text that
/// the I/O error is shown with.
pub fn thread_store_io_error(err: std::io::Error) -> (error: ThreadStoreError)
    ensures
        error matches ThreadStoreError::Internal { message }
            && vstd::string::to_string_from_display_ensures::<std::io::Error>(&err, message),
{
    let text = err.to_string();
    ThreadStoreError::Internal { message: text }
}

} // verus!
