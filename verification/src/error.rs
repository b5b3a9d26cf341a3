//! The error of every operation of the guardian. Failures are logged and feed the back-off of the
//! reconcile pass; nobody outside the process is answered with them.
use crate::text::concat;
use vstd::prelude::*;

verus! {

/// What went wrong, with a text for the log.
#[derive(Debug)]
pub enum GuardianError {
    /// The Kubernetes API refused a request or could not be reached.
    Kube(String),
    /// The `helm` command failed.
    Helm(String),
    /// A command in a pod could not be run, or failed.
    PodExec(String),
    /// The configuration, or an object of the cluster, is not what it has to be.
    Config(String),
    /// Anything else.
    Internal(String),
}

/// A [`GuardianError`] with its text as a sequence of characters.
pub enum ErrorView {
    Kube(Seq<char>),
    Helm(Seq<char>),
    PodExec(Seq<char>),
    Config(Seq<char>),
    Internal(Seq<char>),
}

impl View for GuardianError {
    type V = ErrorView;

    open spec fn view(&self) -> ErrorView {
        match self {
            GuardianError::Kube(s) => ErrorView::Kube(s@),
            GuardianError::Helm(s) => ErrorView::Helm(s@),
            GuardianError::PodExec(s) => ErrorView::PodExec(s@),
            GuardianError::Config(s) => ErrorView::Config(s@),
            GuardianError::Internal(s) => ErrorView::Internal(s@),
        }
    }
}

/// The result of an operation that can fail.
pub type GuardianResult<T> = Result<T, GuardianError>;

/// A result whose success is a text.
pub open spec fn text_result(r: Result<String, GuardianError>) -> Result<Seq<char>, ErrorView> {
    match r {
        Ok(s) => Ok(s@),
        Err(e) => Err(e@),
    }
}

impl ErrorView {
    /// The line that stands for the error in the log: its kind, then its text.
    pub open spec fn message(self) -> Seq<char> {
        match self {
            ErrorView::Kube(s) => "kubernetes API error: "@ + s,
            ErrorView::Helm(s) => "helm command failed: "@ + s,
            ErrorView::PodExec(s) => "pod exec failed: "@ + s,
            ErrorView::Config(s) => "driver config error: "@ + s,
            ErrorView::Internal(s) => "internal error: "@ + s,
        }
    }
}

impl GuardianError {
    /// The line that stands for the error in the log: its kind, then its text.
    pub fn message(&self) -> (r: String)
        ensures
            r@ == self@.message(),
    {
        match self {
            GuardianError::Kube(s) => concat("kubernetes API error: ", s.as_str()),
            GuardianError::Helm(s) => concat("helm command failed: ", s.as_str()),
            GuardianError::PodExec(s) => concat("pod exec failed: ", s.as_str()),
            GuardianError::Config(s) => concat("driver config error: ", s.as_str()),
            GuardianError::Internal(s) => concat("internal error: ", s.as_str()),
        }
    }
}

} // verus!
