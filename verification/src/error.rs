//! Hard failures, which end a build, and diagnostics, which a build collects
//! and reports.

use vstd::prelude::*;

verus! {

/// A failure that ends the phase in which it arises.
#[derive(Debug)]
pub enum Error {
    /// A plugin or the pipeline gave up.
    InternalError(String),
    /// Reading a resource or writing an asset failed.
    Io(String),
}

/// A failure as a mathematical value.
pub enum ErrorView {
    InternalError(Seq<char>),
    Io(Seq<char>),
}

impl View for Error {
    type V = ErrorView;

    open spec fn view(&self) -> ErrorView {
        match self {
            Error::InternalError(m) => ErrorView::InternalError(m@),
            Error::Io(m) => ErrorView::Io(m@),
        }
    }
}

impl Error {
    /// What went wrong, in words.
    pub fn message(&self) -> (m: &String)
        ensures
            m@ == match self@ {
                ErrorView::InternalError(t) => t,
                ErrorView::Io(t) => t,
            },
    {
        match self {
            Error::InternalError(m) => m,
            Error::Io(m) => m,
        }
    }
}

impl Clone for Error {
    fn clone(&self) -> (e: Self)
        ensures
            e == *self,
    {
        match self {
            Error::InternalError(m) => Error::InternalError(m.clone()),
            Error::Io(m) => Error::Io(m.clone()),
        }
    }
}

/// How grave a diagnostic is.
#[derive(Clone, Copy, Debug, PartialEq, Eq, Structural, Hash)]
pub enum Severity {
    Error,
    Warn,
}

/// A finding about one module or plugin that does not end the build.
#[derive(Debug)]
pub struct Diagnostic {
    pub severity: Severity,
    pub title: String,
    pub message: String,
}

impl View for Diagnostic {
    type V = (Severity, Seq<char>, Seq<char>);

    open spec fn view(&self) -> (Severity, Seq<char>, Seq<char>) {
        (self.severity, self.title@, self.message@)
    }
}

impl Clone for Diagnostic {
    fn clone(&self) -> (d: Self)
        ensures
            d == *self,
    {
        Diagnostic {
            severity: self.severity,
            title: self.title.clone(),
            message: self.message.clone(),
        }
    }
}

} // verus!
