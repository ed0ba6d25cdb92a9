//! What can go wrong with one file, apart from its findings.

use vstd::prelude::*;

verus! {

/// A file could not be read as text.
#[derive(Debug, Clone, PartialEq, Eq)]
pub struct IoError {
    path: String,
    message: String,
}

/// A rule could not finish its check of a document.
#[derive(Debug, Clone, PartialEq, Eq)]
pub struct LintError {
    path: String,
    message: String,
}

/// The thread that collects the findings could not be joined, or what it
/// collected could not be taken from it.
#[derive(Debug, Clone, PartialEq, Eq)]
pub struct ConcurrencyError {
    message: String,
}

impl View for ConcurrencyError {
    type V = Seq<char>;

    closed spec fn view(&self) -> Seq<char> {
        self.message@
    }
}

impl ConcurrencyError {
    pub fn new(message: String) -> (error: ConcurrencyError)
        ensures
            error@ == message@,
    {
        ConcurrencyError { message }
    }

    pub fn message(&self) -> (message: &String)
        ensures
            message@ == self@,
    {
        &self.message
    }
}

/// The mathematical content of an error: where it happened and what it says.
pub struct ErrorView {
    pub path: Seq<char>,
    pub message: Seq<char>,
}

impl View for IoError {
    type V = ErrorView;

    closed spec fn view(&self) -> ErrorView {
        ErrorView { path: self.path@, message: self.message@ }
    }
}

impl View for LintError {
    type V = ErrorView;

    closed spec fn view(&self) -> ErrorView {
        ErrorView { path: self.path@, message: self.message@ }
    }
}

/// The error of a check that cannot fail: one is never made, and this
/// stands where one must be named all the same.
pub open spec fn no_failure(doc: crate::document::DocumentView) -> ErrorView {
    ErrorView { path: doc.path, message: Seq::empty() }
}

impl IoError {
    pub fn new(path: String, message: String) -> (error: IoError)
        ensures
            error@ == (ErrorView { path: path@, message: message@ }),
    {
        IoError { path, message }
    }

    pub fn path(&self) -> (path: &String)
        ensures
            path@ == self@.path,
    {
        &self.path
    }

    pub fn message(&self) -> (message: &String)
        ensures
            message@ == self@.message,
    {
        &self.message
    }
}

impl LintError {
    pub fn new(path: String, message: String) -> (error: LintError)
        ensures
            error@ == (ErrorView { path: path@, message: message@ }),
    {
        LintError { path, message }
    }

    pub fn path(&self) -> (path: &String)
        ensures
            path@ == self@.path,
    {
        &self.path
    }

    pub fn message(&self) -> (message: &String)
        ensures
            message@ == self@.message,
    {
        &self.message
    }
}

} // verus!
