//! The error type that every fallible operation reports.
use crate::text::{joined, joined3};
use vstd::prelude::*;

verus! {

/// Why an operation failed.
#[derive(Debug, PartialEq, Eq)]
pub enum CodexxError {
    /// A configuration, profile or archive is not acceptable.
    Config(String),
    /// The record store refused an operation.
    Database(String),
    /// A message that comes from elsewhere and is shown as it is.
    External(String),
}

/// An error, as contracts speak of it.
pub ghost enum ErrorView {
    Config(Seq<char>),
    Database(Seq<char>),
    External(Seq<char>),
}

impl View for CodexxError {
    type V = ErrorView;

    open spec fn view(&self) -> ErrorView {
        match self {
            CodexxError::Config(text) => ErrorView::Config(text@),
            CodexxError::Database(text) => ErrorView::Database(text@),
            CodexxError::External(text) => ErrorView::External(text@),
        }
    }
}

/// The text an error is shown as.
pub open spec fn error_text(error: ErrorView) -> Seq<char> {
    match error {
        ErrorView::Config(text) => "配置错误: "@ + text,
        ErrorView::Database(text) => "数据库错误: "@ + text,
        ErrorView::External(text) => text,
    }
}

impl CodexxError {
    /// The text the error is shown as.
    pub fn text(&self) -> (r: String)
        ensures
            r@ == error_text(self@),
    {
        match self {
            CodexxError::Config(text) => joined("配置错误: ", text),
            CodexxError::Database(text) => joined("数据库错误: ", text),
            CodexxError::External(text) => text.clone(),
        }
    }
}

/// A configuration error with this message.
pub fn config(message: &str) -> (r: CodexxError)
    ensures
        r@ == ErrorView::Config(message@),
{
    CodexxError::Config(message.to_owned())
}

/// A configuration error with a message of two parts.
pub fn config2(first: &str, second: &str) -> (r: CodexxError)
    ensures
        r@ == ErrorView::Config(first@ + second@),
{
    CodexxError::Config(joined(first, second))
}

/// A configuration error with a message of three parts.
pub fn config3(first: &str, second: &str, third: &str) -> (r: CodexxError)
    ensures
        r@ == ErrorView::Config(first@ + second@ + third@),
{
    CodexxError::Config(joined3(first, second, third))
}

} // verus!
