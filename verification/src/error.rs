//! Failure taxonomy of the resolution engine. Every failure is terminal:
//! resolution of an input aborts at the first error, and no partial
//! descriptor is ever produced.
use vstd::prelude::*;

verus! {

#[derive(Clone, Copy, Debug, PartialEq, Eq, Structural)]
pub enum Error {
    /// No scheme's anchor rule matched the document.
    ScriptNotFound,
    /// A `var` declaration could not be split into a name and an expression.
    VariableExtractionFailure,
    /// The expression of a `var` declaration did not evaluate.
    VariableComputationFailure,
    /// The link statement grammar did not match under the selected scheme.
    LinkGeneratorExtractionFailure,
    /// The key expression did not evaluate after variable substitution.
    LinkComputationFailure,
    /// The link statement carries an empty filename group.
    FilenameExtractionFailure,
    /// The percent-decoded filename is not valid UTF-8.
    InvalidUtf8Filename,
    /// The caller-supplied source reference has no extractable domain.
    DomainExtractionFailure,
}

impl Error {
    /// A short description of the failure.
    pub fn message(&self) -> (r: &'static str)
        ensures
            r@ == match self {
                Error::ScriptNotFound => "cannot find script tag"@,
                Error::VariableExtractionFailure => "failed to extract variable"@,
                Error::VariableComputationFailure => "failed to compute variable"@,
                Error::LinkGeneratorExtractionFailure => "failed to extract link generator"@,
                Error::LinkComputationFailure => "failed to compute link key"@,
                Error::FilenameExtractionFailure => "failed to extract filename"@,
                Error::InvalidUtf8Filename => "filename is not valid UTF-8"@,
                Error::DomainExtractionFailure => "failed to extract domain name"@,
            },
    {
        match self {
            Error::ScriptNotFound => "cannot find script tag",
            Error::VariableExtractionFailure => "failed to extract variable",
            Error::VariableComputationFailure => "failed to compute variable",
            Error::LinkGeneratorExtractionFailure => "failed to extract link generator",
            Error::LinkComputationFailure => "failed to compute link key",
            Error::FilenameExtractionFailure => "failed to extract filename",
            Error::InvalidUtf8Filename => "filename is not valid UTF-8",
            Error::DomainExtractionFailure => "failed to extract domain name",
        }
    }
}

} // verus!
