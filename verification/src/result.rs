//! The errors of code generation.

use vstd::prelude::*;

verus! {

/// What went wrong, without the details.
#[derive(Clone, Copy, Debug, PartialEq, Eq, Structural)]
pub enum ErrorKind {
    /// A schema feature that generation does not model.
    UnsupportedSchemaConstruct,
    /// A shape or a template was asked for before the shape was known.
    InvalidAbstractDataType,
    /// The namespace path was not restored when a type was left.
    NamespaceImbalance,
}

/// A failure of code generation: its kind, the schema type it arose in, and
/// what it was about.
#[derive(Clone, Debug, PartialEq, Eq)]
pub struct CodeGenError {
    pub kind: ErrorKind,
    /// The name of the offending schema type; empty where none is known.
    pub subject: String,
    /// The construct or condition that was rejected.
    pub description: String,
}

/// The mathematical value of a [`CodeGenError`].
pub struct CodeGenFailure {
    pub kind: ErrorKind,
    pub subject: Seq<char>,
    pub description: Seq<char>,
}

impl View for CodeGenError {
    type V = CodeGenFailure;

    open spec fn view(&self) -> CodeGenFailure {
        CodeGenFailure {
            kind: self.kind,
            subject: self.subject@,
            description: self.description@,
        }
    }
}

/// The outcome of a step of code generation.
pub type CodeGenResult<T> = Result<T, CodeGenError>;

/// The failure for a schema construct that generation does not model.
pub open spec fn unsupported(subject: Seq<char>, description: Seq<char>) -> CodeGenFailure {
    CodeGenFailure { kind: ErrorKind::UnsupportedSchemaConstruct, subject, description }
}

/// The failure for a shape that has not been determined.
pub open spec fn invalid_shape(subject: Seq<char>, description: Seq<char>) -> CodeGenFailure {
    CodeGenFailure { kind: ErrorKind::InvalidAbstractDataType, subject, description }
}

/// The failure for a namespace path that was not restored.
pub open spec fn imbalance(subject: Seq<char>, description: Seq<char>) -> CodeGenFailure {
    CodeGenFailure { kind: ErrorKind::NamespaceImbalance, subject, description }
}

impl CodeGenError {
    /// One line for the user: the kind, the offending type and the construct.
    pub fn message(&self) -> (line: String)
        ensures
            line@ == self@.kind_label() + ": "@ + self.description@ + " (in "@ + self.subject@
                + ")"@,
    {
        let label = match self.kind {
            ErrorKind::UnsupportedSchemaConstruct => "unsupported schema construct",
            ErrorKind::InvalidAbstractDataType => "invalid abstract data type",
            ErrorKind::NamespaceImbalance => "namespace imbalance",
        };
        let mut line = label.to_owned();
        line.append(": ");
        line.append(self.description.as_str());
        line.append(" (in ");
        line.append(self.subject.as_str());
        line.append(")");
        line
    }
}

impl CodeGenFailure {
    /// The words that name the kind in a message.
    pub open spec fn kind_label(self) -> Seq<char> {
        match self.kind {
            ErrorKind::UnsupportedSchemaConstruct => "unsupported schema construct"@,
            ErrorKind::InvalidAbstractDataType => "invalid abstract data type"@,
            ErrorKind::NamespaceImbalance => "namespace imbalance"@,
        }
    }
}

/// An error for a schema construct that generation does not model.
pub fn unsupported_schema_construct_error<T>(subject: &str, description: &str) -> (result:
    CodeGenResult<T>)
    ensures
        result matches Err(e) && e@ == unsupported(subject@, description@),
{
    Err(
        CodeGenError {
            kind: ErrorKind::UnsupportedSchemaConstruct,
            subject: subject.to_owned(),
            description: description.to_owned(),
        },
    )
}

/// An error for a shape or template asked for before the shape was known.
pub fn invalid_abstract_data_type_error<T>(subject: &str, description: &str) -> (result:
    CodeGenResult<T>)
    ensures
        result matches Err(e) && e@ == invalid_shape(subject@, description@),
{
    Err(
        CodeGenError {
            kind: ErrorKind::InvalidAbstractDataType,
            subject: subject.to_owned(),
            description: description.to_owned(),
        },
    )
}

/// An error for a namespace path that was not restored.
pub fn namespace_imbalance_error<T>(subject: &str, description: &str) -> (result: CodeGenResult<T>)
    ensures
        result matches Err(e) && e@ == imbalance(subject@, description@),
{
    Err(
        CodeGenError {
            kind: ErrorKind::NamespaceImbalance,
            subject: subject.to_owned(),
            description: description.to_owned(),
        },
    )
}

} // verus!
