//! Error types of the document model.
use crate::text::{append, concat2, concat3, owned};
use vstd::prelude::*;

verus! {

/// Failures of the document model: loading, validating and transitioning documents.
#[derive(Debug, PartialEq, Eq)]
pub enum DocumentModelError {
    /// The document does not start with a closed `---` frontmatter block.
    MissingFrontmatter { path: String },
    /// The frontmatter block is not valid YAML for the document model.
    InvalidFrontmatter { path: String, message: String },
    /// A required frontmatter field is absent.
    MissingField { path: String, field: String },
    /// A frontmatter or path field holds an unacceptable value.
    InvalidField { path: String, field: String, message: String },
    /// A managed filename does not follow the naming convention of its type.
    InvalidFilename { path: String, doc_type: String },
    /// A path that is not a managed document location.
    InvalidManagedPath { path: String },
    /// A status string that the document type does not use.
    InvalidStatus { path: String, doc_type: String, status: String },
    /// The frontmatter `id` does not match the id implied by the path.
    IdMismatch { path: String, expected: String, found: String },
    /// A lifecycle transition that the document type does not allow.
    IllegalTransition { doc_type: String, from: String, to: String },
    /// The repository as a whole violates the document model.
    InvalidRepositoryState { path: String, message: String },
}

/// The mathematical value of a [`DocumentModelError`].
pub enum ModelErrorView {
    MissingFrontmatter { path: Seq<char> },
    InvalidFrontmatter { path: Seq<char>, message: Seq<char> },
    MissingField { path: Seq<char>, field: Seq<char> },
    InvalidField { path: Seq<char>, field: Seq<char>, message: Seq<char> },
    InvalidFilename { path: Seq<char>, doc_type: Seq<char> },
    InvalidManagedPath { path: Seq<char> },
    InvalidStatus { path: Seq<char>, doc_type: Seq<char>, status: Seq<char> },
    IdMismatch { path: Seq<char>, expected: Seq<char>, found: Seq<char> },
    IllegalTransition { doc_type: Seq<char>, from: Seq<char>, to: Seq<char> },
    InvalidRepositoryState { path: Seq<char>, message: Seq<char> },
}

impl View for DocumentModelError {
    type V = ModelErrorView;

    open spec fn view(&self) -> ModelErrorView {
        match self {
            DocumentModelError::MissingFrontmatter { path } => ModelErrorView::MissingFrontmatter {
                path: path@,
            },
            DocumentModelError::InvalidFrontmatter { path, message } =>
                ModelErrorView::InvalidFrontmatter { path: path@, message: message@ },
            DocumentModelError::MissingField { path, field } => ModelErrorView::MissingField {
                path: path@,
                field: field@,
            },
            DocumentModelError::InvalidField { path, field, message } =>
                ModelErrorView::InvalidField { path: path@, field: field@, message: message@ },
            DocumentModelError::InvalidFilename { path, doc_type } =>
                ModelErrorView::InvalidFilename { path: path@, doc_type: doc_type@ },
            DocumentModelError::InvalidManagedPath { path } => ModelErrorView::InvalidManagedPath {
                path: path@,
            },
            DocumentModelError::InvalidStatus { path, doc_type, status } =>
                ModelErrorView::InvalidStatus { path: path@, doc_type: doc_type@, status: status@ },
            DocumentModelError::IdMismatch { path, expected, found } => ModelErrorView::IdMismatch {
                path: path@,
                expected: expected@,
                found: found@,
            },
            DocumentModelError::IllegalTransition { doc_type, from, to } =>
                ModelErrorView::IllegalTransition { doc_type: doc_type@, from: from@, to: to@ },
            DocumentModelError::InvalidRepositoryState { path, message } =>
                ModelErrorView::InvalidRepositoryState { path: path@, message: message@ },
        }
    }
}

/// The human-readable rendering of an error.
pub open spec fn error_text(e: ModelErrorView) -> Seq<char> {
    match e {
        ModelErrorView::MissingFrontmatter { path } => path + ": missing frontmatter block"@,
        ModelErrorView::InvalidFrontmatter { path, message } => path + ": invalid frontmatter: "@
            + message,
        ModelErrorView::MissingField { path, field } => path + ": missing field `"@ + field
            + "`"@,
        ModelErrorView::InvalidField { path, field, message } => path + ": invalid field `"@
            + field + "`: "@ + message,
        ModelErrorView::InvalidFilename { path, doc_type } => "invalid filename "@ + path
            + " for "@ + doc_type,
        ModelErrorView::InvalidManagedPath { path } => "invalid managed document path "@ + path,
        ModelErrorView::InvalidStatus { path, doc_type, status } => path + ": invalid status "@
            + status + " for "@ + doc_type,
        ModelErrorView::IdMismatch { path, expected, found } => path + ": id mismatch: expected "@
            + expected + ", found "@ + found,
        ModelErrorView::IllegalTransition { doc_type, from, to } => "illegal transition for "@
            + doc_type + ": "@ + from + " -> "@ + to,
        ModelErrorView::InvalidRepositoryState { path, message } =>
            "invalid repository state at "@ + path + ": "@ + message,
    }
}

impl DocumentModelError {
    /// Renders the error as a human-readable message.
    pub fn message(&self) -> (r: String)
        ensures
            r@ == error_text(self@),
    {
        match self {
            DocumentModelError::MissingFrontmatter { path } => concat2(
                path.as_str(),
                ": missing frontmatter block",
            ),
            DocumentModelError::InvalidFrontmatter { path, message } => concat3(
                path.as_str(),
                ": invalid frontmatter: ",
                message.as_str(),
            ),
            DocumentModelError::MissingField { path, field } => {
                let mut r = concat3(path.as_str(), ": missing field `", field.as_str());
                append(&mut r, "`");
                r
            },
            DocumentModelError::InvalidField { path, field, message } => {
                let mut r = concat3(path.as_str(), ": invalid field `", field.as_str());
                append(&mut r, "`: ");
                append(&mut r, message.as_str());
                r
            },
            DocumentModelError::InvalidFilename { path, doc_type } => {
                let mut r = concat3("invalid filename ", path.as_str(), " for ");
                append(&mut r, doc_type.as_str());
                r
            },
            DocumentModelError::InvalidManagedPath { path } => concat2(
                "invalid managed document path ",
                path.as_str(),
            ),
            DocumentModelError::InvalidStatus { path, doc_type, status } => {
                let mut r = concat3(path.as_str(), ": invalid status ", status.as_str());
                append(&mut r, " for ");
                append(&mut r, doc_type.as_str());
                r
            },
            DocumentModelError::IdMismatch { path, expected, found } => {
                let mut r = concat3(path.as_str(), ": id mismatch: expected ", expected.as_str());
                append(&mut r, ", found ");
                append(&mut r, found.as_str());
                r
            },
            DocumentModelError::IllegalTransition { doc_type, from, to } => {
                let mut r = concat3("illegal transition for ", doc_type.as_str(), ": ");
                append(&mut r, from.as_str());
                append(&mut r, " -> ");
                append(&mut r, to.as_str());
                r
            },
            DocumentModelError::InvalidRepositoryState { path, message } => {
                let mut r = concat3("invalid repository state at ", path.as_str(), ": ");
                append(&mut r, message.as_str());
                r
            },
        }
    }
}

/// Top-level specmate error types.
///
/// Each variant corresponds to a distinct failure mode of the command surface.
#[derive(Debug, PartialEq, Eq)]
pub enum SpecmateError {
    /// The repo already has a specmate structure and --merge was not passed.
    AlreadyInitialised,
    /// A file that should exist was not found.
    FileNotFound(String),
    /// A document's frontmatter is missing or malformed.
    InvalidFrontmatter { path: String, reason: String },
    /// A document's status does not match its directory location.
    StatusDirectoryMismatch { path: String, status: String, directory: String },
    /// A document references a non-existent or obsolete document.
    StaleReference { source: String, field: String, target: String, reason: String },
    /// A Task Spec boundary was violated.
    BoundaryViolation { path: String, spec: String },
    /// Two active Task Specs have overlapping boundaries.
    BoundaryConflict { spec_a: String, spec_b: String, pattern: String },
    /// An invalid status transition was attempted.
    InvalidTransition { doc_type: String, from: String, to: String },
    /// A required frontmatter field for a status transition is missing.
    MissingRequiredField { path: String, field: String, status: String },
}

/// The rendering of a [`SpecmateError`], over the views of its fields.
pub open spec fn specmate_error_text(e: SpecmateError) -> Seq<char> {
    match e {
        SpecmateError::AlreadyInitialised =>
            "specmate structure already exists. Use --merge to update it."@,
        SpecmateError::FileNotFound(p) => "file not found: "@ + p@,
        SpecmateError::InvalidFrontmatter { path, reason } => "invalid frontmatter in "@ + path@
            + ": "@ + reason@,
        SpecmateError::StatusDirectoryMismatch { path, status, directory } =>
            "status mismatch in "@ + path@ + ": status is '"@ + status@ + "' but file is in '"@
            + directory@ + "'"@,
        SpecmateError::StaleReference { source, field, target, reason } => "stale reference in "@
            + source@ + ": "@ + field@ + " points to '"@ + target@ + "' which "@ + reason@,
        SpecmateError::BoundaryViolation { path, spec } => "boundary violation: "@ + path@
            + " is not in boundaries.allowed for "@ + spec@,
        SpecmateError::BoundaryConflict { spec_a, spec_b, pattern } =>
            "boundary conflict between "@ + spec_a@ + " and "@ + spec_b@ + ": '"@ + pattern@
            + "' overlaps"@,
        SpecmateError::InvalidTransition { doc_type, from, to } => "invalid transition for "@
            + doc_type@ + ": "@ + from@ + " -> "@ + to@,
        SpecmateError::MissingRequiredField { path, field, status } =>
            "missing required field '"@ + field@ + "' for status '"@ + status@ + "' in "@ + path@,
    }
}

impl SpecmateError {
    /// Renders the error as a human-readable message.
    pub fn message(&self) -> (r: String)
        ensures
            r@ == specmate_error_text(*self),
    {
        match self {
            SpecmateError::AlreadyInitialised => owned(
                "specmate structure already exists. Use --merge to update it.",
            ),
            SpecmateError::FileNotFound(p) => concat2("file not found: ", p.as_str()),
            SpecmateError::InvalidFrontmatter { path, reason } => {
                let mut r = concat3("invalid frontmatter in ", path.as_str(), ": ");
                append(&mut r, reason.as_str());
                r
            },
            SpecmateError::StatusDirectoryMismatch { path, status, directory } => {
                let mut r = concat3("status mismatch in ", path.as_str(), ": status is '");
                append(&mut r, status.as_str());
                append(&mut r, "' but file is in '");
                append(&mut r, directory.as_str());
                append(&mut r, "'");
                r
            },
            SpecmateError::StaleReference { source, field, target, reason } => {
                let mut r = concat3("stale reference in ", source.as_str(), ": ");
                append(&mut r, field.as_str());
                append(&mut r, " points to '");
                append(&mut r, target.as_str());
                append(&mut r, "' which ");
                append(&mut r, reason.as_str());
                r
            },
            SpecmateError::BoundaryViolation { path, spec } => {
                let mut r = concat3(
                    "boundary violation: ",
                    path.as_str(),
                    " is not in boundaries.allowed for ",
                );
                append(&mut r, spec.as_str());
                r
            },
            SpecmateError::BoundaryConflict { spec_a, spec_b, pattern } => {
                let mut r = concat3("boundary conflict between ", spec_a.as_str(), " and ");
                append(&mut r, spec_b.as_str());
                append(&mut r, ": '");
                append(&mut r, pattern.as_str());
                append(&mut r, "' overlaps");
                r
            },
            SpecmateError::InvalidTransition { doc_type, from, to } => {
                let mut r = concat3("invalid transition for ", doc_type.as_str(), ": ");
                append(&mut r, from.as_str());
                append(&mut r, " -> ");
                append(&mut r, to.as_str());
                r
            },
            SpecmateError::MissingRequiredField { path, field, status } => {
                let mut r = concat3("missing required field '", field.as_str(), "' for status '");
                append(&mut r, status.as_str());
                append(&mut r, "' in ");
                append(&mut r, path.as_str());
                r
            },
        }
    }
}

} // verus!
