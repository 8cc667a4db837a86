//! Shared document-model utilities.
pub mod association;
pub mod frontmatter;
pub mod id;
pub mod index;
pub mod lifecycle;
pub mod load;
pub mod parse;
pub mod path;
pub mod transition;
pub mod types;
pub mod validate;

pub use association::association_summaries;
pub use id::{ensure_unique_slug, next_patch_number, next_task_sequence};
pub use index::build_index;
pub use lifecycle::{expected_directory, is_live_status, is_terminal_status};
pub use transition::{preview_transition, validate_transition};
pub use types::{
    AssociatedDocument, AssociationKind, AssociationSummary, Boundaries, CompletionCriterion,
    DocId, DocType, Document, DocumentIndex, Frontmatter, InvalidManagedEntry, Status,
    ValidationViolation,
};
pub use validate::{build_compliant_index, ensure_index_compliant, validate_index, validate_preview};
