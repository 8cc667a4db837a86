//! specmate: a verified document model for document-driven development.
pub mod check;
pub mod cmd;
pub mod doc;
pub mod error;
pub mod text;
