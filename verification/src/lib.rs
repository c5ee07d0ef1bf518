//! Session-management core of an editor-integration service for a declarative
//! UI language: a document cache kept in step with editor edits, a
//! position-to-token resolver, a diagnostics translator, the request
//! dispatcher's decision logic, and the preview bridge's component
//! resolution.

pub mod lines;
pub mod token;
pub mod actions;
pub mod diag;
pub mod dispatch;
pub mod document;
pub mod preview;
