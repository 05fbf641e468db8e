//! What the server does as documents are opened, edited, saved and closed.

pub mod diagnostics;
pub mod directories;
pub mod document_handler;
pub mod file_change_handler;
pub mod laws;
pub mod operation_laws;
pub mod publication_laws;
