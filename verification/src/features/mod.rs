//! What the server offers on multiplatform declarations.

pub mod code_lens;
pub mod declaration_laws;
pub mod declarations;
pub mod kmp_expect_diagnostics;
pub mod laws;
pub mod navigation_laws;
pub mod operation_laws;
pub mod source_set;
pub mod warning_laws;
