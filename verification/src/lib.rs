pub mod backend;
pub mod features;
pub mod indexer;
pub mod json;
pub mod laws;
pub mod paths;
pub mod protocol;
pub mod sequences;
pub mod string_map;
pub mod syntax;
pub mod text;
pub mod urls;
pub mod workspace;
