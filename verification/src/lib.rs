//! Importer core for turning Markdown documents with a front-matter header
//! into structured blog-post records, together with the credential-bootstrap
//! and response-interpretation logic around the remote content service.

pub mod bootstrap;
pub mod config;
pub mod draft;
pub mod json;
pub mod parser;
pub mod publish;
pub mod text;
