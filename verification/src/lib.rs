//! The generation pipeline of an issue writer: from a source artifact,
//! through a locally hosted language model, to an issue record ready for a
//! tracker. The library decides and computes; reading, sending and waiting
//! is left to its caller.

pub mod batch;
pub mod britney;
pub mod error;
pub mod github_client;
pub mod issue;
pub mod issue_template;
pub mod prompt;
pub mod provision;
pub mod response;
pub mod stream;
pub mod text;
