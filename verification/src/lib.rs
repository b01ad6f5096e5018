//! Protocol logic of the SimpleCC language-server daemon.

pub mod byte_path;
pub mod config;
pub mod daemon;
pub mod installer;
pub mod json;
pub mod laws;
pub mod lsp;
pub mod path;
pub mod registry;
pub mod seqs;
pub mod strmap;
pub mod text;
pub mod uri;
pub mod workspace_watcher;
