pub mod errors;
pub mod gitout;
pub mod output;
pub mod parser;
pub mod paths;
pub mod registry;
pub mod repository;
pub mod strutil;
pub mod worktree;
