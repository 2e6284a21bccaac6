//! What the daemon keeps on disk, and the rules for keeping it.
pub mod crons;
pub mod jobs;
pub mod migration;
pub mod pruning;
pub mod scope_cleanup;
pub mod scopes;
pub mod scripts;
pub mod sensitive_env;
pub mod sessions;
