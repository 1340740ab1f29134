//! Named git identities, and the rules that choose among them per repository.
//!
//! The library holds the identity store, the rule matcher, the resolver that puts a
//! project file before the rules, the model of git's identity settings, the commit
//! auditor and the planning of commit fixes.

pub mod audit;
pub mod config;
pub mod doctor;
pub mod gitconfig;
pub mod gpg;
pub mod identity;
pub mod outside;
pub mod project;
pub mod resolve;
pub mod rewrite;
pub mod rules;
pub mod ssh;
pub mod text;
pub mod tomldoc;
