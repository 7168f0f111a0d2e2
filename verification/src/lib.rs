//! Detection of risky Leptos call sites and the consistency checks that keep
//! the lints' documentation, reference documents and version numbers in sync.

pub mod docsync;
pub mod documentation;
pub mod emitter;
pub mod matcher;
pub mod passes;
pub mod rules;
pub mod text;
