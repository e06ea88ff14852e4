//! Feature groups: named sets of mutually exclusive build options, of which
//! exactly one must be enabled in every build.
//!
//! The library reads the group declarations of a manifest, derives the set
//! of enabled options from a snapshot of the build environment, checks every
//! group, and produces the directives that let the compilation step branch
//! on the option selected in each group.
pub mod order;
pub mod name_set;
pub mod error;
pub mod manifest;
pub mod signals;
pub mod directives;
pub mod groups;
pub mod pipeline;
pub mod laws;
