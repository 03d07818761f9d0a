//! Finds the dependencies that several members of a Cargo workspace declare on
//! their own, and that could therefore move to the workspace's shared table.
//!
//! The library reads no file. A caller hands it what came of reading the root
//! manifest ([`workspace::Workspace::try_from`]), lists the directories that
//! the workspace names with `/*` ([`workspace::Workspace::glob_directories`]),
//! reads the manifest of each member ([`workspace::Workspace::members`]) and
//! gets the report from
//! [`workspace_dependency::WorkspaceDependency::try_from`].

pub mod args;
pub mod dependency;
pub mod name_map;
pub mod package;
pub mod text;
pub mod value;
pub mod workspace;
pub mod workspace_dependency;
