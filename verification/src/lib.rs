//! Section-aware synchronisation of a shared vocabulary notebook.
//!
//! The notebook is a plain-text document made of sections, each written on
//! some device; replicas of it are reconciled section by section through a
//! version-controlled remote. Every function here works on values held in
//! memory: reading and writing files and running the version-control tool
//! are left to the program that links this library.
//!
//! The parts, leaf first:
//!
//! - `text`, `lines`, `format`: characters, lines, and the markers of the
//!   notebook's format.
//! - `notebook`, `roundtrip`: the notebook as a value, read from text and
//!   written out again without loss.
//! - `store`: the notebook store, with its prepend and its deletions.
//! - `change`, `diff`, `pairing`, `git_section_detector`, `local_changes`:
//!   what a side did to the sections, read out of diffs and notebooks.
//! - `conflict`, `instant`: which changes are in conflict, and which side
//!   prevails.
//! - `merge`, `markers`, `three_way`: bringing the two sides together.
//! - `union_laws`, `removal_laws`: what the notebook of both sides holds.
//! - `sync`, `sync_laws`, `git_commands`: the synchronisation as a state
//!   machine, what holds of its runs, and the commands that its actions stand
//!   for.
//! - `repository_model`: a repository in memory that answers the actions of
//!   the machine, and what holds of two runs in a row.
//! - `utils`, `prompt_templates`, `compose`, `ai_client`, `config`,
//!   `config_file`, `paths`: what surrounds the engine in the program.

pub mod ai_client;
pub mod change;
pub mod compose;
pub mod config;
pub mod config_file;
pub mod conflict;
pub mod diff;
pub mod format;
pub mod git_commands;
pub mod git_section_detector;
pub mod instant;
pub mod lines;
pub mod local_changes;
pub mod markers;
pub mod merge;
pub mod notebook;
pub mod pairing;
pub mod paths;
pub mod prompt_templates;
pub mod removal_laws;
pub mod repository_model;
pub mod roundtrip;
pub mod store;
pub mod sync;
pub mod sync_laws;
pub mod text;
pub mod three_way;
pub mod union_laws;
pub mod utils;
