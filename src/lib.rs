//! Gathers the ignore files (`.gitignore`) found under a directory into one
//! file. Each rule is rewritten so that it stays anchored to the directory of
//! the file it came from, and each file's block opens with a comment naming it.
//!
//! - `scanner`: the search for ignore files, with a list of directories still to
//!   explore; the caller lists each directory.
//! - `rewrite`: the rewriting of one file's rules and the text of its block.
//! - `lines`, `path`: the text and path operations the rewriting rests on.
//! - `args`: the checks on the two paths the tool is given.

pub mod args;
pub mod lines;
pub mod path;
pub mod rewrite;
pub mod scanner;
