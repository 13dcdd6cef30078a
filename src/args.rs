//! The checks on the two paths the tool is given, made before anything is read
//! or written.
use vstd::prelude::*;

use crate::path::{parent_dir, parent_of};

verus! {

/// The directory to search and the file to create.
pub struct IgnoreAggregatorArgs {
    pub reference_directory: String,
    pub output_aggregated: String,
}

/// What the file system says of the two paths.
pub struct PathFacts {
    /// The directory to search exists and is a directory.
    pub reference_is_dir: bool,
    /// Something already stands at the output path.
    pub output_exists: bool,
    /// The directory that is to hold the output file exists.
    pub output_parent_exists: bool,
}

/// Why the paths were refused.
pub enum ArgsError {
    /// The directory to search is missing or not a directory.
    InvalidReferenceDirectory(String),
    /// The output file already exists.
    OutputExists(String),
    /// The directory that is to hold the output file is missing.
    OutputParentMissing(String),
}

/// The message that reports `e`.
pub open spec fn error_message(e: ArgsError) -> Seq<char> {
    match e {
        ArgsError::InvalidReferenceDirectory(p) => "Invalid reference directory "@ + p@,
        ArgsError::OutputExists(p) => "Invalid output file. "@ + p@ + " already exists."@,
        ArgsError::OutputParentMissing(p) => "Invalid output path, couldn't find directory to create output file. ("@
            + p@ + " not found)"@,
    }
}

/// The output path's directory needs to exist: it is not the current directory.
pub open spec fn output_parent_to_check(output: Seq<char>) -> bool {
    parent_of(output) matches Some(d) && d.len() > 0
}

impl ArgsError {
    /// The message that reports this error.
    pub fn message(&self) -> (r: String)
        ensures
            r@ == error_message(*self),
    {
        match self {
            ArgsError::InvalidReferenceDirectory(p) => {
                let mut m = String::from_str("Invalid reference directory ");
                m.append(p.as_str());
                m
            },
            ArgsError::OutputExists(p) => {
                let mut m = String::from_str("Invalid output file. ");
                m.append(p.as_str());
                m.append(" already exists.");
                m
            },
            ArgsError::OutputParentMissing(p) => {
                let mut m = String::from_str(
                    "Invalid output path, couldn't find directory to create output file. (",
                );
                m.append(p.as_str());
                m.append(" not found)");
                m
            },
        }
    }
}

/// Checks the paths in order: the directory to search must be a directory, the
/// output file must not exist yet, and the directory that is to hold it must
/// exist unless it is the current directory.
pub fn check_args(args: &IgnoreAggregatorArgs, facts: &PathFacts) -> (r: Result<(), ArgsError>)
    ensures
        !facts.reference_is_dir ==> (r matches Err(ArgsError::InvalidReferenceDirectory(p))
            && p@ == args.reference_directory@),
        facts.reference_is_dir && facts.output_exists ==> (r matches Err(
            ArgsError::OutputExists(p),
        ) && p@ == args.output_aggregated@),
        facts.reference_is_dir && !facts.output_exists && output_parent_to_check(
            args.output_aggregated@,
        ) && !facts.output_parent_exists ==> (r matches Err(ArgsError::OutputParentMissing(p))
            && Some(p@) == parent_of(args.output_aggregated@)),
        r is Ok <==> (facts.reference_is_dir && !facts.output_exists && (!output_parent_to_check(
            args.output_aggregated@,
        ) || facts.output_parent_exists)),
{
    if !facts.reference_is_dir {
        return Err(ArgsError::InvalidReferenceDirectory(args.reference_directory.clone()));
    }
    if facts.output_exists {
        return Err(ArgsError::OutputExists(args.output_aggregated.clone()));
    }
    match parent_dir(args.output_aggregated.as_str()) {
        Some(parent) => {
            if parent.unicode_len() != 0 && !facts.output_parent_exists {
                return Err(ArgsError::OutputParentMissing(parent));
            }
        },
        None => {},
    }
    Ok(())
}

} // verus!
