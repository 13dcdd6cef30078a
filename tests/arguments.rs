use ignore_aggregator::args::{check_args, ArgsError, IgnoreAggregatorArgs, PathFacts};

fn args(reference: &str, output: &str) -> IgnoreAggregatorArgs {
    IgnoreAggregatorArgs {
        reference_directory: reference.to_string(),
        output_aggregated: output.to_string(),
    }
}

fn facts(reference_is_dir: bool, output_exists: bool, output_parent_exists: bool) -> PathFacts {
    PathFacts { reference_is_dir, output_exists, output_parent_exists }
}

fn message(r: Result<(), ArgsError>) -> String {
    r.err().unwrap().message()
}

#[test]
fn valid_paths_pass() {
    assert!(check_args(&args("/r", "/tmp/out"), &facts(true, false, true)).is_ok());
}

#[test]
fn bare_output_name_needs_no_directory_check() {
    assert!(check_args(&args("/r", "out"), &facts(true, false, false)).is_ok());
}

#[test]
fn missing_reference_directory_is_refused() {
    let r = check_args(&args("/nope", "/tmp/out"), &facts(false, false, true));
    assert_eq!(message(r), "Invalid reference directory /nope");
}

#[test]
fn existing_output_is_refused() {
    let r = check_args(&args("/r", "/tmp/out"), &facts(true, true, true));
    assert!(matches!(r, Err(ArgsError::OutputExists(_))));
    let r = check_args(&args("/r", "/tmp/out"), &facts(true, true, true));
    assert_eq!(message(r), "Invalid output file. /tmp/out already exists.");
}

#[test]
fn reference_directory_is_checked_first() {
    let r = check_args(&args("/nope", "/tmp/out"), &facts(false, true, false));
    assert!(matches!(r, Err(ArgsError::InvalidReferenceDirectory(_))));
}

#[test]
fn missing_output_directory_is_refused() {
    let r = check_args(&args("/r", "/missing/dir/out"), &facts(true, false, false));
    assert_eq!(
        message(r),
        "Invalid output path, couldn't find directory to create output file. (/missing/dir not found)"
    );
}
