//! The command line's decisions: which flag combinations are refused, and
//! the exit status of a run.
use vstd::prelude::*;

verus! {

/// The flags whose combinations are checked.
pub struct Flags {
    pub check: bool,
    pub write: bool,
    pub diff: bool,
    pub stdin: bool,
    pub has_files: bool,
    pub trace_summary: bool,
    pub trace_output: bool,
}

/// The first refused combination, if any; see `validate_flag_interactions`.
pub open spec fn flag_error(f: Flags) -> Option<Seq<char>> {
    if f.check && f.write {
        Some("--check and --write are mutually exclusive"@)
    } else if f.diff && f.write {
        Some("--diff and --write are mutually exclusive"@)
    } else if f.stdin && f.has_files {
        Some("--stdin cannot be used with file arguments"@)
    } else if f.trace_summary && !f.trace_output {
        Some("--trace-summary-output requires --trace-output"@)
    } else {
        None
    }
}

/// The message of the first refused flag combination (a run then exits with
/// status 2), or none.
pub fn validate_flag_interactions(f: &Flags) -> (r: Option<&'static str>)
    ensures
        match (r, flag_error(*f)) {
            (Some(m), Some(e)) => m@ == e,
            (None, None) => true,
            _ => false,
        },
{
    if f.check && f.write {
        Some("--check and --write are mutually exclusive")
    } else if f.diff && f.write {
        Some("--diff and --write are mutually exclusive")
    } else if f.stdin && f.has_files {
        Some("--stdin cannot be used with file arguments")
    } else if f.trace_summary && !f.trace_output {
        Some("--trace-summary-output requires --trace-output")
    } else {
        None
    }
}

/// The exit status of a run: 2 after an error, 1 when `--check` found a file
/// that is not formatted, else 0.
pub fn exit_status(had_error: bool, check: bool, any_unformatted: bool) -> (r: u8)
    ensures
        r == (if had_error { 2u8 } else if check && any_unformatted { 1u8 } else { 0u8 }),
{
    if had_error {
        2
    } else if check && any_unformatted {
        1
    } else {
        0
    }
}

} // verus!
