//! Reporting: the diagnostic line for one clean attempt, and the final
//! report of skipped projects.
//!
//! A clean attempt is reported only when it goes wrong: a nonzero exit or a
//! failed launch each produce exactly one line naming the project's path, and
//! the walk continues either way. The final report lists the declined paths,
//! in the order they were skipped, under a header; it is empty when nothing
//! was skipped.

use vstd::prelude::*;
use vstd::string::StringExecFns;

verus! {

/// The result of one clean attempt, as observed by the caller that ran the
/// subprocess.
#[derive(Debug)]
pub enum CleanOutcome {
    /// The process ran and exited with status 0.
    Success,
    /// The process ran and exited with a nonzero status.
    NonzeroExit,
    /// The process could not be launched; `detail` names the cause.
    LaunchFailed { detail: String },
}

/// The diagnostic line for a clean command that exited with a nonzero status.
pub open spec fn spec_nonzero_exit_line(path: Seq<char>) -> Seq<char> {
    "Command has a nonzero exit code while trying to clean "@ + path
}

/// The diagnostic line for a clean command that could not be launched.
pub open spec fn spec_launch_error_line(path: Seq<char>, detail: Seq<char>) -> Seq<char> {
    "There was an error cleaning "@ + path + ": "@ + detail
}

/// The single diagnostic line for one clean attempt: none on success, exactly
/// one line naming the project's path on a nonzero exit or a failed launch.
/// A failed clean is reported and nothing more; in particular it never puts
/// the path on the skipped list, which records declined prompts only.
pub fn clean_diagnostic(path: &str, outcome: &CleanOutcome) -> (r: Option<String>)
    ensures
        r is None <==> outcome is Success,
        outcome is NonzeroExit ==> r is Some && r.unwrap()@ == spec_nonzero_exit_line(path@),
        outcome matches CleanOutcome::LaunchFailed { detail } ==> r is Some && r.unwrap()@
            == spec_launch_error_line(path@, detail@),
{
    match outcome {
        CleanOutcome::Success => None,
        CleanOutcome::NonzeroExit => {
            let mut s = String::from_str("Command has a nonzero exit code while trying to clean ");
            s.append(path);
            Some(s)
        },
        CleanOutcome::LaunchFailed { detail } => {
            let mut s = String::from_str("There was an error cleaning ");
            s.append(path);
            s.append(": ");
            s.append(detail.as_str());
            proof {
                assert(s@ =~= spec_launch_error_line(path@, detail@));
            }
            Some(s)
        },
    }
}

/// The final report of the skipped projects: no lines at all when nothing was
/// skipped; otherwise a header line followed by one line per skipped path,
/// indented by two spaces, in the order the projects were declined.
pub fn skipped_report_lines(skipped: &Vec<String>) -> (r: Vec<String>)
    ensures
        skipped@.len() == 0 ==> r@.len() == 0,
        skipped@.len() > 0 ==> ({
            &&& r@.len() == skipped@.len() + 1
            &&& r@[0]@ == "Skipped projects:"@
            &&& forall|k: int| 0 <= k < skipped@.len() ==> r@[k + 1]@ == "  "@ + skipped@[k]@
        }),
{
    let mut r: Vec<String> = Vec::new();
    if skipped.len() == 0 {
        return r;
    }
    r.push(String::from_str("Skipped projects:"));
    let mut i: usize = 0;
    while i < skipped.len()
        invariant
            i <= skipped@.len(),
            r@.len() == i + 1,
            r@[0]@ == "Skipped projects:"@,
            forall|k: int| 0 <= k < i ==> r@[k + 1]@ == "  "@ + skipped@[k]@,
        decreases skipped@.len() - i,
    {
        let mut line = String::from_str("  ");
        line.append(skipped[i].as_str());
        r.push(line);
        i = i + 1;
    }
    r
}

} // verus!
