//! The lines that report a failed operation and the chain of its causes.

use vstd::prelude::*;
use vstd::string::StringExecFns;

verus! {

/// The line that names the operation that failed and the failure.
pub open spec fn failure_line(method_name: Seq<char>, message: Seq<char>) -> Seq<char> {
    method_name + "() failed: "@ + message
}

/// The line that names one cause of a failure.
pub open spec fn cause_line(message: Seq<char>) -> Seq<char> {
    "  Caused by: "@ + message
}

/// The report of a failure: one line for the failure itself, then one line
/// for each of its causes, nearest first.
pub fn log_error(method_name: &str, message: &str, causes: &Vec<String>) -> (lines: Vec<String>)
    ensures
        lines@.len() == causes@.len() + 1,
        lines@[0]@ == failure_line(method_name@, message@),
        forall|i: int| 0 <= i < causes@.len() ==> (#[trigger] lines@[i + 1])@ == cause_line(causes@[i]@),
{
    let mut lines: Vec<String> = Vec::new();
    let mut first = String::from_str(method_name);
    first.append("() failed: ");
    first.append(message);
    lines.push(first);
    let mut i: usize = 0;
    while i < causes.len()
        invariant
            i <= causes@.len(),
            lines@.len() == i + 1,
            lines@[0]@ == failure_line(method_name@, message@),
            forall|j: int| 0 <= j < i ==> (#[trigger] lines@[j + 1])@ == cause_line(causes@[j]@),
        decreases causes@.len() - i,
    {
        let mut line = String::from_str("  Caused by: ");
        line.append(causes[i].as_str());
        lines.push(line);
        i += 1;
    }
    lines
}

} // verus!
