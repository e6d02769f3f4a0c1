//! What a run hands to its caller for display, and the small decisions
//! taken on command-line values.

use vstd::prelude::*;
use vstd::string::*;

use crate::duration::{trim_of, trimmed};
use crate::error::WaitForError;
use crate::probe::{TargetResult, WaitResult};
use crate::target::{display_of, find_colon, first_colon};
use crate::text::join3;
use crate::time::{clamp_u64, duration_to_millis_u64, millis_of};

verus! {

/// One target of a run, as plain values.
pub struct JsonTargetResult {
    pub target: String,
    pub success: bool,
    pub elapsed_ms: u64,
    pub attempts: u32,
    pub error: Option<String>,
}

/// A run, as plain values.
pub struct JsonOutput {
    pub success: bool,
    pub elapsed_ms: u64,
    pub total_attempts: u32,
    pub targets: Vec<JsonTargetResult>,
}

/// The plain values of one target's result.
pub open spec fn json_target_of(r: TargetResult, j: JsonTargetResult) -> bool {
    &&& j.target@ == display_of(r.target@)
    &&& j.success == r.success
    &&& j.elapsed_ms == clamp_u64(millis_of(r.elapsed))
    &&& j.attempts == r.attempts
    &&& match (j.error, r.error) {
        (Some(a), Some(b)) => a@ == b@,
        (None, None) => true,
        _ => false,
    }
}

/// A copy of an error text.
fn copy_error(e: &Option<String>) -> (r: Option<String>)
    ensures
        match (r, *e) {
            (Some(a), Some(b)) => a@ == b@,
            (None, None) => true,
            _ => false,
        },
{
    match e {
        Some(s) => Some(s.clone()),
        None => None,
    }
}

/// The plain values of a run: its outcome, time in whole milliseconds,
/// attempts, and each target's result in order.
pub fn json_output_of(result: &WaitResult) -> (r: JsonOutput)
    ensures
        r.success == result.success,
        r.elapsed_ms == clamp_u64(millis_of(result.elapsed)),
        r.total_attempts == result.attempts,
        r.targets@.len() == result.target_results@.len(),
        forall|i: int| 0 <= i < r.targets@.len() ==> json_target_of(result.target_results@[i], #[trigger] r.targets@[i]),
{
    let mut targets: Vec<JsonTargetResult> = Vec::new();
    let mut i: usize = 0;
    while i < result.target_results.len()
        invariant
            i <= result.target_results@.len(),
            targets@.len() == i,
            forall|j: int| 0 <= j < i ==> json_target_of(result.target_results@[j], #[trigger] targets@[j]),
        decreases result.target_results@.len() - i,
    {
        let tr = &result.target_results[i];
        targets.push(
            JsonTargetResult {
                target: tr.target.display(),
                success: tr.success,
                elapsed_ms: duration_to_millis_u64(tr.elapsed),
                attempts: tr.attempts,
                error: copy_error(&tr.error),
            },
        );
        i += 1;
    }
    JsonOutput {
        success: result.success,
        elapsed_ms: duration_to_millis_u64(result.elapsed),
        total_attempts: result.attempts,
        targets,
    }
}

/// A header written `name: value`: the two sides of the first colon,
/// trimmed; `InvalidTarget` when there is no colon.
pub fn parse_header_arg(text: &str) -> (r: Result<(String, String), WaitForError>)
    ensures
        r is Ok <==> exists|i: int| first_colon(text@, i),
        forall|i: int|
            #[trigger] first_colon(text@, i) ==> (r matches Ok(h) && h.0@ == trim_of(text@.subrange(0, i)) && h.1@
                == trim_of(text@.subrange(i + 1, text@.len() as int))),
        r matches Err(e) ==> e is InvalidTarget,
{
    match find_colon(text) {
        Some(i) => {
            proof {
                assert forall|j: int| first_colon(text@, j) implies j == i by {
                    if j < i {
                        assert(text@[j] == ':');
                    } else if j > i {
                        assert(text@[i as int] == ':');
                    }
                }
            }
            let n = text.unicode_len();
            let name = trimmed(text.substring_char(0, i));
            let value = trimmed(text.substring_char(i + 1, n));
            Ok((String::from_str(name), String::from_str(value)))
        },
        None => Err(
            WaitForError::InvalidTarget(join3("Invalid header format '", text, "': expected 'key:value'")),
        ),
    }
}

/// Whether a run waits for any target: when asked to, or when there is a
/// single target and waiting for all was not asked for.
pub fn wait_for_any_choice(any: bool, all: bool, target_count: usize) -> (r: bool)
    ensures
        r == (any || (!all && target_count == 1)),
{
    any || (!all && target_count == 1)
}

} // verus!
