//! Classification of the finder's result into a reported severity.

use vstd::prelude::*;
use crate::duration::format_duration;
use crate::duration::spec_format_duration;
use crate::finder::str_eq;
use crate::finder::Execution;
use crate::finder::FindError;
use crate::nagios::NagiosStatus;

verus! {

/// How long a run took, in milliseconds. A run whose `end_time` precedes its
/// `start_time` (the service assumes this never happens for a terminal run,
/// but does not guarantee it) counts as having taken no time at all.
pub open spec fn spec_duration(e: Execution) -> nat {
    if e.end_time >= e.start_time {
        (e.end_time - e.start_time) as nat
    } else {
        0
    }
}

/// The text reported for a located execution:
/// `"{status}, took {HH:MM:SS.mmm}"`.
pub open spec fn spec_description(e: Execution) -> Seq<char> {
    e.status@ + ", took "@ + spec_format_duration(spec_duration(e))
}

/// The text reported when no execution could be located: the transport
/// error's own message, or a fixed line for an exhausted history.
pub open spec fn spec_error_message(e: FindError) -> Seq<char> {
    match e {
        FindError::Transport(message) => message@,
        FindError::NotFound => "No completed execution found"@,
    }
}

/// Renders the description line for a located execution.
pub fn description(execution: &Execution) -> (r: String)
    ensures
        r@ == spec_description(*execution),
{
    let millis = if execution.end_time >= execution.start_time {
        execution.end_time - execution.start_time
    } else {
        0
    };
    let mut s = execution.status.clone();
    s.append(", took ");
    let dur = format_duration(millis);
    s.append(dur.as_str());
    proof {
        assert(s@ =~= spec_description(*execution));
    }
    s
}

/// Renders the message for a failed search.
pub fn error_message(error: &FindError) -> (r: String)
    ensures
        r@ == spec_error_message(*error),
{
    match error {
        FindError::Transport(message) => message.clone(),
        FindError::NotFound => {
            let s: &str = "No completed execution found";
            s.to_owned()
        },
    }
}

/// Maps the finder's result to a severity and its description text.
///
/// A located run that `SUCCEEDED` is `Okay`; any other completed run is
/// `Critical`; a failed or exhausted search is `Unknown` with the matching
/// message. `Warning` is never produced here.
pub fn classify(result: Result<Execution, FindError>) -> (status: NagiosStatus)
    ensures
        result matches Ok(e) ==> (if e.status@ == "SUCCEEDED"@ {
            status matches NagiosStatus::Okay(d) && d@ == spec_description(e)
        } else {
            status matches NagiosStatus::Critical(d) && d@ == spec_description(e)
        }),
        result matches Err(error) ==> (status matches NagiosStatus::Unknown(d) && d@
            == spec_error_message(error)),
{
    match result {
        Ok(execution) => {
            let text = description(&execution);
            if str_eq(execution.status.as_str(), "SUCCEEDED") {
                NagiosStatus::Okay(text)
            } else {
                NagiosStatus::Critical(text)
            }
        },
        Err(error) => NagiosStatus::Unknown(error_message(&error)),
    }
}

} // verus!
