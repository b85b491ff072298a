//! The report a monitoring supervisor consumes: one line of text on
//! standard output and a four-level exit code.
//!
//! The library renders the line and selects the code; actually printing the
//! line and terminating the process is left to the caller, so that the
//! untestable side effect stays at the outermost edge.

use vstd::prelude::*;

verus! {

/// A classified outcome, each severity carrying its description text.
///
/// Normal classification only produces `Okay`, `Critical` and `Unknown`;
/// `Warning` completes the four-level vocabulary the reporting contract
/// requires.
pub enum NagiosStatus {
    Okay(String),
    Warning(String),
    Critical(String),
    Unknown(String),
}

/// The exit code a monitoring supervisor reads for each severity.
pub open spec fn spec_exit_code(status: NagiosStatus) -> int {
    match status {
        NagiosStatus::Okay(_) => 0,
        NagiosStatus::Warning(_) => 1,
        NagiosStatus::Critical(_) => 2,
        NagiosStatus::Unknown(_) => 3,
    }
}

/// The upper-case label printed for each severity.
pub open spec fn spec_status_label(status: NagiosStatus) -> Seq<char> {
    match status {
        NagiosStatus::Okay(_) => "OK"@,
        NagiosStatus::Warning(_) => "WARNING"@,
        NagiosStatus::Critical(_) => "CRITICAL"@,
        NagiosStatus::Unknown(_) => "UNKNOWN"@,
    }
}

/// The description text a severity carries.
pub open spec fn spec_status_description(status: NagiosStatus) -> Seq<char> {
    match status {
        NagiosStatus::Okay(d) => d@,
        NagiosStatus::Warning(d) => d@,
        NagiosStatus::Critical(d) => d@,
        NagiosStatus::Unknown(d) => d@,
    }
}

/// A named service whose outcomes are reported.
pub struct NagiosService<'a> {
    name: &'a str,
}

impl<'a> View for NagiosService<'a> {
    type V = Seq<char>;

    closed spec fn view(&self) -> Seq<char> {
        self.name@
    }
}

impl<'a> NagiosService<'a> {
    /// Makes a reporter for the service of the given name.
    pub fn new(name: &'a str) -> (s: NagiosService<'a>)
        ensures
            s@ == name@,
    {
        NagiosService { name }
    }

    /// Renders the outcome as the exit code and the single report line
    /// `"{name} {LABEL}: {description}"`.
    ///
    /// The caller prints the line to standard output and terminates the
    /// process with the code.
    pub fn render(&self, status: &NagiosStatus) -> (r: (i32, String))
        ensures
            r.0 == spec_exit_code(*status),
            r.1@ == self@ + " "@ + spec_status_label(*status) + ": "@ + spec_status_description(
                *status,
            ),
    {
        let code: i32;
        let label: &str;
        let description: &String;
        match status {
            NagiosStatus::Okay(d) => {
                code = 0;
                label = "OK";
                description = d;
            },
            NagiosStatus::Warning(d) => {
                code = 1;
                label = "WARNING";
                description = d;
            },
            NagiosStatus::Critical(d) => {
                code = 2;
                label = "CRITICAL";
                description = d;
            },
            NagiosStatus::Unknown(d) => {
                code = 3;
                label = "UNKNOWN";
                description = d;
            },
        }
        let mut line = self.name.to_owned();
        line.append(" ");
        line.append(label);
        line.append(": ");
        line.append(description.as_str());
        proof {
            assert(line@ =~= self@ + " "@ + spec_status_label(*status) + ": "@
                + spec_status_description(*status));
        }
        (code, line)
    }
}

} // verus!
