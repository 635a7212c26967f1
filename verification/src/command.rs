//! Queue commands: what is run, and what is reported when it fails.
use vstd::prelude::*;

use crate::decode;
use crate::formatting;
use crate::viewport;

verus! {

/// A command to run: the program, its arguments, and how it is shown.
#[derive(Debug)]
pub struct CommandRequest {
    pub program: String,
    pub arguments: Vec<String>,
    pub label: String,
}

/// The value of a [`CommandRequest`].
pub struct RequestView {
    pub program: Seq<char>,
    pub arguments: Seq<Seq<char>>,
    pub label: Seq<char>,
}

impl View for CommandRequest {
    type V = RequestView;

    open spec fn view(&self) -> RequestView {
        RequestView {
            program: self.program@,
            arguments: viewport::string_views(self.arguments@),
            label: self.label@,
        }
    }
}

/// A command that failed, and what it reported.
#[derive(Debug)]
pub struct CommandFailure {
    pub command: String,
    pub output: String,
}

/// How a command ended.
#[derive(Debug)]
pub enum CommandOutcome {
    /// It could not be run, for this reason.
    NotRun { reason: String },
    /// It ran to its end. There is no exit code where a signal ended it.
    Ended { success: bool, code: Option<i32>, stdout: Vec<u8>, stderr: Vec<u8> },
}

/// The command that cancels a job, or sends it a signal.
pub open spec fn scancel(job_id: Seq<char>, signal: Option<Seq<char>>) -> RequestView {
    match signal {
        Some(name) => RequestView {
            program: "scancel"@,
            arguments: seq!["--signal"@, name, job_id],
            label: "scancel"@ + " --signal "@ + name + " "@ + job_id,
        },
        None => RequestView {
            program: "scancel"@,
            arguments: seq![job_id],
            label: "scancel"@ + " "@ + job_id,
        },
    }
}

/// The command that changes a job's time limit.
pub open spec fn scontrol_timelimit(job_id: Seq<char>, time_limit: Seq<char>) -> RequestView {
    RequestView {
        program: "scontrol"@,
        arguments: seq!["update"@, "JobId="@ + job_id, "TimeLimit="@ + time_limit],
        label: "scontrol update JobId="@ + job_id + " TimeLimit="@ + time_limit,
    }
}

/// The command that cancels a job, or sends it a signal.
pub fn scancel_command(job_id: &str, signal: Option<&str>) -> (r: CommandRequest)
    ensures
        r@ == scancel(
            job_id@,
            match signal {
                Some(s) => Some(s@),
                None => None,
            },
        ),
{
    let mut arguments: Vec<String> = Vec::new();
    let mut label: String = "scancel".to_owned();
    match signal {
        Some(name) => {
            arguments.push("--signal".to_owned());
            arguments.push(name.to_owned());
            label.append(" --signal ");
            label.append(name);
        },
        None => {},
    }
    arguments.push(job_id.to_owned());
    label.append(" ");
    label.append(job_id);
    proof {
        match signal {
            Some(name) => {
                assert(viewport::string_views(arguments@) =~= seq!["--signal"@, name@, job_id@]);
            },
            None => {
                assert(viewport::string_views(arguments@) =~= seq![job_id@]);
            },
        }
    }
    CommandRequest { program: "scancel".to_owned(), arguments, label }
}

/// The command that changes a job's time limit.
pub fn scontrol_update_timelimit_command(job_id: &str, time_limit: &str) -> (r: CommandRequest)
    ensures
        r@ == scontrol_timelimit(job_id@, time_limit@),
{
    let mut id: String = "JobId=".to_owned();
    id.append(job_id);
    let mut limit: String = "TimeLimit=".to_owned();
    limit.append(time_limit);
    let mut label: String = "scontrol update JobId=".to_owned();
    label.append(job_id);
    label.append(" TimeLimit=");
    label.append(time_limit);
    let mut arguments: Vec<String> = Vec::new();
    arguments.push("update".to_owned());
    arguments.push(id);
    arguments.push(limit);
    assert(viewport::string_views(arguments@) =~= seq![
        "update"@,
        "JobId="@ + job_id@,
        "TimeLimit="@ + time_limit@,
    ]);
    CommandRequest { program: "scontrol".to_owned(), arguments, label }
}

/// What is reported of a command that ended badly: its exit code, and what it
/// printed.
pub open spec fn failure_report(code: Option<i32>, stdout: Seq<u8>, stderr: Seq<u8>) -> Seq<char> {
    let head = "Exit code: "@ + (match code {
        Some(n) => formatting::signed_decimal(n as int),
        None => "N/A"@,
    });
    let out = formatting::end_trimmed(decode::lossy(stdout));
    let err = formatting::end_trimmed(decode::lossy(stderr));
    if out.len() > 0 && err.len() > 0 {
        head + "\n\n"@ + "stdout:\n"@ + out + "\n\n"@ + "stderr:\n"@ + err
    } else if out.len() > 0 {
        head + "\n\n"@ + out
    } else if err.len() > 0 {
        head + "\n\n"@ + err
    } else {
        head + "\n\n"@ + "No output."@
    }
}

/// The failure that a command's outcome is, or `None` where it succeeded.
pub fn command_failure(label: String, outcome: CommandOutcome) -> (r: Option<CommandFailure>)
    ensures
        match outcome {
            CommandOutcome::NotRun { reason } => r is Some && r->0.command@ == label@
                && r->0.output@ == reason@,
            CommandOutcome::Ended { success, code, stdout, stderr } => {
                &&& success ==> r is None
                &&& !success ==> r is Some && r->0.command@ == label@ && r->0.output@
                    == failure_report(code, stdout@, stderr@)
            },
        },
{
    match outcome {
        CommandOutcome::NotRun { reason } => Some(
            CommandFailure { command: label, output: reason },
        ),
        CommandOutcome::Ended { success, code, stdout, stderr } => {
            if success {
                return None;
            }
            let mut report: String = "Exit code: ".to_owned();
            match code {
                Some(n) => formatting::push_signed_decimal(&mut report, n),
                None => report.append("N/A"),
            }
            let printed: String = decode::lossy_text(stdout.as_slice());
            let out: &str = formatting::trim_end(printed.as_str());
            let complaint: String = decode::lossy_text(stderr.as_slice());
            let err: &str = formatting::trim_end(complaint.as_str());
            report.append("\n\n");
            if !out.is_empty() && !err.is_empty() {
                report.append("stdout:\n");
                report.append(out);
                report.append("\n\n");
                report.append("stderr:\n");
                report.append(err);
            } else if !out.is_empty() {
                report.append(out);
            } else if !err.is_empty() {
                report.append(err);
            } else {
                report.append("No output.");
            }
            Some(CommandFailure { command: label, output: report })
        },
    }
}

} // verus!
