//! Runs of outside programs: what one is asked to do, what became of it, and the verdicts
//! that the converters draw from it.
use vstd::prelude::*;
use crate::jobs::texts;
use crate::text::{owned, trim, trimmed};

verus! {

broadcast use vstd::string::group_string_axioms;

/// A program to start, its arguments, and the file it is expected to write.
#[derive(Debug)]
pub struct Invocation {
    pub program: String,
    pub args: Vec<String>,
    pub produces: String,
}

/// What became of one run of an outside program.
#[derive(Debug)]
pub enum ProcessReport {
    /// The program could not be started, for `reason`.
    NotStarted { reason: String },
    /// The program ran: whether it exited successfully, its error output, and whether the
    /// file it was to write exists afterwards.
    Exited { success: bool, stderr: String, produced: bool },
}

/// A result whose error is taken by its characters.
pub open spec fn result_view(r: Result<(), String>) -> Result<(), Seq<char>> {
    match r {
        Ok(()) => Ok(()),
        Err(e) => Err(e@),
    }
}

/// The invocation `i` as plain values.
pub open spec fn invocation_view(i: Invocation) -> (Seq<char>, Seq<Seq<char>>, Seq<char>) {
    (i.program@, texts(i.args@), i.produces@)
}

/// The verdict on a run that must exit successfully and leave its output behind: a run
/// that could not start fails with `start_failure` and the reason; any other failure with
/// `run_failure` and the trimmed error output.
pub open spec fn strict_verdict(
    start_failure: Seq<char>,
    run_failure: Seq<char>,
    report: ProcessReport,
) -> Result<(), Seq<char>> {
    match report {
        ProcessReport::NotStarted { reason } => Err(start_failure + reason@),
        ProcessReport::Exited { success, stderr, produced } => if success && produced {
            Ok(())
        } else {
            Err(run_failure + trimmed(stderr@))
        },
    }
}

/// The verdict on a run of `tool`, each failure told apart: it could not start, it exited
/// with a failure (with its trimmed error output), or it wrote nothing.
pub open spec fn tool_verdict(tool: Seq<char>, report: ProcessReport) -> Result<(), Seq<char>> {
    match report {
        ProcessReport::NotStarted { reason } => Err("failed to start "@ + tool + ": "@ + reason@),
        ProcessReport::Exited { success, stderr, produced } => if !success {
            Err(tool + " failed: "@ + trimmed(stderr@))
        } else if !produced {
            Err(tool + " did not create the output file"@)
        } else {
            Ok(())
        },
    }
}

/// A program with its arguments and expected output.
pub fn invocation(program: &str, args: Vec<String>, produces: &str) -> (r: Invocation)
    ensures
        r.program@ == program@,
        r.args@ == args@,
        r.produces@ == produces@,
{
    Invocation { program: owned(program), args, produces: owned(produces) }
}

/// The verdict on a run that must exit successfully and leave its output behind.
pub fn strict_outcome(start_failure: &str, run_failure: &str, report: &ProcessReport) -> (r: Result<
    (),
    String,
>)
    ensures
        result_view(r) == strict_verdict(start_failure@, run_failure@, *report),
{
    match report {
        ProcessReport::NotStarted { reason } => {
            let mut m = owned(start_failure);
            m.append(reason.as_str());
            Err(m)
        },
        ProcessReport::Exited { success, stderr, produced } => {
            if *success && *produced {
                Ok(())
            } else {
                let mut m = owned(run_failure);
                let details = trim(stderr.as_str());
                m.append(details.as_str());
                Err(m)
            }
        },
    }
}

/// The verdict on a run of `tool`.
pub fn tool_outcome(tool: &str, report: &ProcessReport) -> (r: Result<(), String>)
    ensures
        result_view(r) == tool_verdict(tool@, *report),
{
    match report {
        ProcessReport::NotStarted { reason } => {
            let mut m = owned("failed to start ");
            m.append(tool);
            m.append(": ");
            m.append(reason.as_str());
            Err(m)
        },
        ProcessReport::Exited { success, stderr, produced } => {
            if !*success {
                let mut m = owned(tool);
                m.append(" failed: ");
                let details = trim(stderr.as_str());
                m.append(details.as_str());
                Err(m)
            } else if !*produced {
                let mut m = owned(tool);
                m.append(" did not create the output file");
                Err(m)
            } else {
                Ok(())
            }
        },
    }
}

/// What a conversion made of several runs does once a stage has run: go on with another
/// stage, or finish with a result; in either case whether the scratch directory is
/// removed first.
#[derive(Debug)]
pub enum StageStep<S> {
    Next { stage: S, remove_scratch: bool },
    Finish { result: Result<(), String>, remove_scratch: bool },
}

/// A stage step as plain values.
pub enum StepView<S> {
    Next(S),
    Finish(Result<(), Seq<char>>),
}

/// The step `s` as plain values, with its removal of the scratch directory.
pub open spec fn step_view<S>(s: StageStep<S>) -> (StepView<S>, bool) {
    match s {
        StageStep::Next { stage, remove_scratch } => (StepView::Next(stage), remove_scratch),
        StageStep::Finish { result, remove_scratch } => (
            StepView::Finish(result_view(result)),
            remove_scratch,
        ),
    }
}

/// The step after ImageMagick has been asked to normalise the input into the scratch
/// directory: on success go on with `next`; a start failure finishes with the reason and
/// leaves the scratch directory; a failed run finishes with ImageMagick's error output and
/// removes it.
pub open spec fn normalize_step<S>(next: S, report: ProcessReport) -> (StepView<S>, bool) {
    match report {
        ProcessReport::NotStarted { reason } => (
            StepView::Finish(Err("failed to start ImageMagick: "@ + reason@)),
            false,
        ),
        ProcessReport::Exited { success, stderr, produced } => if success && produced {
            (StepView::Next(next), false)
        } else {
            (StepView::Finish(Err("ImageMagick failed: "@ + trimmed(stderr@))), true)
        },
    }
}

/// The step after ImageMagick has been asked to normalise the input.
pub fn after_normalize<S>(next: S, report: &ProcessReport) -> (r: StageStep<S>)
    ensures
        step_view(r) == normalize_step(next, *report),
{
    match report {
        ProcessReport::NotStarted { .. } => StageStep::Finish {
            result: strict_outcome("failed to start ImageMagick: ", "ImageMagick failed: ", report),
            remove_scratch: false,
        },
        ProcessReport::Exited { success, produced, .. } => {
            if *success && *produced {
                StageStep::Next { stage: next, remove_scratch: false }
            } else {
                StageStep::Finish {
                    result: strict_outcome(
                        "failed to start ImageMagick: ",
                        "ImageMagick failed: ",
                        report,
                    ),
                    remove_scratch: true,
                }
            }
        },
    }
}

} // verus!
