//! The ordered, fail-fast sequence of external actions that opens a project.
//!
//! The library decides what to start and what a start's outcome means; the
//! caller starts the processes and reports back.

use crate::candidate::Candidate;
use vstd::prelude::*;
use vstd::string::*;

verus! {

/// The program that switches workspaces and sets their layout.
pub const WINDOW_MANAGER: &'static str = "i3-msg";

/// The terminal program.
pub const TERMINAL: &'static str = "terminator";

/// The editor program.
pub const EDITOR: &'static str = "cursor";

/// The browser program.
pub const BROWSER: &'static str = "chromium";

/// The five actions of a launch, in the order in which they are taken.
#[derive(Clone, Copy, Debug, PartialEq, Eq, Structural)]
pub enum LaunchStep {
    WorkspaceSwitch,
    LayoutSet,
    TerminalStart,
    EditorStart,
    BrowserStart,
}

/// A process to start: the program, its arguments and the directory to
/// start it in, if any.
#[derive(Debug)]
pub struct SpawnRequest {
    pub program: String,
    pub args: Vec<String>,
    pub working_directory: Option<String>,
}

/// A spawn request as contracts see it.
pub struct SpawnRequestView {
    pub program: Seq<char>,
    pub args: Seq<Seq<char>>,
    pub working_directory: Option<Seq<char>>,
}

impl View for SpawnRequest {
    type V = SpawnRequestView;

    open spec fn view(&self) -> SpawnRequestView {
        SpawnRequestView {
            program: self.program@,
            args: Seq::new(self.args@.len(), |i: int| self.args@[i]@),
            working_directory: match self.working_directory {
                Some(d) => Some(d@),
                None => None,
            },
        }
    }
}

/// A launch that stopped: the step that could not start its process, and
/// the reason that the system gave.
#[derive(Debug)]
pub struct LaunchError {
    pub step: LaunchStep,
    pub cause: String,
}

/// Where a launch stands.
#[derive(Debug)]
pub enum LaunchProgress {
    /// This step is to be taken next.
    Next(LaunchStep),
    /// Every step has started its process.
    Finished,
    /// A step failed; no further step is taken.
    Failed(LaunchError),
}

/// The step that follows `step`, if any.
pub open spec fn following(step: LaunchStep) -> Option<LaunchStep> {
    match step {
        LaunchStep::WorkspaceSwitch => Some(LaunchStep::LayoutSet),
        LaunchStep::LayoutSet => Some(LaunchStep::TerminalStart),
        LaunchStep::TerminalStart => Some(LaunchStep::EditorStart),
        LaunchStep::EditorStart => Some(LaunchStep::BrowserStart),
        LaunchStep::BrowserStart => None,
    }
}

/// The process that `step` starts for a candidate with the given label and
/// location. Terminal and editor are told the location as an argument; no
/// step asks for a working directory of its own, so a location that is
/// missing does not keep a process from starting.
pub open spec fn planned_request(step: LaunchStep, label: Seq<char>, location: Seq<char>) -> SpawnRequestView {
    match step {
        LaunchStep::WorkspaceSwitch => SpawnRequestView {
            program: WINDOW_MANAGER@,
            args: seq!["workspace"@, label],
            working_directory: None,
        },
        LaunchStep::LayoutSet => SpawnRequestView {
            program: WINDOW_MANAGER@,
            args: seq!["layout"@, "tabbed"@],
            working_directory: None,
        },
        LaunchStep::TerminalStart => SpawnRequestView {
            program: TERMINAL@,
            args: seq!["--working-directory"@, location],
            working_directory: None,
        },
        LaunchStep::EditorStart => SpawnRequestView {
            program: EDITOR@,
            args: seq![location],
            working_directory: None,
        },
        LaunchStep::BrowserStart => SpawnRequestView {
            program: BROWSER@,
            args: Seq::empty(),
            working_directory: None,
        },
    }
}

/// What is said of a step that failed.
pub open spec fn failure_text(step: LaunchStep) -> Seq<char> {
    match step {
        LaunchStep::WorkspaceSwitch => "Failed to switch workspace"@,
        LaunchStep::LayoutSet => "Failed to set tabbed layout"@,
        LaunchStep::TerminalStart => "Failed to launch terminal"@,
        LaunchStep::EditorStart => "Failed to launch editor"@,
        LaunchStep::BrowserStart => "Failed to launch browser"@,
    }
}

/// A launch begins with the workspace switch.
pub fn begin() -> (progress: LaunchProgress)
    ensures
        progress == LaunchProgress::Next(LaunchStep::WorkspaceSwitch),
{
    LaunchProgress::Next(LaunchStep::WorkspaceSwitch)
}

/// The step that follows `step`, if any.
pub fn next_step(step: LaunchStep) -> (next: Option<LaunchStep>)
    ensures
        next == following(step),
{
    match step {
        LaunchStep::WorkspaceSwitch => Some(LaunchStep::LayoutSet),
        LaunchStep::LayoutSet => Some(LaunchStep::TerminalStart),
        LaunchStep::TerminalStart => Some(LaunchStep::EditorStart),
        LaunchStep::EditorStart => Some(LaunchStep::BrowserStart),
        LaunchStep::BrowserStart => None,
    }
}

/// The process that `step` starts for `candidate`.
pub fn request_for(step: LaunchStep, candidate: &Candidate) -> (request: SpawnRequest)
    ensures
        request@ == planned_request(step, candidate.label(), candidate.place()),
{
    let mut args: Vec<String> = Vec::new();
    let request = match step {
        LaunchStep::WorkspaceSwitch => {
            args.push(String::from_str("workspace"));
            args.push(String::from_str(candidate.display_label()));
            SpawnRequest { program: String::from_str(WINDOW_MANAGER), args, working_directory: None }
        },
        LaunchStep::LayoutSet => {
            args.push(String::from_str("layout"));
            args.push(String::from_str("tabbed"));
            SpawnRequest { program: String::from_str(WINDOW_MANAGER), args, working_directory: None }
        },
        LaunchStep::TerminalStart => {
            args.push(String::from_str("--working-directory"));
            args.push(String::from_str(candidate.location()));
            SpawnRequest { program: String::from_str(TERMINAL), args, working_directory: None }
        },
        LaunchStep::EditorStart => {
            args.push(String::from_str(candidate.location()));
            SpawnRequest { program: String::from_str(EDITOR), args, working_directory: None }
        },
        LaunchStep::BrowserStart => SpawnRequest {
            program: String::from_str(BROWSER),
            args,
            working_directory: None,
        },
    };
    assert(request@.args =~= planned_request(step, candidate.label(), candidate.place()).args);
    request
}

/// Takes the outcome of `step`: a process that started leads to the
/// following step, or ends the launch after the last one; a process that
/// did not start stops the launch with that step and the cause.
pub fn advance(step: LaunchStep, outcome: Result<(), String>) -> (progress: LaunchProgress)
    ensures
        match outcome {
            Ok(_) => match following(step) {
                Some(next) => progress == LaunchProgress::Next(next),
                None => progress == LaunchProgress::Finished,
            },
            Err(cause) => progress == LaunchProgress::Failed(LaunchError { step, cause }),
        },
{
    match outcome {
        Ok(_) => match next_step(step) {
            Some(next) => LaunchProgress::Next(next),
            None => LaunchProgress::Finished,
        },
        Err(cause) => LaunchProgress::Failed(LaunchError { step, cause }),
    }
}

impl LaunchError {
    /// The failure in words: which step failed, and why.
    pub fn describe(&self) -> (text: String)
        ensures
            text@ == failure_text(self.step) + ": "@ + self.cause@,
    {
        let mut text = match self.step {
            LaunchStep::WorkspaceSwitch => String::from_str("Failed to switch workspace"),
            LaunchStep::LayoutSet => String::from_str("Failed to set tabbed layout"),
            LaunchStep::TerminalStart => String::from_str("Failed to launch terminal"),
            LaunchStep::EditorStart => String::from_str("Failed to launch editor"),
            LaunchStep::BrowserStart => String::from_str("Failed to launch browser"),
        };
        text.append(": ");
        text.append(self.cause.as_str());
        text
    }
}

} // verus!
