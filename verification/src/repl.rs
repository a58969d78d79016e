//! The interactive prompt: what it shows, what it does with each line or
//! interrupt, and how it continues after evaluating the source.
//!
//! The caller reads lines and evaluates source; this module decides. After
//! each read it calls `ReplState::on_read` and does what the action says;
//! after each evaluation it calls `ReplState::on_eval`.

use vstd::prelude::*;

verus! {

/// Whether the prompt starts new source or continues incomplete source.
#[derive(Debug, Clone, Copy, PartialEq, Eq, Structural)]
pub enum PromptState {
    Regular,
    Continuation,
}

/// What reading from the prompt gave.
#[derive(Debug)]
pub enum ReadEvent {
    /// A line of input.
    Line(String),
    /// The user pressed ^C.
    Interrupted,
    /// The input ended.
    Eof,
    /// Reading failed; the value is the error's text.
    Failed(String),
}

/// What evaluating the source gave.
#[derive(Debug)]
pub enum EvalResult {
    /// The source ran.
    Success,
    /// The source is incomplete: more lines are needed.
    Incomplete,
    /// The source failed; the value is the error's text.
    Failed(String),
}

/// What the caller does after a read.
#[derive(Debug)]
pub enum ReadAction {
    /// Add the line to the history, print the notice if there is one, and
    /// evaluate the source.
    Eval { history: Option<String>, notice: Option<String> },
    /// Save the history and leave the prompt.
    SaveAndExit,
    /// Print the text to the error stream and exit with code 1.
    Abort(String),
}

/// The state of the prompt.
#[derive(Debug)]
pub struct ReplState {
    prompt_state: PromptState,
    source: String,
    interrupts: u32,
}

/// The mathematical value of the prompt's state.
pub ghost struct ReplView {
    pub prompt_state: PromptState,
    pub source: Seq<char>,
    pub interrupts: u32,
}

/// The mathematical value of a read action.
pub ghost enum ReadActionView {
    Eval { history: Option<Seq<char>>, notice: Option<Seq<char>> },
    SaveAndExit,
    Abort(Seq<char>),
}

impl ReadAction {
    /// The mathematical value of the action.
    pub open spec fn view(&self) -> ReadActionView {
        match self {
            ReadAction::Eval { history, notice } => ReadActionView::Eval {
                history: match history {
                    Some(h) => Some(h@),
                    None => None,
                },
                notice: match notice {
                    Some(n) => Some(n@),
                    None => None,
                },
            },
            ReadAction::SaveAndExit => ReadActionView::SaveAndExit,
            ReadAction::Abort(m) => ReadActionView::Abort(m@),
        }
    }
}

/// The prompt for a state: `> ` for new source, `>> ` to continue it.
pub open spec fn spec_prompt(p: PromptState) -> Seq<char> {
    match p {
        PromptState::Regular => "> "@,
        PromptState::Continuation => ">> "@,
    }
}

/// The state and the action after a read. A line starts new source, or is
/// added to incomplete source, and resets the interrupt count. A first ^C
/// prints a notice and evaluates the source again; a second one leaves, as
/// does the end of input. A failed read aborts.
pub open spec fn spec_on_read(s: ReplView, e: ReadEvent) -> (ReplView, ReadActionView) {
    match e {
        ReadEvent::Line(code) => {
            let source = if s.prompt_state == PromptState::Continuation {
                s.source + code@
            } else {
                code@
            };
            (
                ReplView { source, interrupts: 0, ..s },
                ReadActionView::Eval { history: Some(code@), notice: None },
            )
        },
        ReadEvent::Interrupted => if s.interrupts != 1 {
            (
                ReplView { interrupts: (s.interrupts + 1) as u32, ..s },
                ReadActionView::Eval {
                    history: None,
                    notice: Some("Interrupt: ^C again to exit"@),
                },
            )
        } else {
            (s, ReadActionView::SaveAndExit)
        },
        ReadEvent::Eof => (s, ReadActionView::SaveAndExit),
        ReadEvent::Failed(m) => (s, ReadActionView::Abort("REPL ERROR: "@ + m@)),
    }
}

/// The state after an evaluation, and the text to print to the error
/// stream: success starts new source; incomplete source gets a newline and
/// is continued; a failure is printed and the state is kept.
pub open spec fn spec_on_eval(s: ReplView, r: EvalResult) -> (ReplView, Option<Seq<char>>) {
    match r {
        EvalResult::Success => (ReplView { prompt_state: PromptState::Regular, ..s }, None),
        EvalResult::Incomplete => (
            ReplView {
                prompt_state: PromptState::Continuation,
                source: s.source + "\n"@,
                ..s
            },
            None,
        ),
        EvalResult::Failed(m) => (s, Some(m@)),
    }
}

/// The banner shown when the prompt starts.
pub fn banner(version: &str) -> (r: String)
    ensures
        r@ == "Lune v"@ + version@,
{
    let mut r = "Lune v".to_string();
    r.append(version);
    r
}

impl ReplState {
    /// The mathematical value of the state.
    pub closed spec fn view(&self) -> ReplView {
        ReplView { prompt_state: self.prompt_state, source: self.source@, interrupts: self.interrupts }
    }

    /// Whether the interrupt count is at most one, as the prompt keeps it.
    pub closed spec fn wf(&self) -> bool {
        self.interrupts <= 1
    }

    /// The state before the first line.
    pub fn new() -> (r: Self)
        ensures
            r.wf(),
            r.view() == (ReplView {
                prompt_state: PromptState::Regular,
                source: seq![],
                interrupts: 0,
            }),
    {
        let r = ReplState { prompt_state: PromptState::Regular, source: String::new(), interrupts: 0 };
        r
    }

    /// The prompt to show.
    pub fn prompt(&self) -> (r: &'static str)
        ensures
            r@ == spec_prompt(self.view().prompt_state),
    {
        match self.prompt_state {
            PromptState::Regular => "> ",
            PromptState::Continuation => ">> ",
        }
    }

    /// The source to evaluate.
    pub fn source(&self) -> (r: &str)
        ensures
            r@ == self.view().source,
    {
        self.source.as_str()
    }

    /// Takes what a read gave, and says what to do.
    pub fn on_read(&mut self, event: ReadEvent) -> (r: ReadAction)
        requires
            old(self).wf(),
        ensures
            final(self).wf(),
            (final(self).view(), r.view()) == spec_on_read(old(self).view(), event),
    {
        match event {
            ReadEvent::Line(code) => {
                if self.prompt_state == PromptState::Continuation {
                    self.source.append(code.as_str());
                } else {
                    self.source = code.clone();
                }
                self.interrupts = 0;
                ReadAction::Eval { history: Some(code), notice: None }
            },
            ReadEvent::Interrupted => {
                if self.interrupts != 1 {
                    self.interrupts = self.interrupts + 1;
                    ReadAction::Eval {
                        history: None,
                        notice: Some("Interrupt: ^C again to exit".to_string()),
                    }
                } else {
                    ReadAction::SaveAndExit
                }
            },
            ReadEvent::Eof => ReadAction::SaveAndExit,
            ReadEvent::Failed(m) => {
                let mut t = "REPL ERROR: ".to_string();
                t.append(m.as_str());
                ReadAction::Abort(t)
            },
        }
    }

    /// Takes what an evaluation gave; returns the text to print to the
    /// error stream, if any.
    pub fn on_eval(&mut self, result: EvalResult) -> (r: Option<String>)
        requires
            old(self).wf(),
        ensures
            final(self).wf(),
            (final(self).view(), match r {
                Some(m) => Some(m@),
                None => None::<Seq<char>>,
            }) == spec_on_eval(old(self).view(), result),
    {
        match result {
            EvalResult::Success => {
                self.prompt_state = PromptState::Regular;
                None
            },
            EvalResult::Incomplete => {
                self.prompt_state = PromptState::Continuation;
                self.source.append("\n");
                None
            },
            EvalResult::Failed(m) => Some(m),
        }
    }
}

/// Two ^C in a row leave the prompt: the first only warns.
pub proof fn lemma_two_interrupts_exit(s: ReplView)
    requires
        s.interrupts == 0,
    ensures
        ({
            let (s1, a1) = spec_on_read(s, ReadEvent::Interrupted);
            let (s2, a2) = spec_on_read(s1, ReadEvent::Interrupted);
            a1 is Eval && a2 is SaveAndExit
        }),
{
}

} // verus!
