//! The runtime: which globals a script gets, and the bookkeeping of the
//! messages that running tasks send while a script runs.
//!
//! Running a script is a loop that the caller drives: it receives a message
//! from a task, hands it to `RunState::step`, does what the outcome says
//! (print an error, close the channel, stop), and when no message is left it
//! asks `RunState::exit_code` for the code to exit with.

use vstd::prelude::*;

use crate::formatting::{
    error_ok, fmt_error, pretty_format_luau_error, spec_format_label, format_label, LuauError,
};

verus! {

// ---------------------------------------------------------------------
// Globals

/// A global library that the runtime can give scripts.
#[derive(Debug, Clone, Copy, PartialEq, Eq, Structural)]
pub enum LuneGlobal {
    Console,
    Fs,
    Net,
    Process,
    Require,
    Task,
}

/// Every global, in declaration order.
pub open spec fn all_globals() -> Seq<LuneGlobal> {
    seq![
        LuneGlobal::Console,
        LuneGlobal::Fs,
        LuneGlobal::Net,
        LuneGlobal::Process,
        LuneGlobal::Require,
        LuneGlobal::Task,
    ]
}

impl LuneGlobal {
    /// Every global, in declaration order.
    pub fn get_all() -> (r: Vec<Self>)
        ensures
            r@ == all_globals(),
    {
        let r = vec![
            LuneGlobal::Console,
            LuneGlobal::Fs,
            LuneGlobal::Net,
            LuneGlobal::Process,
            LuneGlobal::Require,
            LuneGlobal::Task,
        ];
        assert(r@ =~= all_globals());
        r
    }
}

/// A runtime: the globals that scripts get and the arguments they see.
#[derive(Debug)]
pub struct Lune {
    globals: Vec<LuneGlobal>,
    args: Vec<String>,
}

/// The mathematical value of a runtime.
#[verifier::ext_equal]
pub ghost struct LuneView {
    pub globals: Set<LuneGlobal>,
    pub args: Seq<Seq<char>>,
}

/// The texts of a list of strings.
pub open spec fn arg_texts(v: Seq<String>) -> Seq<Seq<char>> {
    v.map_values(|s: String| s@)
}

impl Lune {
    /// The globals and the arguments.
    pub closed spec fn view(&self) -> LuneView {
        LuneView { globals: self.globals@.to_set(), args: arg_texts(self.args@) }
    }

    /// Whether no global is held twice.
    pub closed spec fn wf(&self) -> bool {
        self.globals@.no_duplicates()
    }

    /// A runtime with no globals and no arguments.
    pub fn new() -> (r: Self)
        ensures
            r.wf(),
            r.view() == (LuneView { globals: Set::empty(), args: seq![] }),
    {
        let r = Lune { globals: Vec::new(), args: Vec::new() };
        assert(r.globals@.to_set() =~= Set::empty());
        assert(arg_texts(r.args@) =~= seq![]);
        r
    }

    /// The runtime with these arguments.
    pub fn with_args(self, args: Vec<String>) -> (r: Self)
        requires
            self.wf(),
        ensures
            r.wf(),
            r.view() == (LuneView { args: arg_texts(args@), ..self.view() }),
    {
        Lune { globals: self.globals, args }
    }

    /// The runtime with a global added.
    pub fn with_global(self, global: LuneGlobal) -> (r: Self)
        requires
            self.wf(),
        ensures
            r.wf(),
            r.view() == (LuneView { globals: self.view().globals.insert(global), ..self.view() }),
    {
        if self.has_global(global) {
            assert(self.view().globals.insert(global) =~= self.view().globals);
            return self;
        }
        let ghost start = self.view();
        let ghost before = self.globals@;
        let mut s = self;
        s.globals.push(global);
        proof {
            before.lemma_push_to_set_commute(global);
            assert(!before.contains(global));
            assert forall|a: int, b: int| 0 <= a < b < s.globals@.len() implies s.globals@[a]
                != s.globals@[b] by {
                if b < before.len() {
                    assert(before[a] != before[b]);
                } else {
                    assert(before.contains(before[a]));
                }
            }
            assert(s.view() =~= (LuneView { globals: start.globals.insert(global), ..start }));
        }
        s
    }

    /// The runtime with every global added.
    pub fn with_all_globals(self) -> (r: Self)
        requires
            self.wf(),
        ensures
            r.wf(),
            r.view() == (LuneView {
                globals: self.view().globals.union(all_globals().to_set()),
                ..self.view()
            }),
    {
        let all = LuneGlobal::get_all();
        let mut s = self;
        let ghost start = s.view();
        assert(all@.take(0).to_set() =~= Set::empty());
        assert(start.globals.union(Set::empty()) =~= start.globals);
        let mut i: usize = 0;
        while i < all.len()
            invariant
                all@ == all_globals(),
                i <= all@.len(),
                s.wf(),
                s.view() == (LuneView {
                    globals: start.globals.union(all@.take(i as int).to_set()),
                    ..start
                }),
            decreases all@.len() - i,
        {
            s = s.with_global(all[i]);
            proof {
                assert(all@.take(i + 1) =~= all@.take(i as int).push(all@[i as int]));
                all@.take(i as int).lemma_push_to_set_commute(all@[i as int]);
                assert(start.globals.union(all@.take(i + 1).to_set()) =~= start.globals.union(
                    all@.take(i as int).to_set(),
                ).insert(all@[i as int]));
            }
            i = i + 1;
        }
        assert(all@.take(i as int) =~= all@);
        s
    }

    /// Whether the runtime gives scripts a global.
    pub fn has_global(&self, global: LuneGlobal) -> (r: bool)
        ensures
            r == self.view().globals.contains(global),
    {
        let mut i: usize = 0;
        while i < self.globals.len()
            invariant
                i <= self.globals@.len(),
                forall|k: int| 0 <= k < i ==> self.globals@[k] != global,
            decreases self.globals@.len() - i,
        {
            if self.globals[i] == global {
                assert(self.globals@.to_set().contains(global));
                return true;
            }
            i = i + 1;
        }
        false
    }

    /// The arguments that scripts see.
    pub fn args(&self) -> (r: &Vec<String>)
        ensures
            arg_texts(r@) == self.view().args,
    {
        &self.args
    }
}

// ---------------------------------------------------------------------
// Running a script

/// A message that a task of a running script sends.
#[derive(Debug)]
pub enum LuneMessage {
    /// The script asked to exit with a code.
    Exit(u8),
    /// A task started.
    Spawned,
    /// A task finished.
    Finished,
    /// A task failed; the value is the text to print.
    Error(String),
    /// A task failed with a Luau error.
    LuaError(LuauError),
}

/// The bookkeeping of a running script: how many tasks run, and what the
/// exit code will be.
#[derive(Debug, Clone, Copy, PartialEq, Eq, Structural)]
pub struct RunState {
    pub task_count: u64,
    pub got_error: bool,
    pub got_code: bool,
    pub exit_code: u8,
}

/// What the caller does after a message.
#[derive(Debug)]
pub struct StepOutcome {
    /// Text to print to the error stream, if any.
    pub print_error: Option<String>,
    /// Whether to close the channel: no task is left running.
    pub close: bool,
    /// Whether to stop receiving messages at once.
    pub stop: bool,
}

/// Why running a script failed.
#[derive(Debug, Clone, Copy, PartialEq, Eq, Structural)]
pub enum RunError {
    /// A task finished or failed while no task was counted as running.
    MessageWithoutTasks,
}

/// The mathematical value of a step's outcome.
pub ghost struct StepView {
    pub state: RunState,
    pub print_error: Option<Seq<char>>,
    pub close: bool,
    pub stop: bool,
}

/// The bookkeeping before the first message.
pub open spec fn initial_state() -> RunState {
    RunState { task_count: 0, got_error: false, got_code: false, exit_code: 0 }
}

/// Whether a message ends or counts a task rather than starting one or
/// exiting.
pub open spec fn ends_task(m: LuneMessage) -> bool {
    !(m is Exit || m is Spawned)
}

/// The bookkeeping after a message: an exit request records its code and
/// stops; a started task is counted; a finished task is uncounted; a failed
/// task is printed, recorded as an error and counted. A message that ends a
/// task while none is counted is an error. When no task is left, the
/// channel is closed.
pub open spec fn spec_step(st: RunState, m: LuneMessage) -> Result<StepView, RunError> {
    if ends_task(m) && st.task_count == 0 {
        Err(RunError::MessageWithoutTasks)
    } else {
        match m {
            LuneMessage::Exit(code) => Ok(
                StepView {
                    state: RunState { exit_code: code, got_code: true, ..st },
                    print_error: None,
                    close: false,
                    stop: true,
                },
            ),
            LuneMessage::Spawned => {
                let n = (st.task_count + 1) as u64;
                Ok(
                    StepView {
                        state: RunState { task_count: n, ..st },
                        print_error: None,
                        close: n == 0,
                        stop: false,
                    },
                )
            },
            LuneMessage::Finished => {
                let n = (st.task_count - 1) as u64;
                Ok(
                    StepView {
                        state: RunState { task_count: n, ..st },
                        print_error: None,
                        close: n == 0,
                        stop: false,
                    },
                )
            },
            LuneMessage::Error(e) => {
                let n = (st.task_count + 1) as u64;
                Ok(
                    StepView {
                        state: RunState { task_count: n, got_error: true, ..st },
                        print_error: Some(e@),
                        close: n == 0,
                        stop: false,
                    },
                )
            },
            LuneMessage::LuaError(e) => {
                let n = (st.task_count + 1) as u64;
                Ok(
                    StepView {
                        state: RunState { task_count: n, got_error: true, ..st },
                        print_error: Some(fmt_error(e)),
                        close: n == 0,
                        stop: false,
                    },
                )
            },
        }
    }
}

/// The code to exit with: the code that was asked for, else 1 after an
/// error, else 0.
pub open spec fn spec_exit_code(st: RunState) -> u8 {
    if st.got_code {
        st.exit_code
    } else if st.got_error {
        1
    } else {
        0
    }
}

/// The text printed when the main script fails: an `ERROR` label and the
/// error, each on a line of its own after an empty line.
pub open spec fn spec_script_error(e: LuauError) -> Seq<char> {
    "\n"@ + spec_format_label("ERROR"@) + "\n"@ + fmt_error(e)
}

impl StepOutcome {
    /// The mathematical value of the outcome, with the state after it.
    pub open spec fn view_with(&self, state: RunState) -> StepView {
        StepView {
            state,
            print_error: match self.print_error {
                Some(s) => Some(s@),
                None => None,
            },
            close: self.close,
            stop: self.stop,
        }
    }
}

impl RunState {
    /// The bookkeeping before the first message.
    pub fn new() -> (r: Self)
        ensures
            r == initial_state(),
    {
        RunState { task_count: 0, got_error: false, got_code: false, exit_code: 0 }
    }

    /// Takes a message into account, and says what to do next.
    pub fn step(&mut self, message: &LuneMessage) -> (r: Result<StepOutcome, RunError>)
        requires
            old(self).task_count < u64::MAX,
            message matches LuneMessage::LuaError(e) ==> error_ok(*e),
        ensures
            match r {
                Ok(o) => spec_step(*old(self), *message) == Ok::<StepView, RunError>(
                    o.view_with(*final(self)),
                ),
                Err(e) => spec_step(*old(self), *message) == Err::<StepView, RunError>(e)
                    && *final(self) == *old(self),
            },
    {
        match message {
            LuneMessage::Exit(_) => {},
            LuneMessage::Spawned => {},
            _ => {
                if self.task_count == 0 {
                    return Err(RunError::MessageWithoutTasks);
                }
            },
        }
        match message {
            LuneMessage::Exit(code) => {
                self.exit_code = *code;
                self.got_code = true;
                return Ok(StepOutcome { print_error: None, close: false, stop: true });
            },
            LuneMessage::Spawned => {
                self.task_count = self.task_count + 1;
                Ok(StepOutcome { print_error: None, close: self.task_count == 0, stop: false })
            },
            LuneMessage::Finished => {
                self.task_count = self.task_count - 1;
                Ok(StepOutcome { print_error: None, close: self.task_count == 0, stop: false })
            },
            LuneMessage::Error(e) => {
                self.got_error = true;
                self.task_count = self.task_count + 1;
                Ok(
                    StepOutcome {
                        print_error: Some(e.clone()),
                        close: self.task_count == 0,
                        stop: false,
                    },
                )
            },
            LuneMessage::LuaError(e) => {
                let text = pretty_format_luau_error(e);
                self.got_error = true;
                self.task_count = self.task_count + 1;
                Ok(StepOutcome { print_error: Some(text), close: self.task_count == 0, stop: false })
            },
        }
    }

    /// The code to exit with once no message is left.
    pub fn exit_code(&self) -> (r: u8)
        ensures
            r == spec_exit_code(*self),
    {
        if self.got_code {
            self.exit_code
        } else if self.got_error {
            1
        } else {
            0
        }
    }
}

/// The text printed when the main script fails with an error.
pub fn script_error_text(e: &LuauError) -> (r: String)
    requires
        error_ok(*e),
    ensures
        r@ == spec_script_error(*e),
{
    let mut r = "\n".to_string();
    r.append(format_label("ERROR").as_str());
    r.append("\n");
    r.append(pretty_format_luau_error(e).as_str());
    r
}

/// An exit request decides the exit code, whatever came before: the
/// runtime stops and exits with the code that was asked for.
pub proof fn lemma_exit_code_wins(st: RunState, code: u8)
    ensures
        spec_step(st, LuneMessage::Exit(code)) matches Ok(v) && v.stop && spec_exit_code(v.state)
            == code,
{
}

/// Without an exit request, a failed task makes the exit code 1, and it
/// stays 1 for every message that follows short of an exit request.
pub proof fn lemma_error_exits_with_failure(st: RunState, m: LuneMessage)
    requires
        st.got_error,
        !st.got_code,
        !(m is Exit),
    ensures
        spec_step(st, m) matches Ok(v) ==> spec_exit_code(v.state) == 1,
{
}

/// A task that starts and then finishes leaves the count as it was, and
/// closes the channel when it was the last one.
pub proof fn lemma_spawn_finish_balance(st: RunState)
    requires
        st.task_count < u64::MAX,
    ensures
        spec_step(st, LuneMessage::Spawned) matches Ok(v1) && spec_step(
            v1.state,
            LuneMessage::Finished,
        ) matches Ok(v2) && v2.state == st && v2.close == (st.task_count == 0),
{
}

/// An error of a script, formatted for the terminal.
#[derive(Debug, Clone)]
pub struct LuneError {
    message: String,
    incomplete_input: bool,
}

impl LuneError {
    /// The formatted text of the error.
    pub closed spec fn text(&self) -> Seq<char> {
        self.message@
    }

    /// Whether the error says that the source ended too early.
    pub closed spec fn incomplete(&self) -> bool {
        self.incomplete_input
    }

    /// The error for a Luau error; `incomplete_input` says whether it is a
    /// syntax error because the source ended too early.
    pub fn from_lua_error(error: &LuauError, incomplete_input: bool) -> (r: Self)
        requires
            error_ok(*error),
        ensures
            r.text() == fmt_error(*error),
            r.incomplete() == incomplete_input,
    {
        LuneError { message: pretty_format_luau_error(error), incomplete_input }
    }

    /// Whether the source ended too early, so more input may complete it.
    pub fn is_incomplete_input(&self) -> (r: bool)
        ensures
            r == self.incomplete(),
    {
        self.incomplete_input
    }

    /// The formatted text of the error.
    pub fn message(&self) -> (r: String)
        ensures
            r@ == self.text(),
    {
        self.message.clone()
    }
}

} // verus!
