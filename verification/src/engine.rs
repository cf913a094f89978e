//! The evaluation engine as the host sees it: the failures of an evaluation,
//! the check of the argument text, the steps of one evaluation against the
//! interpreter, and the life of a worker's interpreter context.
//!
//! The interpreter itself is driven by the host. The host performs the step
//! it is given and reports what the interpreter answered; every decision is
//! taken here.

use vstd::prelude::*;
use vstd::std_specs::iter::IteratorSpec;
use vstd::string::StringExecFns;

verus! {

/// Why an evaluation gave no result.
#[derive(Clone, Debug)]
pub enum EvalError {
    /// The argument text does not begin with `[`.
    ArgsNotArray,
    /// The script or the argument text holds a NUL character, with which no
    /// text can be handed to the interpreter.
    NulInText,
    /// The loader or the script did not compile; the interpreter's message.
    Compile(String),
    /// The call threw, parsing the arguments included, or ran out of time;
    /// the interpreter's message.
    Runtime(String),
    /// The function returned a value that has no JSON text.
    UndefinedResult,
    /// The worker has no interpreter heap and could not create one.
    EngineInit,
}

impl EvalError {
    /// The message of the failure.
    pub open spec fn message_text(self) -> Seq<char> {
        match self {
            EvalError::ArgsNotArray => "args must be a JSON-encoded array"@,
            EvalError::NulInText => "data provided contains a nul byte"@,
            EvalError::Compile(message) => message@,
            EvalError::Runtime(message) => message@,
            EvalError::UndefinedResult => "undefined"@,
            EvalError::EngineInit => "error initializing Duktape heap"@,
        }
    }

    /// The status of the reply that reports the failure.
    pub open spec fn status_code(self) -> u16 {
        match self {
            EvalError::EngineInit => 500,
            _ => 400,
        }
    }

    /// The message of the failure, which is the body of the reply that
    /// reports it.
    pub fn message(&self) -> (text: String)
        ensures
            text@ == self.message_text(),
    {
        match self {
            EvalError::ArgsNotArray => String::from_str("args must be a JSON-encoded array"),
            EvalError::NulInText => String::from_str("data provided contains a nul byte"),
            EvalError::Compile(message) => message.clone(),
            EvalError::Runtime(message) => message.clone(),
            EvalError::UndefinedResult => String::from_str("undefined"),
            EvalError::EngineInit => String::from_str("error initializing Duktape heap"),
        }
    }

    /// The status of the reply that reports the failure.
    pub fn status(&self) -> (code: u16)
        ensures
            code == self.status_code(),
    {
        match self {
            EvalError::EngineInit => 500,
            _ => 400,
        }
    }
}

/// The source of the loader, which the engine compiles anew for every call:
/// it parses the argument text and applies the script to the arguments.
pub fn loader_source() -> (source: &'static str)
    ensures
        source@ == "function(fn, args) { return fn.apply(null, JSON.parse(args)); }"@,
{
    "function(fn, args) { return fn.apply(null, JSON.parse(args)); }"
}

/// White space: the characters that have the Unicode property `White_Space`.
pub open spec fn is_whitespace(c: char) -> bool {
    ||| ('\u{9}' <= c && c <= '\u{d}')
    ||| c == ' '
    ||| c == '\u{85}'
    ||| c == '\u{a0}'
    ||| c == '\u{1680}'
    ||| ('\u{2000}' <= c && c <= '\u{200a}')
    ||| c == '\u{2028}'
    ||| c == '\u{2029}'
    ||| c == '\u{202f}'
    ||| c == '\u{205f}'
    ||| c == '\u{3000}'
}

/// Whether the first character of `args` that is not white space is `[`.
pub open spec fn args_is_array(args: Seq<char>) -> bool {
    exists|i: int|
        0 <= i < args.len() && args[i] == '[' && forall|j: int|
            0 <= j < i ==> is_whitespace(#[trigger] args[j])
}

fn is_whitespace_char(c: char) -> (b: bool)
    ensures
        b == is_whitespace(c),
{
    ('\u{9}' <= c && c <= '\u{d}') || c == ' ' || c == '\u{85}' || c == '\u{a0}' || c
        == '\u{1680}' || ('\u{2000}' <= c && c <= '\u{200a}') || c == '\u{2028}' || c
        == '\u{2029}' || c == '\u{202f}' || c == '\u{205f}' || c == '\u{3000}'
}

/// Whether the argument text can be an array: after leading white space it
/// begins with `[`. Whether it is one, the interpreter finds out.
pub fn is_array_text(args: &str) -> (b: bool)
    ensures
        b == args_is_array(args@),
{
    broadcast use vstd::string::group_string_axioms;

    let mut rest = args.chars();
    let ghost all = args@;
    let ghost mut i: int = 0;
    assert(all.skip(0) =~= all);
    loop
        invariant
            all == args@,
            0 <= i <= all.len(),
            rest.remaining() == all.skip(i),
            forall|j: int| 0 <= j < i ==> is_whitespace(#[trigger] all[j]),
        decreases all.len() - i,
    {
        match rest.next() {
            Some(c) => {
                assert(c == all[i]);
                if !is_whitespace_char(c) {
                    proof {
                        if c != '[' && args_is_array(all) {
                            let k = choose|k: int|
                                0 <= k < all.len() && all[k] == '[' && forall|j: int|
                                    0 <= j < k ==> is_whitespace(#[trigger] all[j]);
                            if k < i {
                                assert(is_whitespace(all[k]));
                            } else if k > i {
                                assert(is_whitespace(all[i]));
                            }
                        }
                    }
                    return c == '[';
                }
                proof {
                    assert(all.skip(i).drop_first() =~= all.skip(i + 1));
                    i = i + 1;
                }
            },
            None => {
                proof {
                    if args_is_array(all) {
                        let k = choose|k: int|
                            0 <= k < all.len() && all[k] == '[' && forall|j: int|
                                0 <= j < k ==> is_whitespace(#[trigger] all[j]);
                        assert(is_whitespace(all[k]));
                    }
                }
                return false;
            },
        }
    }
}

/// Whether `text` holds a NUL character.
pub open spec fn has_nul(text: Seq<char>) -> bool {
    exists|i: int| 0 <= i < text.len() && text[i] == '\u{0}'
}

/// Whether `text` holds a NUL character.
pub fn contains_nul(text: &str) -> (b: bool)
    ensures
        b == has_nul(text@),
{
    broadcast use vstd::string::group_string_axioms;

    let ghost all: Seq<char> = vstd::string::spec_iter(text).remaining();
    let ghost mut done: int = 0;
    for c in it: text.chars()
        invariant
            all == text@,
            it.seq() == all,
            done == it.index(),
            forall|j: int| 0 <= j < done ==> all[j] != '\u{0}',
    {
        if c == '\u{0}' {
            assert(all[done] == '\u{0}');
            return true;
        }
        proof {
            done = done + 1;
        }
    }
    false
}

/// What the host does to the interpreter next.
#[derive(Clone, Copy, Debug, PartialEq, Eq, Structural)]
pub enum Step {
    /// Pop everything off the interpreter's stack.
    ClearStack,
    /// Put a ticket with the present time and the call's limit into the
    /// context's slot, in place of what it held.
    StartTicket,
    /// Compile the loader as a function.
    CompileLoader,
    /// Compile the script as a function.
    CompileScript,
    /// Push the argument text and call the loader, protected, with the script
    /// and the text as its two arguments.
    Call,
    /// Encode the value on top of the stack as JSON.
    Encode,
    /// Nothing: the evaluation is over.
    Finish,
}

/// What the interpreter answered to a step.
#[derive(Clone, Debug)]
pub enum Report {
    /// The step went through.
    Done,
    /// The step failed; the interpreter's message.
    Failed(String),
    /// The value has the given JSON text.
    Encoded(String),
    /// The value has no JSON text.
    NotEncodable,
}

/// How far an evaluation has come.
#[derive(Debug)]
pub enum Phase {
    Clearing,
    Timing,
    LoadingLoader,
    LoadingScript,
    Calling,
    Encoding,
    /// The result is known; the stack is still to be cleared.
    Closing(Result<String, EvalError>),
    Finished(Result<String, EvalError>),
}

impl Phase {
    /// The step that the host takes in this phase.
    pub open spec fn step(self) -> Step {
        match self {
            Phase::Clearing => Step::ClearStack,
            Phase::Timing => Step::StartTicket,
            Phase::LoadingLoader => Step::CompileLoader,
            Phase::LoadingScript => Step::CompileScript,
            Phase::Calling => Step::Call,
            Phase::Encoding => Step::Encode,
            Phase::Closing(_) => Step::ClearStack,
            Phase::Finished(_) => Step::Finish,
        }
    }

    /// Whether `report` is an answer that the step of this phase can have.
    pub open spec fn expects(self, report: Report) -> bool {
        match (self, report) {
            (Phase::Clearing, Report::Done) => true,
            (Phase::Timing, Report::Done) => true,
            (Phase::LoadingLoader, Report::Done) => true,
            (Phase::LoadingLoader, Report::Failed(_)) => true,
            (Phase::LoadingScript, Report::Done) => true,
            (Phase::LoadingScript, Report::Failed(_)) => true,
            (Phase::Calling, Report::Done) => true,
            (Phase::Calling, Report::Failed(_)) => true,
            (Phase::Encoding, Report::Encoded(_)) => true,
            (Phase::Encoding, Report::NotEncodable) => true,
            (Phase::Closing(_), Report::Done) => true,
            _ => false,
        }
    }

    /// The phase after `report`. A report that the step of this phase cannot
    /// have changes nothing.
    pub open spec fn after(self, report: Report) -> Phase {
        match (self, report) {
            (Phase::Clearing, Report::Done) => Phase::Timing,
            (Phase::Timing, Report::Done) => Phase::LoadingLoader,
            (Phase::LoadingLoader, Report::Done) => Phase::LoadingScript,
            (Phase::LoadingLoader, Report::Failed(message)) => Phase::Closing(
                Err(EvalError::Compile(message)),
            ),
            (Phase::LoadingScript, Report::Done) => Phase::Calling,
            (Phase::LoadingScript, Report::Failed(message)) => Phase::Closing(
                Err(EvalError::Compile(message)),
            ),
            (Phase::Calling, Report::Done) => Phase::Encoding,
            (Phase::Calling, Report::Failed(message)) => Phase::Closing(
                Err(EvalError::Runtime(message)),
            ),
            (Phase::Encoding, Report::Encoded(json)) => Phase::Closing(Ok(json)),
            (Phase::Encoding, Report::NotEncodable) => Phase::Closing(
                Err(EvalError::UndefinedResult),
            ),
            (Phase::Closing(result), Report::Done) => Phase::Finished(result),
            (phase, _) => phase,
        }
    }

    /// The number of steps that are still to be taken at most.
    pub open spec fn steps_left(self) -> nat {
        match self {
            Phase::Clearing => 7,
            Phase::Timing => 6,
            Phase::LoadingLoader => 5,
            Phase::LoadingScript => 4,
            Phase::Calling => 3,
            Phase::Encoding => 2,
            Phase::Closing(_) => 1,
            Phase::Finished(_) => 0,
        }
    }

    /// The phase after the reports `reports`, the first of them first.
    pub open spec fn after_all(self, reports: Seq<Report>) -> Phase
        decreases reports.len(),
    {
        if reports.len() == 0 {
            self
        } else {
            self.after_all(reports.drop_last()).after(reports.last())
        }
    }
}

/// One call of a script: its inputs and how far it has come.
#[derive(Debug)]
pub struct Evaluation {
    pub code: String,
    pub args: String,
    pub limit_millis: u64,
    pub phase: Phase,
}

impl Evaluation {
    /// The phase in which the evaluation of `code` on the argument text
    /// `args` begins. An argument text that cannot be an array ends it at
    /// once, and so does, after that, a NUL character in the script or in
    /// the argument text; with anything else it begins by clearing the
    /// stack.
    pub open spec fn first_phase(code: Seq<char>, args: Seq<char>) -> Phase {
        if !args_is_array(args) {
            Phase::Finished(Err(EvalError::ArgsNotArray))
        } else if has_nul(code) || has_nul(args) {
            Phase::Finished(Err(EvalError::NulInText))
        } else {
            Phase::Clearing
        }
    }

    /// Begins the evaluation of `code` on the argument text `args`. A text
    /// that cannot be handed to the interpreter ends it at once, before the
    /// interpreter is touched.
    pub fn begin(code: String, args: String, limit_millis: u64) -> (evaluation: Evaluation)
        ensures
            evaluation.code == code,
            evaluation.args == args,
            evaluation.limit_millis == limit_millis,
            evaluation.phase == Evaluation::first_phase(code@, args@),
    {
        let phase = if !is_array_text(args.as_str()) {
            Phase::Finished(Err(EvalError::ArgsNotArray))
        } else if contains_nul(code.as_str()) || contains_nul(args.as_str()) {
            Phase::Finished(Err(EvalError::NulInText))
        } else {
            Phase::Clearing
        };
        Evaluation { code, args, limit_millis, phase }
    }

    /// The step to take now.
    pub fn step(&self) -> (step: Step)
        ensures
            step == self.phase.step(),
    {
        match &self.phase {
            Phase::Clearing => Step::ClearStack,
            Phase::Timing => Step::StartTicket,
            Phase::LoadingLoader => Step::CompileLoader,
            Phase::LoadingScript => Step::CompileScript,
            Phase::Calling => Step::Call,
            Phase::Encoding => Step::Encode,
            Phase::Closing(_) => Step::ClearStack,
            Phase::Finished(_) => Step::Finish,
        }
    }

    /// Takes the interpreter's answer to the step in progress.
    pub fn advance(self, report: Report) -> (next: Evaluation)
        ensures
            next.code == self.code,
            next.args == self.args,
            next.limit_millis == self.limit_millis,
            next.phase == self.phase.after(report),
    {
        let Evaluation { code, args, limit_millis, phase } = self;
        let phase = match (phase, report) {
            (Phase::Clearing, Report::Done) => Phase::Timing,
            (Phase::Timing, Report::Done) => Phase::LoadingLoader,
            (Phase::LoadingLoader, Report::Done) => Phase::LoadingScript,
            (Phase::LoadingLoader, Report::Failed(message)) => Phase::Closing(
                Err(EvalError::Compile(message)),
            ),
            (Phase::LoadingScript, Report::Done) => Phase::Calling,
            (Phase::LoadingScript, Report::Failed(message)) => Phase::Closing(
                Err(EvalError::Compile(message)),
            ),
            (Phase::Calling, Report::Done) => Phase::Encoding,
            (Phase::Calling, Report::Failed(message)) => Phase::Closing(
                Err(EvalError::Runtime(message)),
            ),
            (Phase::Encoding, Report::Encoded(json)) => Phase::Closing(Ok(json)),
            (Phase::Encoding, Report::NotEncodable) => Phase::Closing(
                Err(EvalError::UndefinedResult),
            ),
            (Phase::Closing(result), Report::Done) => Phase::Finished(result),
            (phase, _) => phase,
        };
        Evaluation { code, args, limit_millis, phase }
    }

    /// The result, once the evaluation is over.
    pub fn outcome(self) -> (result: Option<Result<String, EvalError>>)
        ensures
            result == match self.phase {
                Phase::Finished(r) => Some(r),
                _ => None::<Result<String, EvalError>>,
            },
    {
        match self.phase {
            Phase::Finished(r) => Some(r),
            _ => None,
        }
    }
}

/// Every answer that a step can have brings the evaluation one step nearer
/// to its end: it is over after seven answers at most.
pub proof fn lemma_expected_report_makes_progress(phase: Phase, report: Report)
    requires
        phase.expects(report),
    ensures
        phase.after(report).steps_left() < phase.steps_left(),
{
}

/// An evaluation that touched the interpreter ends only by clearing the
/// stack: the phase before the last is the one that clears it, with the
/// result that the evaluation then ends with. Once over, it stays over.
pub proof fn lemma_ends_with_a_cleared_stack(phase: Phase, report: Report)
    ensures
        phase.after(report) is Finished && !(phase is Finished) ==> phase.step()
            == Step::ClearStack && phase == Phase::Closing(phase.after(report)->Finished_0),
        phase is Finished ==> phase.after(report) == phase,
{
}

/// An evaluation that begins by clearing the stack is over after seven
/// answers, if each of them is one that the step it answers can have.
pub proof fn lemma_evaluation_ends(reports: Seq<Report>)
    requires
        reports.len() == 7,
        forall|i: int|
            0 <= i < 7 ==> (#[trigger] Phase::Clearing.after_all(reports.take(i))).expects(
                reports[i],
            ) || Phase::Clearing.after_all(reports.take(i)) is Finished,
    ensures
        Phase::Clearing.after_all(reports) is Finished,
{
    lemma_steps_left_after(reports, 7);
    assert(reports.take(7) =~= reports);
}

proof fn lemma_steps_left_after(reports: Seq<Report>, n: int)
    requires
        0 <= n <= reports.len(),
        n <= 7,
        forall|i: int|
            0 <= i < n ==> (#[trigger] Phase::Clearing.after_all(reports.take(i))).expects(
                reports[i],
            ) || Phase::Clearing.after_all(reports.take(i)) is Finished,
    ensures
        Phase::Clearing.after_all(reports.take(n)).steps_left() + n <= 7,
    decreases n,
{
    if n > 0 {
        lemma_steps_left_after(reports, n - 1);
        let before = Phase::Clearing.after_all(reports.take(n - 1));
        assert(reports.take(n).drop_last() =~= reports.take(n - 1));
        assert(reports.take(n).last() == reports[n - 1]);
        assert(Phase::Clearing.after_all(reports.take(n)) == before.after(reports[n - 1]));
        assert(before.expects(reports[n - 1]) || before is Finished);
    } else {
        assert(reports.take(0).len() == 0);
    }
}

/// The life of a worker's interpreter context.
#[derive(Clone, Copy, Debug, PartialEq, Eq, Structural)]
pub enum EngineState {
    /// A heap is being created.
    Fresh,
    /// The heap stands and its stack is empty.
    Ready,
    /// A call is in progress.
    Executing,
    /// The heap could not be created.
    Broken,
}

/// What happens to a worker.
#[derive(Clone, Copy, Debug, PartialEq, Eq, Structural)]
pub enum WorkerEvent {
    /// A task came in.
    Task,
    /// The heap was created.
    HeapCreated,
    /// The heap could not be created.
    HeapFailed,
    /// The evaluation returned, with a result or a failure.
    Returned,
}

/// What a worker does next.
#[derive(Clone, Copy, Debug, PartialEq, Eq, Structural)]
pub enum WorkerAction {
    /// Create the interpreter heap.
    CreateHeap,
    /// Evaluate the task on the context.
    Evaluate,
    /// Answer the task with `EvalError::EngineInit`.
    ReplyEngineInit,
    /// Wait for the next task.
    Wait,
}

/// A worker: its context's state, and whether a task is waiting for the heap.
#[derive(Clone, Copy, Debug, PartialEq, Eq, Structural)]
pub struct Worker {
    pub engine: EngineState,
    pub task_waiting: bool,
}

impl Worker {
    /// The worker after `event`, and what it does then. An event that cannot
    /// happen in the worker's state changes nothing.
    pub open spec fn after(self, event: WorkerEvent) -> (Worker, WorkerAction) {
        match (self.engine, event) {
            (EngineState::Ready, WorkerEvent::Task) => (
                Worker { engine: EngineState::Executing, task_waiting: false },
                WorkerAction::Evaluate,
            ),
            (EngineState::Broken, WorkerEvent::Task) => (
                Worker { engine: EngineState::Fresh, task_waiting: true },
                WorkerAction::CreateHeap,
            ),
            (EngineState::Fresh, WorkerEvent::HeapCreated) => if self.task_waiting {
                (
                    Worker { engine: EngineState::Executing, task_waiting: false },
                    WorkerAction::Evaluate,
                )
            } else {
                (Worker { engine: EngineState::Ready, task_waiting: false }, WorkerAction::Wait)
            },
            (EngineState::Fresh, WorkerEvent::HeapFailed) => (
                Worker { engine: EngineState::Broken, task_waiting: false },
                if self.task_waiting {
                    WorkerAction::ReplyEngineInit
                } else {
                    WorkerAction::Wait
                },
            ),
            (EngineState::Executing, WorkerEvent::Returned) => (
                Worker { engine: EngineState::Ready, task_waiting: false },
                WorkerAction::Wait,
            ),
            _ => (self, WorkerAction::Wait),
        }
    }

    /// A worker at its start: it has no heap yet and creates one first.
    pub fn start() -> (worker: Worker)
        ensures
            worker == (Worker { engine: EngineState::Fresh, task_waiting: false }),
    {
        Worker { engine: EngineState::Fresh, task_waiting: false }
    }

    /// Takes `event` and says what to do next.
    pub fn on_event(&mut self, event: WorkerEvent) -> (action: WorkerAction)
        ensures
            (*final(self), action) == old(self).after(event),
    {
        let (next, action) = match (self.engine, event) {
            (EngineState::Ready, WorkerEvent::Task) => (
                Worker { engine: EngineState::Executing, task_waiting: false },
                WorkerAction::Evaluate,
            ),
            (EngineState::Broken, WorkerEvent::Task) => (
                Worker { engine: EngineState::Fresh, task_waiting: true },
                WorkerAction::CreateHeap,
            ),
            (EngineState::Fresh, WorkerEvent::HeapCreated) => if self.task_waiting {
                (
                    Worker { engine: EngineState::Executing, task_waiting: false },
                    WorkerAction::Evaluate,
                )
            } else {
                (Worker { engine: EngineState::Ready, task_waiting: false }, WorkerAction::Wait)
            },
            (EngineState::Fresh, WorkerEvent::HeapFailed) => (
                Worker { engine: EngineState::Broken, task_waiting: false },
                if self.task_waiting {
                    WorkerAction::ReplyEngineInit
                } else {
                    WorkerAction::Wait
                },
            ),
            (EngineState::Executing, WorkerEvent::Returned) => (
                Worker { engine: EngineState::Ready, task_waiting: false },
                WorkerAction::Wait,
            ),
            _ => (*self, WorkerAction::Wait),
        };
        *self = next;
        action
    }
}

/// A task that finds the context broken gets one new attempt at a heap: it
/// is evaluated if the heap comes, and answered with the engine failure if
/// not. Either way the worker takes the next task as it took this one.
pub proof fn lemma_broken_context_is_retried_once(worker: Worker)
    requires
        worker.engine == EngineState::Broken,
    ensures
        worker.after(WorkerEvent::Task).1 == WorkerAction::CreateHeap,
        worker.after(WorkerEvent::Task).0.after(WorkerEvent::HeapCreated).1
            == WorkerAction::Evaluate,
        worker.after(WorkerEvent::Task).0.after(WorkerEvent::HeapFailed).1
            == WorkerAction::ReplyEngineInit,
        worker.after(WorkerEvent::Task).0.after(WorkerEvent::HeapFailed).0.engine
            == EngineState::Broken,
{
}

/// When an evaluation returns, with a result or with a failure, the context
/// is ready again and the next task is evaluated on it.
pub proof fn lemma_context_is_ready_after_every_call(worker: Worker)
    requires
        worker.engine == EngineState::Executing,
    ensures
        worker.after(WorkerEvent::Returned).0.engine == EngineState::Ready,
        worker.after(WorkerEvent::Returned).0.after(WorkerEvent::Task).1 == WorkerAction::Evaluate,
{
}

impl Worker {
    /// The worker after `calls` tasks, each of them evaluated and returned
    /// from.
    pub open spec fn after_calls(self, calls: nat) -> Worker
        decreases calls,
    {
        if calls == 0 {
            self
        } else {
            self.after_calls((calls - 1) as nat).after(WorkerEvent::Task).0.after(
                WorkerEvent::Returned,
            ).0
        }
    }
}

/// A worker whose heap stands and that has nothing to do.
pub open spec fn ready_worker() -> Worker {
    Worker { engine: EngineState::Ready, task_waiting: false }
}

/// A worker whose heap stands keeps nothing of the calls it has served:
/// after any number of them, however they ended, it is what it was when its
/// heap was created, and it evaluates the next task.
pub proof fn lemma_served_worker_is_as_new(worker: Worker, calls: nat)
    requires
        worker.engine == EngineState::Fresh,
        !worker.task_waiting,
    ensures
        worker.after(WorkerEvent::HeapCreated).0 == ready_worker(),
        ready_worker().after_calls(calls) == ready_worker(),
        ready_worker().after(WorkerEvent::Task).1 == WorkerAction::Evaluate,
    decreases calls,
{
    if calls > 0 {
        lemma_served_worker_is_as_new(worker, (calls - 1) as nat);
    }
}

} // verus!
