//! Single-consumer message processor.
//!
//! One queue, one worker, no locks. Control jobs (`.new`, `.abort`, shutdown)
//! interrupt the currently running task; everything else (prompts, session,
//! model and thinking commands) is processed serially.
//!
//! The worker decides; whoever runs it asks what is next, does that to its
//! end, and tells the worker what happened.

use crate::agent;
use crate::agent::{AgentError, AgentErrorView, SessionState, SessionStateView, SessionStats};
use crate::chat;
use crate::chat::{ChatErrorKind, Retry, RetryAction};
use crate::text;
use crate::time;
use core::time::Duration;
use std::collections::VecDeque;
use vstd::prelude::*;

verus! {

/// How many seconds an aborted task has to give its outcome, before it is no
/// longer waited for.
pub const ABORT_DRAIN_TIMEOUT: u64 = 15;

/// How many seconds an aborted task has to end, once it gave its outcome.
pub const ABORT_JOIN_TIMEOUT: u64 = 2;

/// How many seconds the chat shows that a reply is being typed, before it has
/// to be told again.
pub const TYPING_INTERVAL: u64 = 8;

// ── Jobs, tasks and outcomes ──────────────────────────────────────────

/// What the worker is asked to do.
#[derive(Debug, Clone, PartialEq, Eq)]
pub enum Job {
    Prompt(String),
    New,
    Abort,
    Session,
    Model(Option<String>),
    Thinking(Option<String>),
    Shutdown,
}

/// What a [`Job`] says.
pub enum JobView {
    Prompt(Seq<char>),
    New,
    Abort,
    Session,
    Model(Option<Seq<char>>),
    Thinking(Option<Seq<char>>),
    Shutdown,
}

impl View for Job {
    type V = JobView;

    open spec fn view(&self) -> JobView {
        match *self {
            Job::Prompt(prompt) => JobView::Prompt(prompt@),
            Job::New => JobView::New,
            Job::Abort => JobView::Abort,
            Job::Session => JobView::Session,
            Job::Model(arg) => JobView::Model(text::optional(arg)),
            Job::Thinking(arg) => JobView::Thinking(text::optional(arg)),
            Job::Shutdown => JobView::Shutdown,
        }
    }
}

/// Whether a job interrupts the running task instead of waiting for it.
pub open spec fn control(job: JobView) -> bool {
    job is New || job is Abort || job is Shutdown
}

/// What a job that waited its turn comes to.
#[derive(Debug, Clone, PartialEq, Eq)]
pub enum Task {
    Prompt { prompt: String, fresh: bool },
    Session,
    SetModel(String),
    Models,
    SetThinking(String),
    ThinkingLevels,
}

/// What a [`Task`] says.
pub enum TaskView {
    Prompt { prompt: Seq<char>, fresh: bool },
    Session,
    SetModel(Seq<char>),
    Models,
    SetThinking(Seq<char>),
    ThinkingLevels,
}

impl View for Task {
    type V = TaskView;

    open spec fn view(&self) -> TaskView {
        match *self {
            Task::Prompt { prompt, fresh } => TaskView::Prompt { prompt: prompt@, fresh },
            Task::Session => TaskView::Session,
            Task::SetModel(model_ref) => TaskView::SetModel(model_ref@),
            Task::Models => TaskView::Models,
            Task::SetThinking(level) => TaskView::SetThinking(level@),
            Task::ThinkingLevels => TaskView::ThinkingLevels,
        }
    }
}

/// The task that a job comes to that is no control job; a prompt starts a new
/// session where `fresh` says so.
pub open spec fn task_of(job: JobView, fresh: bool) -> TaskView {
    match job {
        JobView::Prompt(prompt) => TaskView::Prompt { prompt, fresh },
        JobView::Model(Some(model_ref)) => TaskView::SetModel(model_ref),
        JobView::Model(None) => TaskView::Models,
        JobView::Thinking(Some(level)) => TaskView::SetThinking(level),
        JobView::Thinking(None) => TaskView::ThinkingLevels,
        _ => TaskView::Session,
    }
}

/// The job that came to a task.
pub open spec fn job_of(task: TaskView) -> JobView {
    match task {
        TaskView::Prompt { prompt, .. } => JobView::Prompt(prompt),
        TaskView::Session => JobView::Session,
        TaskView::SetModel(model_ref) => JobView::Model(Some(model_ref)),
        TaskView::Models => JobView::Model(None),
        TaskView::SetThinking(level) => JobView::Thinking(Some(level)),
        TaskView::ThinkingLevels => JobView::Thinking(None),
    }
}

/// What a task came to.
#[derive(Debug)]
pub enum TaskOutcome {
    Prompt { fresh: bool, result: Result<String, AgentError> },
    PromptTimedOut,
    Session(Result<(SessionState, Option<SessionStats>), AgentError>),
    Model { model_ref: String, result: Result<(), AgentError> },
    Models(Result<Vec<String>, AgentError>),
    Thinking { level: String, result: Result<(), AgentError> },
    ThinkingLevels(Result<Vec<String>, AgentError>),
}

/// What a [`TaskOutcome`] says.
pub enum OutcomeView {
    Prompt { fresh: bool, result: Result<Seq<char>, AgentErrorView> },
    PromptTimedOut,
    Session(Result<(SessionStateView, Option<SessionStats>), AgentErrorView>),
    Model { model_ref: Seq<char>, result: Result<(), AgentErrorView> },
    Models(Result<Seq<Seq<char>>, AgentErrorView>),
    Thinking { level: Seq<char>, result: Result<(), AgentErrorView> },
    ThinkingLevels(Result<Seq<Seq<char>>, AgentErrorView>),
}

/// What a result that may be an [`AgentError`] says, where it has no value.
pub open spec fn done_result(r: Result<(), AgentError>) -> Result<(), AgentErrorView> {
    match r {
        Ok(_) => Ok(()),
        Err(e) => Err(e@),
    }
}

/// What a result that may be an [`AgentError`] says, where its value is a list.
pub open spec fn list_result(r: Result<Vec<String>, AgentError>) -> Result<
    Seq<Seq<char>>,
    AgentErrorView,
> {
    match r {
        Ok(list) => Ok(text::texts(list@)),
        Err(e) => Err(e@),
    }
}

/// What a result that may be an [`AgentError`] says, where its value is a
/// session and what it has used.
pub open spec fn session_result(
    r: Result<(SessionState, Option<SessionStats>), AgentError>,
) -> Result<(SessionStateView, Option<SessionStats>), AgentErrorView> {
    match r {
        Ok((state, stats)) => Ok((state@, stats)),
        Err(e) => Err(e@),
    }
}

/// What a result that may be an [`AgentError`] says, where its value is a
/// session.
pub open spec fn state_result(r: Result<SessionState, AgentError>) -> Result<
    SessionStateView,
    AgentErrorView,
> {
    match r {
        Ok(state) => Ok(state@),
        Err(e) => Err(e@),
    }
}

impl View for TaskOutcome {
    type V = OutcomeView;

    open spec fn view(&self) -> OutcomeView {
        match *self {
            TaskOutcome::Prompt { fresh, result } => OutcomeView::Prompt {
                fresh,
                result: agent::text_result(result),
            },
            TaskOutcome::PromptTimedOut => OutcomeView::PromptTimedOut,
            TaskOutcome::Session(r) => OutcomeView::Session(session_result(r)),
            TaskOutcome::Model { model_ref, result } => OutcomeView::Model {
                model_ref: model_ref@,
                result: done_result(result),
            },
            TaskOutcome::Models(r) => OutcomeView::Models(list_result(r)),
            TaskOutcome::Thinking { level, result } => OutcomeView::Thinking {
                level: level@,
                result: done_result(result),
            },
            TaskOutcome::ThinkingLevels(r) => OutcomeView::ThinkingLevels(list_result(r)),
        }
    }
}

/// The outcome of a prompt, and whether what runs is to be aborted: that is so
/// where it did not finish in time.
pub fn prompt_outcome(fresh: bool, finished: Option<Result<String, AgentError>>) -> (r: (
    TaskOutcome,
    bool,
))
    ensures
        r.0@ == match finished {
            Some(result) => OutcomeView::Prompt { fresh, result: agent::text_result(result) },
            None => OutcomeView::PromptTimedOut,
        },
        r.1 == (finished is None),
{
    match finished {
        Some(result) => (TaskOutcome::Prompt { fresh, result }, false),
        None => (TaskOutcome::PromptTimedOut, true),
    }
}

/// What follows the question for the session.
#[derive(Debug)]
pub enum SessionStep {
    /// Ask what the session has used.
    AskStats(SessionState),
    /// There is nothing more to ask.
    Done(TaskOutcome),
}

/// What follows the question for the session: where it was answered, the
/// question what the session has used.
pub fn session_known(state: Result<SessionState, AgentError>) -> (step: SessionStep)
    ensures
        match (state, step) {
            (Ok(known), SessionStep::AskStats(asked)) => asked == known,
            (Err(e), SessionStep::Done(outcome)) => outcome@ == OutcomeView::Session(Err(e@)),
            _ => false,
        },
{
    match state {
        Ok(state) => SessionStep::AskStats(state),
        Err(e) => SessionStep::Done(TaskOutcome::Session(Err(e))),
    }
}

/// The outcome of the questions for the session: that what it has used could
/// not be learned is no failure.
pub fn session_outcome(state: SessionState, stats: Result<SessionStats, AgentError>) -> (outcome:
    TaskOutcome)
    ensures
        outcome@ == OutcomeView::Session(
            Ok(
                (
                    state@,
                    match stats {
                        Ok(known) => Some(known),
                        Err(_) => None,
                    },
                ),
            ),
        ),
{
    match stats {
        Ok(known) => TaskOutcome::Session(Ok((state, Some(known)))),
        Err(_) => TaskOutcome::Session(Ok((state, None))),
    }
}

// ── What the worker decides ───────────────────────────────────────────

/// What is to be done before anything else.
#[derive(Debug, Clone, PartialEq, Eq)]
pub enum Action {
    /// Abort the running task and wait, not for ever, until it is over. What
    /// it comes to is nothing to the worker.
    Drain,
    /// Send this message, and send it again until it is delivered.
    Send(String),
    /// Ask for the session, and tell the worker the answer.
    AskState,
    /// Stop.
    Exit,
}

/// What an [`Action`] says.
pub enum ActionView {
    Drain,
    Send(Seq<char>),
    AskState,
    Exit,
}

impl View for Action {
    type V = ActionView;

    open spec fn view(&self) -> ActionView {
        match *self {
            Action::Drain => ActionView::Drain,
            Action::Send(message) => ActionView::Send(message@),
            Action::AskState => ActionView::AskState,
            Action::Exit => ActionView::Exit,
        }
    }
}

/// What a list of actions says.
pub open spec fn actions(list: Seq<Action>) -> Seq<ActionView> {
    Seq::new(list.len(), |i: int| list[i]@)
}

/// What is next.
#[derive(Debug, Clone, PartialEq, Eq)]
pub enum Next {
    /// Abort the running task and wait, not for ever, until it is over.
    Drain,
    /// Send this message, and tell the worker whether that went well.
    Send(String),
    /// Ask for the session, and tell the worker the answer.
    AskState,
    /// Start the task given here.
    Start(Task),
    /// Wait for the next job, for the outcome of the running task, or for
    /// whichever comes first.
    Wait { for_job: bool, for_task: bool },
    /// Stop.
    Exit,
}

/// What a [`Next`] says.
pub enum NextView {
    Drain,
    Send(Seq<char>),
    AskState,
    Start(TaskView),
    Wait { for_job: bool, for_task: bool },
    Exit,
}

impl View for Next {
    type V = NextView;

    open spec fn view(&self) -> NextView {
        match *self {
            Next::Drain => NextView::Drain,
            Next::Send(message) => NextView::Send(message@),
            Next::AskState => NextView::AskState,
            Next::Start(task) => NextView::Start(task@),
            Next::Wait { for_job, for_task } => NextView::Wait { for_job, for_task },
            Next::Exit => NextView::Exit,
        }
    }
}

/// What follows an attempt to send a message.
#[derive(Debug)]
pub enum AfterSend {
    /// It was delivered: ask what is next.
    Delivered,
    /// Wait so long, then ask what is next: it is the same message.
    RetryAfter(Duration),
    /// It cannot be delivered. A gateway that its owner does not hear must not
    /// go on: abort what runs, and terminate.
    GiveUp,
}

/// The state of a [`Worker`].
#[verifier::ext_equal]
pub struct WorkerView {
    /// How many nanoseconds a prompt may take.
    pub timeout: nat,
    /// Whether a task is running.
    pub running: bool,
    /// The jobs that wait for it.
    pub queue: Seq<JobView>,
    /// Whether the next prompt starts a new session.
    pub fresh: bool,
    /// The session that was last told of.
    pub known_session: Option<Seq<char>>,
    /// Whether no more jobs will come.
    pub closed: bool,
    /// What is to be done before anything else, in order.
    pub todo: Seq<ActionView>,
    /// How often sending the first message among that has failed.
    pub attempts: nat,
}

/// What is said of what `.new` did.
pub open spec fn new_extras(had_task: bool, cleared: nat) -> Seq<Seq<char>> {
    let aborted = if had_task {
        seq!["aborted running task"@]
    } else {
        Seq::empty()
    };
    if cleared > 0 {
        aborted.push(crate::format::cleared_text(cleared))
    } else {
        aborted
    }
}

/// The answer to `.new`.
pub open spec fn new_text(had_task: bool, cleared: nat) -> Seq<char> {
    let ack = "ok, next message will start a new session"@;
    if had_task || cleared > 0 {
        ack + "; "@ + text::join(new_extras(had_task, cleared), ", "@)
    } else {
        ack
    }
}

/// The message that tells of an outcome.
pub open spec fn outcome_text(seconds: nat, outcome: OutcomeView) -> Seq<char> {
    match outcome {
        OutcomeView::Prompt { result: Ok(reply), .. } => reply,
        OutcomeView::Prompt { result: Err(e), .. } => crate::format::system_text(
            crate::format::agent_error_text(e),
        ),
        OutcomeView::PromptTimedOut => crate::format::system_text(
            crate::format::timed_out_text(seconds),
        ),
        OutcomeView::Session(Ok((state, stats))) => crate::format::system_text(
            crate::format::session_text(state, stats),
        ),
        OutcomeView::Session(Err(e)) => crate::format::system_text(
            crate::format::agent_error_text(e),
        ),
        OutcomeView::Model { model_ref, result: Ok(_) } => crate::format::system_text(
            crate::format::model_set_text(model_ref),
        ),
        OutcomeView::Model { result: Err(e), .. } => crate::format::system_text(
            crate::format::agent_error_text(e),
        ),
        OutcomeView::Models(Ok(models)) => crate::format::system_text(
            crate::format::models_text(models),
        ),
        OutcomeView::Models(Err(e)) => crate::format::system_text(
            crate::format::agent_error_text(e),
        ),
        OutcomeView::Thinking { level, result: Ok(_) } => crate::format::system_text(
            crate::format::thinking_set_text(level),
        ),
        OutcomeView::Thinking { result: Err(e), .. } => crate::format::system_text(
            crate::format::agent_error_text(e),
        ),
        OutcomeView::ThinkingLevels(Ok(levels)) => crate::format::system_text(
            crate::format::levels_text(levels),
        ),
        OutcomeView::ThinkingLevels(Err(e)) => crate::format::system_text(
            crate::format::agent_error_text(e),
        ),
    }
}

/// The session is asked for after the first reply, and after every reply that
/// started a new one.
pub open spec fn asks_for_session(known_session: Option<Seq<char>>, outcome: OutcomeView) -> bool {
    match outcome {
        OutcomeView::Prompt { fresh, result: Ok(_) } => fresh || known_session is None,
        _ => false,
    }
}

impl WorkerView {
    /// A worker that has been asked nothing.
    pub open spec fn idle(timeout: nat) -> WorkerView {
        WorkerView {
            timeout,
            running: false,
            queue: Seq::empty(),
            fresh: false,
            known_session: None,
            closed: false,
            todo: Seq::empty(),
            attempts: 0,
        }
    }

    /// No control job waits in the queue.
    pub open spec fn wf(self) -> bool {
        forall|i: int| 0 <= i < self.queue.len() ==> !control(#[trigger] self.queue[i])
    }

    /// The worker with more to do.
    pub open spec fn with(self, more: Seq<ActionView>) -> WorkerView {
        WorkerView { todo: self.todo + more, ..self }
    }

    /// Whether a message waits to be delivered before anything else is done.
    pub open spec fn sending(self) -> bool {
        self.todo.len() > 0 && self.todo[0] is Send
    }

    /// What is next: what is to be done before anything else; then, with no
    /// task running, the first job that waits; then the end, where no job can
    /// come any more; and else there is only to wait.
    pub open spec fn next(self) -> NextView {
        if self.todo.len() > 0 {
            match self.todo[0] {
                ActionView::Drain => NextView::Drain,
                ActionView::Send(message) => NextView::Send(message),
                ActionView::AskState => NextView::AskState,
                ActionView::Exit => NextView::Exit,
            }
        } else if !self.running && self.queue.len() > 0 {
            NextView::Start(task_of(self.queue[0], self.fresh))
        } else if !self.running && self.closed {
            NextView::Exit
        } else {
            NextView::Wait { for_job: !self.closed, for_task: self.running }
        }
    }

    /// The worker once it has said what is next. A message stays to be sent
    /// until it is delivered.
    pub open spec fn after_next(self) -> WorkerView {
        match self.next() {
            NextView::Start(task) => WorkerView {
                running: true,
                queue: self.queue.drop_first(),
                fresh: self.fresh && !(task is Prompt),
                ..self
            },
            NextView::Drain => WorkerView { todo: self.todo.drop_first(), ..self },
            NextView::AskState => WorkerView { todo: self.todo.drop_first(), ..self },
            _ => self,
        }
    }

    /// The worker after an attempt to send the message that is to be sent.
    pub open spec fn after_sent(self, result: Result<(), ChatErrorKind>) -> WorkerView {
        match result {
            Ok(_) => WorkerView { todo: self.todo.drop_first(), attempts: 0, ..self },
            Err(ChatErrorKind::Transient) => WorkerView { attempts: self.attempts + 1, ..self },
            Err(ChatErrorKind::Permanent) => self,
        }
    }

    /// What interrupting the running task takes.
    pub open spec fn drain(self) -> Seq<ActionView> {
        if self.running {
            seq![ActionView::Drain]
        } else {
            Seq::empty()
        }
    }

    /// What is to be done about a job that comes.
    pub open spec fn on_job(self, job: JobView) -> Seq<ActionView> {
        match job {
            JobView::New => self.drain().push(
                ActionView::Send(
                    crate::format::system_text(new_text(self.running, self.queue.len())),
                ),
            ),
            JobView::Abort => self.drain().push(
                ActionView::Send(
                    crate::format::system_text(
                        crate::format::abort_text(self.running, self.queue.len()),
                    ),
                ),
            ),
            JobView::Shutdown => self.drain().push(ActionView::Exit),
            JobView::Prompt(_) => if self.running {
                seq![
                    ActionView::Send(
                        crate::format::system_text(
                            crate::format::queued_text(self.queue.len() + 1),
                        ),
                    ),
                ]
            } else {
                Seq::empty()
            },
            _ => Seq::empty(),
        }
    }

    /// The worker after a job came.
    pub open spec fn after_job(self, job: JobView) -> WorkerView {
        let next = self.with(self.on_job(job));
        match job {
            JobView::New => WorkerView { running: false, queue: Seq::empty(), fresh: true, ..next },
            JobView::Abort => WorkerView { running: false, queue: Seq::empty(), ..next },
            JobView::Shutdown => WorkerView { running: false, ..next },
            _ => WorkerView { queue: self.queue.push(job), ..next },
        }
    }

    /// What is to be done about an outcome: it is told, and then the session
    /// may be asked for.
    pub open spec fn on_outcome(self, outcome: OutcomeView) -> Seq<ActionView> {
        let told = seq![
            ActionView::Send(outcome_text(time::whole_seconds(self.timeout), outcome)),
        ];
        if asks_for_session(self.known_session, outcome) {
            told.push(ActionView::AskState)
        } else {
            told
        }
    }

    /// The worker after the outcome of the running task.
    pub open spec fn after_outcome(self, outcome: OutcomeView) -> WorkerView {
        WorkerView { running: false, ..self.with(self.on_outcome(outcome)) }
    }

    /// The worker after the running task ended without an outcome.
    pub open spec fn after_loss(self) -> WorkerView {
        WorkerView { running: false, ..self.with(seq![ActionView::Send(lost_text())]) }
    }

    /// What is to be done about the answer to the question for the session.
    pub open spec fn on_session(self, state: Result<SessionStateView, AgentErrorView>) -> Seq<
        ActionView,
    > {
        match state {
            Ok(known) => seq![
                ActionView::Send(
                    crate::format::system_text(crate::format::new_session_text(known)),
                ),
            ],
            Err(_) => Seq::empty(),
        }
    }

    /// The worker after that answer.
    pub open spec fn after_session(
        self,
        state: Result<SessionStateView, AgentErrorView>,
    ) -> WorkerView {
        let next = self.with(self.on_session(state));
        match state {
            Ok(known) => WorkerView { known_session: Some(known.session_id), ..next },
            Err(_) => next,
        }
    }
}

/// What is said where a task ended without an outcome.
pub open spec fn lost_text() -> Seq<char> {
    crate::format::system_text(crate::format::internal_error_text("agent task failed"@))
}

/// The single consumer of jobs.
#[derive(Debug)]
pub struct Worker {
    prompt_timeout: Duration,
    running: bool,
    queue: VecDeque<Job>,
    fresh: bool,
    known_session_id: Option<String>,
    rx_closed: bool,
    todo: VecDeque<Action>,
    retry: Retry,
}

impl View for Worker {
    type V = WorkerView;

    closed spec fn view(&self) -> WorkerView {
        WorkerView {
            timeout: time::nanos(self.prompt_timeout),
            running: self.running,
            queue: jobs(self.queue@),
            fresh: self.fresh,
            known_session: text::optional(self.known_session_id),
            closed: self.rx_closed,
            todo: actions(self.todo@),
            attempts: self.retry.attempt as nat,
        }
    }
}

/// What a list of jobs says.
pub open spec fn jobs(list: Seq<Job>) -> Seq<JobView> {
    Seq::new(list.len(), |i: int| list[i]@)
}

fn start_model(arg: Option<String>) -> (task: Task)
    ensures
        forall|fresh: bool|
            task@ == #[trigger] task_of(JobView::Model(text::optional(arg)), fresh),
{
    match arg {
        Some(model_ref) => Task::SetModel(model_ref),
        None => Task::Models,
    }
}

fn start_thinking(arg: Option<String>) -> (task: Task)
    ensures
        forall|fresh: bool|
            task@ == #[trigger] task_of(JobView::Thinking(text::optional(arg)), fresh),
{
    match arg {
        Some(level) => Task::SetThinking(level),
        None => Task::ThinkingLevels,
    }
}

fn new_message(had_task: bool, cleared: usize) -> (s: String)
    ensures
        s@ == new_text(had_task, cleared as nat),
{
    let mut ack = crate::format::new_ack().to_owned();
    let mut extra: Vec<String> = Vec::new();
    if had_task {
        extra.push("aborted running task".to_owned());
    }
    if cleared > 0 {
        extra.push(crate::format::cleared_msg(cleared));
    }
    assert(text::texts(extra@) =~= new_extras(had_task, cleared as nat));
    if extra.len() > 0 {
        ack.append("; ");
        ack.append(text::joined(extra.as_slice(), ", ").as_str());
    }
    ack
}

fn outcome_message(seconds: u64, outcome: &TaskOutcome) -> (s: String)
    ensures
        s@ == outcome_text(seconds as nat, outcome@),
{
    let notice: String = match outcome {
        TaskOutcome::Prompt { result: Ok(reply), .. } => {
            return reply.as_str().to_owned();
        },
        TaskOutcome::Prompt { result: Err(e), .. } => crate::format::agent_error(e),
        TaskOutcome::PromptTimedOut => crate::format::prompt_timed_out(seconds),
        TaskOutcome::Session(Ok((state, stats))) => match stats {
            Some(known) => crate::format::session_info(state, Some(known)),
            None => crate::format::session_info(state, None),
        },
        TaskOutcome::Session(Err(e)) => crate::format::agent_error(e),
        TaskOutcome::Model { model_ref, result: Ok(_) } => {
            crate::format::model_set(model_ref.as_str())
        },
        TaskOutcome::Model { result: Err(e), .. } => crate::format::agent_error(e),
        TaskOutcome::Models(Ok(models)) => crate::format::models_list(models.as_slice()),
        TaskOutcome::Models(Err(e)) => crate::format::agent_error(e),
        TaskOutcome::Thinking { level, result: Ok(_) } => {
            crate::format::thinking_set(level.as_str())
        },
        TaskOutcome::Thinking { result: Err(e), .. } => crate::format::agent_error(e),
        TaskOutcome::ThinkingLevels(Ok(levels)) => crate::format::levels_list(levels.as_slice()),
        TaskOutcome::ThinkingLevels(Err(e)) => crate::format::agent_error(e),
    };
    crate::format::system(notice.as_str())
}

impl Worker {
    /// No control job waits in the queue, and the next wait is the one that
    /// the schedule has for the attempts so far.
    pub closed spec fn wf(self) -> bool {
        self@.wf() && self.retry.wf()
    }

    /// A worker that has been asked nothing; a prompt may take so long.
    pub fn new(prompt_timeout: Duration) -> (worker: Worker)
        ensures
            worker@ == WorkerView::idle(time::nanos(prompt_timeout)),
            worker.wf(),
    {
        let worker = Worker {
            prompt_timeout,
            running: false,
            queue: VecDeque::new(),
            fresh: false,
            known_session_id: None,
            rx_closed: false,
            todo: VecDeque::new(),
            retry: Retry::new(),
        };
        assert(worker@.queue =~= Seq::empty());
        assert(worker@.todo =~= Seq::empty());
        worker
    }

    /// How many jobs wait for the running task.
    pub fn waiting(&self) -> (n: usize)
        ensures
            n == self@.queue.len(),
    {
        self.queue.len()
    }

    /// How often sending the message that is to be sent has failed.
    pub fn attempts(&self) -> (n: u32)
        ensures
            n == self@.attempts,
    {
        self.retry.attempt
    }

    fn push(&mut self, action: Action)
        ensures
            final(self)@ == old(self)@.with(seq![action@]),
            final(self).retry == old(self).retry,
    {
        let ghost before = self.todo@;
        self.todo.push_back(action);
        assert(actions(self.todo@) =~= actions(before) + seq![action@]);
    }

    fn push_message(&mut self, notice: &str)
        ensures
            final(self)@ == old(self)@.with(
                seq![ActionView::Send(crate::format::system_text(notice@))],
            ),
            final(self).retry == old(self).retry,
    {
        self.push(Action::Send(crate::format::system(notice)));
    }

    /// What is next: what is to be done before anything else; then, with no
    /// task running, the first job that waits; then the end, where no job can
    /// come any more; and else there is only to wait.
    pub fn next(&mut self) -> (next: Next)
        requires
            old(self).wf(),
        ensures
            next@ == old(self)@.next(),
            final(self)@ == old(self)@.after_next(),
            final(self).wf(),
    {
        if self.todo.len() > 0 {
            assert(self@.todo[0] == self.todo@[0]@);
            let next = match &self.todo[0] {
                Action::Drain => Next::Drain,
                Action::Send(message) => Next::Send(message.as_str().to_owned()),
                Action::AskState => Next::AskState,
                Action::Exit => Next::Exit,
            };
            let done: bool = match &next {
                Next::Drain => true,
                Next::AskState => true,
                _ => false,
            };
            if done {
                let ghost before = self.todo@;
                let _ = self.todo.pop_front();
                assert(actions(self.todo@) =~= actions(before).drop_first());
            }
            return next;
        }
        if !self.running {
            let ghost waiting = self.queue@;
            if let Some(job) = self.queue.pop_front() {
                assert(!control(jobs(waiting)[0]));
                let task = match job {
                    Job::Prompt(prompt) => {
                        let fresh = self.fresh;
                        self.fresh = false;
                        Task::Prompt { prompt, fresh }
                    },
                    Job::Model(arg) => start_model(arg),
                    Job::Thinking(arg) => start_thinking(arg),
                    _ => Task::Session,
                };
                self.running = true;
                assert(jobs(self.queue@) =~= jobs(waiting).drop_first());
                return Next::Start(task);
            }
        }
        assert(self.queue@ =~= old(self).queue@);
        if !self.running && self.rx_closed {
            Next::Exit
        } else {
            Next::Wait { for_job: !self.rx_closed, for_task: self.running }
        }
    }

    /// Takes note whether the message that is to be sent was delivered, and
    /// says what follows. Transient failures are retried with backoff until
    /// the message is delivered; a permanent one is final.
    pub fn sent(&mut self, result: Result<(), ChatErrorKind>) -> (follows: AfterSend)
        requires
            old(self).wf(),
            old(self)@.sending(),
            result == Err::<(), ChatErrorKind>(ChatErrorKind::Transient) ==> old(self)@.attempts
                < u32::MAX,
        ensures
            final(self)@ == old(self)@.after_sent(result),
            final(self).wf(),
            match result {
                Ok(_) => follows is Delivered,
                Err(ChatErrorKind::Transient) => match follows {
                    AfterSend::RetryAfter(delay) => time::nanos(delay) == chat::scheduled(
                        old(self)@.attempts,
                    ),
                    _ => false,
                },
                Err(ChatErrorKind::Permanent) => follows is GiveUp,
            },
    {
        match result {
            Ok(_) => {
                let ghost before = self.todo@;
                let _ = self.todo.pop_front();
                assert(actions(self.todo@) =~= actions(before).drop_first());
                self.retry = Retry::new();
                AfterSend::Delivered
            },
            Err(kind) => match self.retry.failed(kind) {
                RetryAction::Wait(delay) => AfterSend::RetryAfter(delay),
                RetryAction::GiveUp => AfterSend::GiveUp,
            },
        }
    }

    /// Takes note that no more jobs will come: the remaining queue is finished.
    pub fn jobs_closed(&mut self)
        requires
            old(self).wf(),
        ensures
            final(self)@ == (WorkerView { closed: true, ..old(self)@ }),
            final(self).wf(),
    {
        self.rx_closed = true;
    }

    /// Takes a job that came.
    pub fn job(&mut self, job: Job)
        requires
            old(self).wf(),
            old(self)@.queue.len() < usize::MAX,
        ensures
            final(self)@ == old(self)@.after_job(job@),
            final(self).wf(),
    {
        let had_task = self.running;
        let waiting = self.queue.len();
        match job {
            Job::New => {
                self.drain_current();
                self.queue.clear();
                assert(jobs(self.queue@) =~= Seq::empty());
                self.fresh = true;
                self.push_message(new_message(had_task, waiting).as_str());
            },
            Job::Abort => {
                self.drain_current();
                self.queue.clear();
                assert(jobs(self.queue@) =~= Seq::empty());
                self.push_message(crate::format::abort_ack(had_task, waiting).as_str());
            },
            Job::Shutdown => {
                self.drain_current();
                self.push(Action::Exit);
            },
            other => {
                let is_prompt: bool = match other {
                    Job::Prompt(_) => true,
                    _ => false,
                };
                let ghost before = self.queue@;
                self.queue.push_back(other);
                assert(jobs(self.queue@) =~= jobs(before).push(job@));
                if had_task && is_prompt {
                    self.push_message(crate::format::queued(waiting + 1).as_str());
                }
            },
        }
        assert(self@.todo =~= old(self)@.after_job(job@).todo);
    }

    /// Abort the running task and wait (bounded) for it to die.
    fn drain_current(&mut self)
        ensures
            final(self)@ == (WorkerView { running: false, ..old(self)@.with(old(self)@.drain()) }),
            final(self).retry == old(self).retry,
    {
        if self.running {
            self.push(Action::Drain);
            self.running = false;
        }
        assert(self@.todo =~= old(self)@.todo + old(self)@.drain());
    }

    /// Takes the outcome of the running task.
    pub fn handle_outcome(&mut self, outcome: TaskOutcome)
        requires
            old(self).wf(),
        ensures
            final(self)@ == old(self)@.after_outcome(outcome@),
            final(self).wf(),
    {
        self.running = false;
        let asks: bool = match &outcome {
            TaskOutcome::Prompt { fresh, result: Ok(_) } => {
                *fresh || self.known_session_id.is_none()
            },
            _ => false,
        };
        self.push(Action::Send(outcome_message(self.prompt_timeout.as_secs(), &outcome)));
        if asks {
            self.push(Action::AskState);
        }
        assert(self@.todo =~= old(self)@.after_outcome(outcome@).todo);
    }

    /// Takes note that the running task ended without an outcome.
    pub fn task_lost(&mut self)
        requires
            old(self).wf(),
        ensures
            final(self)@ == old(self)@.after_loss(),
            final(self).wf(),
    {
        self.running = false;
        self.push_message(crate::format::internal_error("agent task failed").as_str());
    }

    /// Takes the answer to the question for the session.
    pub fn session_state(&mut self, state: Result<SessionState, AgentError>)
        requires
            old(self).wf(),
        ensures
            final(self)@ == old(self)@.after_session(state_result(state)),
            final(self).wf(),
    {
        if let Ok(known) = &state {
            self.known_session_id = Some(known.session_id.as_str().to_owned());
            self.push_message(crate::format::new_session_info(known).as_str());
        }
        assert(self@.todo =~= old(self)@.after_session(state_result(state)).todo);
    }
}

// ── What holds of every course of events ──────────────────────────────

/// What the worker is told, or that it is asked what to do next.
pub enum Event {
    Next,
    Job(JobView),
    Closed,
    Outcome(OutcomeView),
    Lost,
    Session(Result<SessionStateView, AgentErrorView>),
    Sent(Result<(), ChatErrorKind>),
}

impl WorkerView {
    /// The worker after `event`.
    pub open spec fn after(self, event: Event) -> WorkerView {
        match event {
            Event::Next => self.after_next(),
            Event::Job(job) => self.after_job(job),
            Event::Closed => WorkerView { closed: true, ..self },
            Event::Outcome(outcome) => self.after_outcome(outcome),
            Event::Lost => self.after_loss(),
            Event::Session(state) => self.after_session(state),
            Event::Sent(result) => if self.sending() {
                self.after_sent(result)
            } else {
                self
            },
        }
    }

    /// What is to be done about `event`.
    pub open spec fn on(self, event: Event) -> Seq<ActionView> {
        match event {
            Event::Next => Seq::empty(),
            Event::Job(job) => self.on_job(job),
            Event::Closed => Seq::empty(),
            Event::Outcome(outcome) => self.on_outcome(outcome),
            Event::Lost => seq![ActionView::Send(lost_text())],
            Event::Session(state) => self.on_session(state),
            Event::Sent(_) => Seq::empty(),
        }
    }

    /// The task that is started, where one is.
    pub open spec fn started(self, event: Event) -> Seq<TaskView> {
        match (event, self.next()) {
            (Event::Next, NextView::Start(task)) => seq![task],
            _ => Seq::empty(),
        }
    }

    /// Whether `event` ends the running task.
    pub open spec fn ended(self, event: Event) -> bool {
        self.running && match event {
            Event::Job(job) => control(job),
            Event::Outcome(_) => true,
            Event::Lost => true,
            _ => false,
        }
    }

    /// The worker after all of `events`.
    pub open spec fn after_all(self, events: Seq<Event>) -> WorkerView
        decreases events.len(),
    {
        if events.len() == 0 {
            self
        } else {
            self.after(events[0]).after_all(events.drop_first())
        }
    }

    /// The tasks that are started in the course of `events`, in order.
    pub open spec fn all_started(self, events: Seq<Event>) -> Seq<TaskView>
        decreases events.len(),
    {
        if events.len() == 0 {
            Seq::empty()
        } else {
            self.started(events[0]) + self.after(events[0]).all_started(events.drop_first())
        }
    }

    /// How often the running task ends in the course of `events`.
    pub open spec fn all_ended(self, events: Seq<Event>) -> nat
        decreases events.len(),
    {
        if events.len() == 0 {
            0
        } else {
            let rest = self.after(events[0]).all_ended(events.drop_first());
            if self.ended(events[0]) {
                rest + 1
            } else {
                rest
            }
        }
    }
}

/// The jobs of `events` that wait their turn, in order.
pub open spec fn arrived(events: Seq<Event>) -> Seq<JobView>
    decreases events.len(),
{
    if events.len() == 0 {
        Seq::empty()
    } else {
        let rest = arrived(events.drop_first());
        match events[0] {
            Event::Job(job) => if control(job) {
                rest
            } else {
                seq![job] + rest
            },
            _ => rest,
        }
    }
}

/// Whether none of `events` is a control job.
pub open spec fn uninterrupted(events: Seq<Event>) -> bool {
    forall|i: int|
        0 <= i < events.len() ==> match #[trigger] events[i] {
            Event::Job(job) => !control(job),
            _ => true,
        }
}

/// Whether none of `events` is a `.new`.
pub open spec fn same_session(events: Seq<Event>) -> bool {
    forall|i: int| 0 <= i < events.len() ==> #[trigger] events[i] != Event::Job(JobView::New)
}

/// The jobs that came to `tasks`.
pub open spec fn jobs_of(tasks: Seq<TaskView>) -> Seq<JobView> {
    Seq::new(tasks.len(), |i: int| job_of(tasks[i]))
}

/// Which of the prompts among `tasks` start a new session, in order.
pub open spec fn fresh_prompts(tasks: Seq<TaskView>) -> Seq<bool>
    decreases tasks.len(),
{
    if tasks.len() == 0 {
        Seq::empty()
    } else {
        let rest = fresh_prompts(tasks.drop_first());
        match tasks[0] {
            TaskView::Prompt { fresh, .. } => seq![fresh] + rest,
            _ => rest,
        }
    }
}

/// No control job ever waits in the queue.
pub proof fn law_no_control_job_waits(w: WorkerView, events: Seq<Event>)
    requires
        w.wf(),
    ensures
        w.after_all(events).wf(),
    decreases events.len(),
{
    if events.len() > 0 {
        law_no_control_job_waits(w.after(events[0]), events.drop_first());
    }
}

/// Jobs are processed in the order in which they came: as long as no control
/// job interrupts, the jobs that were started and those that still wait are
/// those that waited at first and those that came since.
pub proof fn law_jobs_in_order(w: WorkerView, events: Seq<Event>)
    requires
        w.wf(),
        uninterrupted(events),
    ensures
        jobs_of(w.all_started(events)) + w.after_all(events).queue == w.queue + arrived(events),
    decreases events.len(),
{
    if events.len() == 0 {
        assert(jobs_of(w.all_started(events)) + w.queue =~= w.queue + arrived(events));
    } else {
        let next = w.after(events[0]);
        let rest = events.drop_first();
        assert(uninterrupted(rest)) by {
            assert forall|i: int| 0 <= i < rest.len() implies match #[trigger] rest[i] {
                Event::Job(job) => !control(job),
                _ => true,
            } by {
                assert(rest[i] == events[i + 1]);
            }
        }
        let first = w.started(events[0]);
        let later = next.all_started(rest);
        let queue = w.after_all(events).queue;
        assert(match events[0] {
            Event::Job(job) => !control(job),
            _ => true,
        });
        law_jobs_in_order(next, rest);
        assert(jobs_of(first + later) =~= jobs_of(first) + jobs_of(later));
        assert(jobs_of(first) + jobs_of(later) + queue =~= jobs_of(first) + (jobs_of(later)
            + queue));
        match events[0] {
            Event::Job(job) => {
                assert(jobs_of(first) + (w.queue.push(job) + arrived(rest)) =~= w.queue + (
                seq![job] + arrived(rest)));
            },
            Event::Next => {
                if first.len() > 0 {
                    assert(!control(w.queue[0]));
                    assert(job_of(task_of(w.queue[0], w.fresh)) == w.queue[0]);
                    assert(jobs_of(first) =~= seq![w.queue[0]]);
                    assert(seq![w.queue[0]] + (w.queue.drop_first() + arrived(rest)) =~= w.queue
                        + arrived(rest));
                } else {
                    assert(jobs_of(first) + (w.queue + arrived(rest)) =~= w.queue + arrived(rest));
                }
            },
            _ => {
                assert(jobs_of(first) + (w.queue + arrived(rest)) =~= w.queue + arrived(rest));
            },
        }
    }
}

/// `.new` and `.abort` end the running task and clear the queue. The only
/// message they lead to is their own answer, and only jobs that come later are
/// started after them.
pub proof fn law_interruption(w: WorkerView, job: JobView, events: Seq<Event>)
    requires
        job is New || job is Abort,
        uninterrupted(events),
    ensures
        ({
            let interrupted = w.after_job(job);
            &&& !interrupted.running
            &&& interrupted.queue.len() == 0
            &&& w.running ==> w.on_job(job).len() == 2 && w.on_job(job)[0] is Drain
            &&& !w.running ==> w.on_job(job).len() == 1
            &&& w.on_job(job).last() is Send
            &&& jobs_of(interrupted.all_started(events)) + interrupted.after_all(events).queue
                == arrived(events)
        }),
{
    let interrupted = w.after_job(job);
    law_jobs_in_order(interrupted, events);
    assert(interrupted.queue + arrived(events) =~= arrived(events));
}

/// One task at a time: a task is started only where none is running, and the
/// tasks that were started are those that ended, with the one that is running.
pub proof fn law_one_task_at_a_time(w: WorkerView, events: Seq<Event>)
    ensures
        w.all_started(events).len() + (if w.running {
            1nat
        } else {
            0nat
        }) == w.all_ended(events) + (if w.after_all(events).running {
            1nat
        } else {
            0nat
        }),
        forall|event: Event| #[trigger] w.started(event).len() > 0 ==> !w.running,
    decreases events.len(),
{
    if events.len() > 0 {
        law_one_task_at_a_time(w.after(events[0]), events.drop_first());
    }
}

/// Of the prompts that are started without a `.new` among the events, the
/// first starts a new session where one was due, and the others go on with it.
pub proof fn law_fresh_once(w: WorkerView, events: Seq<Event>)
    requires
        same_session(events),
    ensures
        ({
            let fresh = fresh_prompts(w.all_started(events));
            &&& forall|i: int| 0 <= i < fresh.len() ==> #[trigger] fresh[i] == (w.fresh && i == 0)
            &&& w.after_all(events).fresh == (w.fresh && fresh.len() == 0)
        }),
    decreases events.len(),
{
    if events.len() > 0 {
        let next = w.after(events[0]);
        let rest = events.drop_first();
        assert(events[0] != Event::Job(JobView::New));
        assert(same_session(rest)) by {
            assert forall|i: int| 0 <= i < rest.len() implies #[trigger] rest[i] != Event::Job(
                JobView::New,
            ) by {
                assert(rest[i] == events[i + 1]);
            }
        }
        law_fresh_once(next, rest);
        let first = w.started(events[0]);
        let later = next.all_started(rest);
        let due = fresh_prompts(later);
        if first.len() > 0 {
            assert((first + later)[0] == first[0]);
            assert((first + later).drop_first() =~= later);
            if first[0] is Prompt {
                let fresh = seq![w.fresh] + due;
                assert(fresh_prompts(w.all_started(events)) == fresh);
                assert forall|i: int| 0 <= i < fresh.len() implies #[trigger] fresh[i] == (w.fresh
                    && i == 0) by {
                    if i > 0 {
                        assert(fresh[i] == due[i - 1]);
                    }
                }
            }
        } else {
            assert(first + later =~= later);
        }
    }
}

/// After `.new` the next prompt starts a new session, and only that one.
pub proof fn law_new_starts_one_session(w: WorkerView, events: Seq<Event>)
    requires
        same_session(events),
    ensures
        ({
            let fresh = fresh_prompts(w.after_job(JobView::New).all_started(events));
            forall|i: int| 0 <= i < fresh.len() ==> #[trigger] fresh[i] == (i == 0)
        }),
{
    law_fresh_once(w.after_job(JobView::New), events);
}

/// How the chat, `pi` and the running task answer, whichever is asked.
pub struct Reply {
    /// What comes of an attempt to send a message.
    pub sent: Result<(), ChatErrorKind>,
    /// The answer to the question for the session.
    pub state: Result<SessionStateView, AgentErrorView>,
    /// The outcome of the running task, where it gives one.
    pub outcome: Option<OutcomeView>,
}

/// What comes to pass when the worker says what is next, that is done, and it
/// is answered by `reply`; no job comes any more.
pub open spec fn turn(w: WorkerView, reply: Reply) -> Seq<Event> {
    match w.next() {
        NextView::Send(_) => seq![Event::Next, Event::Sent(reply.sent)],
        NextView::AskState => seq![Event::Next, Event::Session(reply.state)],
        NextView::Wait { .. } => match reply.outcome {
            Some(outcome) => seq![Event::Next, Event::Outcome(outcome)],
            None => seq![Event::Next, Event::Lost],
        },
        _ => seq![Event::Next],
    }
}

/// What comes to pass when the worker is answered by `replies` in turn.
pub open spec fn course(w: WorkerView, replies: Seq<Reply>) -> Seq<Event>
    decreases replies.len(),
{
    if replies.len() == 0 {
        Seq::empty()
    } else {
        let first = turn(w, replies[0]);
        first + course(w.after_all(first), replies.drop_first())
    }
}

/// How many of `replies` are that a message could not be sent.
pub open spec fn failures(replies: Seq<Reply>) -> nat
    decreases replies.len(),
{
    if replies.len() == 0 {
        0
    } else {
        failures(replies.drop_first()) + (if replies[0].sent is Err {
            1nat
        } else {
            0nat
        })
    }
}

/// How many turns `list` takes at most.
pub open spec fn turns(list: Seq<ActionView>) -> nat
    decreases list.len(),
{
    if list.len() == 0 {
        0
    } else {
        turns(list.drop_first()) + (if list[0] is AskState {
            2nat
        } else {
            1nat
        })
    }
}

/// How many turns a worker takes at most until it stops, where no job comes
/// any more and every message is delivered at once.
pub open spec fn work(w: WorkerView) -> nat {
    5 * w.queue.len() + turns(w.todo) + (if w.running {
        4nat
    } else {
        0nat
    })
}

proof fn lemma_turns_both(one: Seq<ActionView>, other: Seq<ActionView>)
    ensures
        turns(one + other) == turns(one) + turns(other),
    decreases one.len(),
{
    if one.len() == 0 {
        assert(one + other =~= other);
    } else {
        lemma_turns_both(one.drop_first(), other);
        assert((one + other).drop_first() =~= one.drop_first() + other);
    }
}

proof fn lemma_after_both(w: WorkerView, first: Seq<Event>, later: Seq<Event>)
    ensures
        w.after_all(first + later) == w.after_all(first).after_all(later),
    decreases first.len(),
{
    if first.len() == 0 {
        assert(first + later =~= later);
    } else {
        lemma_after_both(w.after(first[0]), first.drop_first(), later);
        assert((first + later).drop_first() =~= first.drop_first() + later);
    }
}

/// Whether it is not to be stopped.
pub open spec fn goes_on(w: WorkerView) -> bool {
    forall|i: int| 0 <= i < w.todo.len() ==> !(#[trigger] w.todo[i] is Exit)
}

/// A turn of a worker to which no job comes any more: it has less to do, unless
/// it stops or a message could not be sent.
proof fn lemma_turn(w: WorkerView, reply: Reply)
    requires
        w.wf(),
        w.closed,
        goes_on(w),
    ensures
        ({
            let end = w.after_all(turn(w, reply));
            &&& end.wf()
            &&& end.closed
            &&& goes_on(end)
            &&& w.next() is Exit ==> end == w
            &&& !(w.next() is Exit) ==> work(w) > 0
            &&& !(w.next() is Exit) ==> work(end) < work(w) || reply.sent is Err && work(end)
                == work(w)
        }),
{
    let events = turn(w, reply);
    let told = w.after(Event::Next);
    reveal_with_fuel(WorkerView::after_all, 3);
    assert(events[0] == Event::Next);
    if events.len() == 1 {
        assert(events.drop_first() =~= Seq::empty());
    } else {
        assert(events.drop_first() =~= seq![events[1]]);
        assert(seq![events[1]].drop_first() =~= Seq::empty());
        let more = told.on(events[1]);
        lemma_turns_both(told.todo, more);
        assert(turns(more) <= 3) by {
            reveal_with_fuel(turns, 3);
            if more.len() > 0 {
                assert(more.drop_first() =~= more.skip(1));
                if more.len() > 1 {
                    assert(more.drop_first().drop_first() =~= Seq::empty());
                } else {
                    assert(more.drop_first() =~= Seq::empty());
                }
            }
        }
        if events[1] is Session {
            assert(turns(more) <= 1) by {
                reveal_with_fuel(turns, 2);
                if more.len() > 0 {
                    assert(more.drop_first() =~= Seq::empty());
                }
            }
        }
    }
    let end = w.after_all(events);
    assert(goes_on(told)) by {
        if told.todo.len() < w.todo.len() {
            assert forall|i: int| 0 <= i < told.todo.len() implies !(#[trigger] told.todo[i] is Exit)
                by {
                assert(w.todo[i + 1] == told.todo[i]);
            }
        }
    }
    assert(goes_on(end)) by {
        assert forall|i: int| 0 <= i < end.todo.len() implies !(#[trigger] end.todo[i] is Exit) by {
            if events.len() > 1 {
                let more = told.on(events[1]);
                if end.todo =~= told.todo + more {
                    if i < told.todo.len() {
                        assert(told.todo[i] == end.todo[i]);
                    } else {
                        assert(more[i - told.todo.len()] == end.todo[i]);
                    }
                } else {
                    assert(end.todo =~= told.todo.drop_first());
                    assert(told.todo[i + 1] == end.todo[i]);
                }
            }
        }
    }
    assert(w.todo.len() > 0 ==> !(w.todo[0] is Exit));
}

/// No job comes in the course of replies.
proof fn lemma_course(w: WorkerView, replies: Seq<Reply>)
    ensures
        uninterrupted(course(w, replies)),
        arrived(course(w, replies)).len() == 0,
    decreases replies.len(),
{
    if replies.len() > 0 {
        let first = turn(w, replies[0]);
        let end = w.after_all(first);
        let rest = course(end, replies.drop_first());
        lemma_course(end, replies.drop_first());
        let events = first + rest;
        assert forall|i: int| 0 <= i < events.len() implies match #[trigger] events[i] {
            Event::Job(job) => !control(job),
            _ => true,
        } by {
            if i < first.len() {
                assert(events[i] == first[i]);
            } else {
                assert(events[i] == rest[i - first.len()]);
            }
        }
        reveal_with_fuel(arrived, 3);
        if first.len() == 1 {
            assert(events.drop_first() =~= rest);
        } else {
            assert(events.drop_first().drop_first() =~= rest);
            assert(events.drop_first()[0] == first[1]);
        }
    }
}

proof fn lemma_closed_worker_stops(w: WorkerView, replies: Seq<Reply>)
    requires
        w.wf(),
        w.closed,
        goes_on(w),
        replies.len() >= work(w) + failures(replies),
    ensures
        w.after_all(course(w, replies)).next() is Exit,
        goes_on(w.after_all(course(w, replies))),
    decreases replies.len(),
{
    if replies.len() == 0 {
        lemma_turn(w, Reply { sent: Ok(()), state: arbitrary(), outcome: None });
    } else {
        let first = turn(w, replies[0]);
        let end = w.after_all(first);
        let rest = replies.drop_first();
        lemma_turn(w, replies[0]);
        lemma_after_both(w, first, course(end, rest));
        if w.next() is Exit {
            lemma_stopped_worker_stays(w, rest);
        } else {
            lemma_closed_worker_stops(end, rest);
        }
    }
}

proof fn lemma_stopped_worker_stays(w: WorkerView, replies: Seq<Reply>)
    requires
        w.wf(),
        w.closed,
        goes_on(w),
        w.next() is Exit,
    ensures
        w.after_all(course(w, replies)) == w,
    decreases replies.len(),
{
    if replies.len() > 0 {
        let first = turn(w, replies[0]);
        lemma_turn(w, replies[0]);
        lemma_after_both(w, first, course(w, replies.drop_first()));
        lemma_stopped_worker_stays(w, replies.drop_first());
    }
}

/// Once no more jobs will come, the running task and the queue are finished,
/// and then the worker stops. However it is answered, and however often a
/// message has to be sent again, that takes no more turns than there is work
/// and attempts fail. By then every job that waited was started, in order, and
/// every message was delivered.
pub proof fn law_closed_worker_finishes(w: WorkerView, replies: Seq<Reply>)
    requires
        w.wf(),
        w.closed,
        goes_on(w),
        replies.len() >= work(w) + failures(replies),
    ensures
        ({
            let events = course(w, replies);
            let end = w.after_all(events);
            &&& end.next() is Exit
            &&& !end.running
            &&& end.queue.len() == 0
            &&& end.todo.len() == 0
            &&& jobs_of(w.all_started(events)) == w.queue
            &&& w.all_delivered(events) == said(w.todo) + w.all_said(events)
        }),
{
    let events = course(w, replies);
    let end = w.after_all(events);
    lemma_closed_worker_stops(w, replies);
    lemma_course(w, replies);
    law_jobs_in_order(w, events);
    law_messages_in_order(w, events);
    if end.todo.len() > 0 {
        assert(!(end.todo[0] is Exit));
    }
    assert(jobs_of(w.all_started(events)) + end.queue =~= jobs_of(w.all_started(events)));
    assert(w.queue + arrived(events) =~= w.queue);
    assert(w.all_delivered(events) + said(end.todo) =~= w.all_delivered(events));
}

/// As long as no shutdown is asked for, the worker stops only where no task
/// runs, no job waits, none can come any more, and nothing is left to say.
pub proof fn law_stops_only_when_done(w: WorkerView, events: Seq<Event>)
    requires
        goes_on(w),
        forall|i: int|
            0 <= i < events.len() ==> #[trigger] events[i] != Event::Job(JobView::Shutdown),
    ensures
        ({
            let end = w.after_all(events);
            end.next() is Exit ==> !end.running && end.queue.len() == 0 && end.closed
                && end.todo.len() == 0
        }),
    decreases events.len(),
{
    if events.len() > 0 {
        let next = w.after(events[0]);
        let rest = events.drop_first();
        assert(events[0] != Event::Job(JobView::Shutdown));
        assert(goes_on(next)) by {
            let more = w.on(events[0]);
            assert forall|i: int| 0 <= i < more.len() implies !(#[trigger] more[i] is Exit) by {}
            assert forall|i: int| 0 <= i < next.todo.len() implies !(#[trigger] next.todo[i] is Exit)
                by {
                if next.todo =~= w.todo + more {
                    if i < w.todo.len() {
                        assert(w.todo[i] == next.todo[i]);
                    } else {
                        assert(more[i - w.todo.len()] == next.todo[i]);
                    }
                } else {
                    assert(next.todo =~= w.todo.drop_first());
                    assert(w.todo[i + 1] == next.todo[i]);
                }
            }
        }
        assert forall|i: int| 0 <= i < rest.len() implies #[trigger] rest[i] != Event::Job(
            JobView::Shutdown,
        ) by {
            assert(rest[i] == events[i + 1]);
        }
        law_stops_only_when_done(next, rest);
    }
}

/// Whether it is to be stopped.
pub open spec fn stopping(w: WorkerView) -> bool {
    exists|i: int| 0 <= i < w.todo.len() && #[trigger] w.todo[i] is Exit
}

/// A shutdown aborts the running task, and then the worker stops: whatever
/// comes, nothing is started any more.
pub proof fn law_shutdown_is_final(w: WorkerView, events: Seq<Event>)
    ensures
        stopping(w.after_job(JobView::Shutdown)),
        w.running ==> w.on_job(JobView::Shutdown) == seq![ActionView::Drain, ActionView::Exit],
        !w.running ==> w.on_job(JobView::Shutdown) == seq![ActionView::Exit],
        w.after_job(JobView::Shutdown).all_started(events).len() == 0,
        stopping(w.after_job(JobView::Shutdown).after_all(events)),
{
    let more = w.on_job(JobView::Shutdown);
    let next = w.after_job(JobView::Shutdown);
    assert(next.todo[next.todo.len() - 1] == more[more.len() - 1]);
    lemma_stays_stopping(next, events);
}

proof fn lemma_stays_stopping(w: WorkerView, events: Seq<Event>)
    requires
        stopping(w),
    ensures
        w.all_started(events).len() == 0,
        stopping(w.after_all(events)),
    decreases events.len(),
{
    if events.len() > 0 {
        let next = w.after(events[0]);
        let i = choose|i: int| 0 <= i < w.todo.len() && #[trigger] w.todo[i] is Exit;
        assert(stopping(next)) by {
            if next.todo =~= w.todo + w.on(events[0]) {
                assert(next.todo[i] == w.todo[i]);
            } else {
                assert(next.todo =~= w.todo.drop_first());
                assert(next.todo[i - 1] == w.todo[i]);
            }
        }
        lemma_stays_stopping(next, events.drop_first());
    }
}

// ── Delivery ──────────────────────────────────────────────────────────

/// Whether `event` is that a message was delivered.
pub open spec fn is_delivery(event: Event) -> bool {
    match event {
        Event::Sent(result) => result is Ok,
        _ => false,
    }
}

/// While a message is not delivered, nothing is started and nothing else is
/// done: what is next is to send it again.
pub proof fn law_nothing_starts_before_delivery(w: WorkerView, events: Seq<Event>)
    requires
        w.sending(),
        forall|i: int| 0 <= i < events.len() ==> !is_delivery(#[trigger] events[i]),
    ensures
        w.all_started(events).len() == 0,
        w.after_all(events).sending(),
        w.after_all(events).todo[0] == w.todo[0],
        w.after_all(events).next() == NextView::Send(w.todo[0]->Send_0),
    decreases events.len(),
{
    if events.len() > 0 {
        let next = w.after(events[0]);
        let rest = events.drop_first();
        assert(!is_delivery(events[0]));
        assert(next.sending() && next.todo[0] == w.todo[0]);
        assert forall|i: int| 0 <= i < rest.len() implies !is_delivery(#[trigger] rest[i]) by {
            assert(rest[i] == events[i + 1]);
        }
        law_nothing_starts_before_delivery(next, rest);
    }
}

/// The messages among `list`, in order.
pub open spec fn said(list: Seq<ActionView>) -> Seq<Seq<char>>
    decreases list.len(),
{
    if list.len() == 0 {
        Seq::empty()
    } else {
        let rest = said(list.drop_first());
        match list[0] {
            ActionView::Send(message) => seq![message] + rest,
            _ => rest,
        }
    }
}

impl WorkerView {
    /// The messages that there is reason to send in the course of `events`.
    pub open spec fn all_said(self, events: Seq<Event>) -> Seq<Seq<char>>
        decreases events.len(),
    {
        if events.len() == 0 {
            Seq::empty()
        } else {
            said(self.on(events[0])) + self.after(events[0]).all_said(events.drop_first())
        }
    }

    /// The message that is delivered, where one is.
    pub open spec fn delivered(self, event: Event) -> Seq<Seq<char>> {
        match event {
            Event::Sent(Ok(_)) => if self.sending() {
                seq![self.todo[0]->Send_0]
            } else {
                Seq::empty()
            },
            _ => Seq::empty(),
        }
    }

    /// The messages that are delivered in the course of `events`, in order.
    pub open spec fn all_delivered(self, events: Seq<Event>) -> Seq<Seq<char>>
        decreases events.len(),
    {
        if events.len() == 0 {
            Seq::empty()
        } else {
            self.delivered(events[0]) + self.after(events[0]).all_delivered(events.drop_first())
        }
    }
}

proof fn lemma_said_both(one: Seq<ActionView>, other: Seq<ActionView>)
    ensures
        said(one + other) == said(one) + said(other),
    decreases one.len(),
{
    if one.len() == 0 {
        assert(one + other =~= other);
        assert(said(one) + said(other) =~= said(other));
    } else {
        lemma_said_both(one.drop_first(), other);
        assert((one + other).drop_first() =~= one.drop_first() + other);
        assert(said(one + other) =~= said(one) + said(other));
    }
}

/// No message is lost, none is delivered twice, and none overtakes another:
/// those that were delivered and those that still wait are those that waited
/// at first and those that there was reason to send since.
pub proof fn law_messages_in_order(w: WorkerView, events: Seq<Event>)
    ensures
        w.all_delivered(events) + said(w.after_all(events).todo) == said(w.todo) + w.all_said(
            events,
        ),
    decreases events.len(),
{
    if events.len() == 0 {
        assert(w.all_delivered(events) + said(w.todo) =~= said(w.todo) + w.all_said(events));
    } else {
        let event = events[0];
        let next = w.after(event);
        let rest = events.drop_first();
        law_messages_in_order(next, rest);
        let more = w.on(event);
        let now = w.delivered(event);
        lemma_said_both(w.todo, more);
        assert(now + said(next.todo) == said(w.todo) + said(more)) by {
            if next.todo =~= w.todo + more && now.len() == 0 {
                assert(now + said(next.todo) =~= said(next.todo));
            } else {
                assert(next.todo =~= w.todo.drop_first());
                assert(more =~= Seq::empty());
                assert(said(more) =~= Seq::empty());
                assert(now + said(next.todo) =~= said(w.todo));
                assert(said(w.todo) + said(more) =~= said(w.todo));
            }
        }
        let end = said(w.after_all(events).todo);
        assert(now + next.all_delivered(rest) + end =~= now + (next.all_delivered(rest) + end));
        assert(now + (said(next.todo) + next.all_said(rest)) =~= (now + said(next.todo))
            + next.all_said(rest));
        assert((said(w.todo) + said(more)) + next.all_said(rest) =~= said(w.todo) + (said(more)
            + next.all_said(rest)));
    }
}

/// Whether `message` begins as every message of the gateway itself does.
pub open spec fn from_gateway(message: Seq<char>) -> bool {
    (crate::format::SYSTEM_PREFIX@ + " "@).is_prefix_of(message)
}

proof fn lemma_system_texts_marked()
    ensures
        forall|said: Seq<char>| from_gateway(#[trigger] crate::format::system_text(said)),
{
    let mark = crate::format::SYSTEM_PREFIX@ + " "@;
    assert forall|said: Seq<char>| from_gateway(#[trigger] crate::format::system_text(said)) by {
        let message = crate::format::system_text(said);
        assert(message.subrange(0, mark.len() as int) =~= mark);
    }
}

/// Every message is marked as one of the gateway itself, but for the replies
/// of `pi`, which are sent as they are.
pub proof fn law_messages_marked(w: WorkerView, event: Event, i: int)
    requires
        0 <= i < w.on(event).len(),
        w.on(event)[i] is Send,
    ensures
        match event {
            Event::Outcome(OutcomeView::Prompt { result: Ok(reply), .. }) => w.on(event)[i]
                == ActionView::Send(reply),
            _ => from_gateway(w.on(event)[i]->Send_0),
        },
{
    lemma_system_texts_marked();
}

/// Once a session is known, one stays known, and replies that go on with it
/// lead to no question.
pub proof fn law_known_session_stays_known(w: WorkerView, events: Seq<Event>)
    requires
        w.known_session is Some,
    ensures
        w.after_all(events).known_session is Some,
        forall|reply: Seq<char>|
            !#[trigger] asks_for_session(
                w.known_session,
                OutcomeView::Prompt { fresh: false, result: Ok(reply) },
            ),
    decreases events.len(),
{
    if events.len() > 0 {
        law_known_session_stays_known(w.after(events[0]), events.drop_first());
    }
}

// ── What the worker does and says ─────────────────────────────────────

/// What is to be done first is next. With nothing of that left, the worker
/// starts a job exactly where one waits and no task runs. It waits exactly
/// where a task runs or jobs may come; and whenever it waits, it listens for
/// jobs as long as any may come, however many are queued and whether or not a
/// task runs, and for the task exactly where one runs.
pub proof fn law_what_is_next(w: WorkerView)
    ensures
        w.next() is Wait <==> w.todo.len() == 0 && (w.running || w.queue.len() == 0 && !w.closed),
        w.next() is Wait ==> w.next()->for_job == !w.closed && w.next()->for_task == w.running,
        w.next() is Start <==> w.todo.len() == 0 && !w.running && w.queue.len() > 0,
        w.next() is Exit <==> if w.todo.len() > 0 {
            w.todo[0] is Exit
        } else {
            !w.running && w.queue.len() == 0 && w.closed
        },
        w.next() is Drain <==> w.todo.len() > 0 && w.todo[0] is Drain,
        w.next() is AskState <==> w.todo.len() > 0 && w.todo[0] is AskState,
        w.next() is Send <==> w.todo.len() > 0 && w.todo[0] is Send,
        w.next() is Send ==> w.next()->Send_0 == w.todo[0]->Send_0,
{
}

/// A job that waits its turn is started as itself: the prompt that was sent, the
/// model or the level that was named, or the list where none was.
pub proof fn law_started_job(w: WorkerView, job: JobView, fresh: bool)
    requires
        !control(job),
    ensures
        control(JobView::New) && control(JobView::Abort) && control(JobView::Shutdown),
        job_of(task_of(job, fresh)) == job,
        task_of(job, fresh) is Prompt <==> job is Prompt,
        job is Prompt ==> task_of(job, fresh) == (TaskView::Prompt {
            prompt: job->Prompt_0,
            fresh,
        }),
        job is Session ==> task_of(job, fresh) is Session,
        job is Model && job->Model_0 is Some ==> task_of(job, fresh) == TaskView::SetModel(
            job->Model_0->0,
        ),
        job is Model && job->Model_0 is None ==> task_of(job, fresh) is Models,
        job is Thinking && job->Thinking_0 is Some ==> task_of(job, fresh)
            == TaskView::SetThinking(job->Thinking_0->0),
        job is Thinking && job->Thinking_0 is None ==> task_of(job, fresh) is ThinkingLevels,
        w.next() is Start ==> w.next()->Start_0 == task_of(w.queue[0], w.fresh),
{
}

/// What each event changes, and that it changes nothing else.
pub proof fn law_changes(w: WorkerView, event: Event)
    ensures
        ({
            let next = w.after(event);
            let started = event is Next && w.todo.len() == 0 && !w.running && w.queue.len() > 0;
            let sent = event is Sent && w.todo.len() > 0 && w.todo[0] is Send;
            &&& next.timeout == w.timeout
            &&& next.closed == (w.closed || event is Closed)
            &&& next.known_session == (match event {
                Event::Session(Ok(state)) => Some(state.session_id),
                _ => w.known_session,
            })
            &&& next.queue == (match event {
                Event::Job(JobView::New) => Seq::empty(),
                Event::Job(JobView::Abort) => Seq::empty(),
                Event::Job(JobView::Shutdown) => w.queue,
                Event::Job(job) => w.queue.push(job),
                _ => if started {
                    w.queue.drop_first()
                } else {
                    w.queue
                },
            })
            &&& next.running == (match event {
                Event::Job(JobView::New) => false,
                Event::Job(JobView::Abort) => false,
                Event::Job(JobView::Shutdown) => false,
                Event::Outcome(_) => false,
                Event::Lost => false,
                _ => w.running || started,
            })
            &&& next.fresh == (match event {
                Event::Job(JobView::New) => true,
                _ => w.fresh && !(started && w.queue[0] is Prompt),
            })
            &&& next.attempts == (match event {
                Event::Sent(Ok(_)) => if sent {
                    0
                } else {
                    w.attempts
                },
                Event::Sent(Err(ChatErrorKind::Transient)) => if sent {
                    w.attempts + 1
                } else {
                    w.attempts
                },
                _ => w.attempts,
            })
            &&& next.todo == (match event {
                Event::Next => if w.todo.len() > 0 && (w.todo[0] is Drain || w.todo[0]
                    is AskState) {
                    w.todo.drop_first()
                } else {
                    w.todo
                },
                Event::Sent(Ok(_)) => if sent {
                    w.todo.drop_first()
                } else {
                    w.todo
                },
                _ => w.todo + w.on(event),
            })
        }),
{
    assert(w.todo + Seq::<ActionView>::empty() =~= w.todo);
}

/// A worker at its start runs nothing, has nothing to do and nothing waiting,
/// knows no session, and listens.
pub proof fn law_start(timeout: nat)
    ensures
        ({
            let w = WorkerView::idle(timeout);
            &&& w.timeout == timeout
            &&& !w.running
            &&& w.queue.len() == 0
            &&& !w.fresh
            &&& w.known_session is None
            &&& !w.closed
            &&& w.todo.len() == 0
            &&& w.attempts == 0
            &&& w.next() == (NextView::Wait { for_job: true, for_task: false })
        }),
{
}

/// What is done about a job that comes: a running task is aborted first where
/// the job interrupts it; `.new` and `.abort` are answered with what they did;
/// a prompt that has to wait is told how many wait; and nothing is said of any
/// other job.
pub proof fn law_answers_to_jobs(w: WorkerView, prompt: Seq<char>, arg: Option<Seq<char>>)
    ensures
        ({
            let drained = if w.running {
                seq![ActionView::Drain]
            } else {
                Seq::empty()
            };
            let n = w.queue.len();
            let dropped = if n == 1 {
                "cleared 1 queued message"@
            } else {
                "cleared "@ + text::decimal(n) + " queued messages"@
            };
            let ack = "[pi-agent-connect] ok, next message will start a new session"@;
            let told = if w.running && n > 0 {
                ack + "; "@ + "aborted running task"@ + ", "@ + dropped
            } else if w.running {
                ack + "; "@ + "aborted running task"@
            } else if n > 0 {
                ack + "; "@ + dropped
            } else {
                ack
            };
            let stopped = "[pi-agent-connect] "@ + (if w.running {
                "aborted running task"@
            } else {
                "nothing was running"@
            }) + (if n > 0 {
                "; "@ + dropped
            } else {
                Seq::empty()
            });
            &&& w.on_job(JobView::New) == drained + seq![ActionView::Send(told)]
            &&& w.on_job(JobView::Abort) == drained + seq![ActionView::Send(stopped)]
            &&& w.on_job(JobView::Shutdown) == drained + seq![ActionView::Exit]
            &&& w.on_job(JobView::Prompt(prompt)) == (if w.running {
                seq![
                    ActionView::Send(
                        "[pi-agent-connect] queued (backlog: "@ + text::decimal(n + 1) + seq![')'],
                    ),
                ]
            } else {
                Seq::empty()
            })
            &&& w.on_job(JobView::Session).len() == 0
            &&& w.on_job(JobView::Model(arg)).len() == 0
            &&& w.on_job(JobView::Thinking(arg)).len() == 0
        }),
{
    let n = w.queue.len();
    let aborted = "aborted running task"@;
    let dropped = crate::format::cleared_text(n);
    let ack = "ok, next message will start a new session"@;
    let marked = "[pi-agent-connect] ok, next message will start a new session"@;
    reveal_strlit("[pi-agent-connect]");
    reveal_strlit(" ");
    reveal_strlit("[pi-agent-connect] ");
    reveal_strlit("ok, next message will start a new session");
    reveal_strlit("[pi-agent-connect] ok, next message will start a new session");
    reveal_strlit("queued (backlog: ");
    reveal_strlit("[pi-agent-connect] queued (backlog: ");
    reveal_strlit(")");
    assert(")"@ =~= seq![')']);
    assert(crate::format::system_text(ack) =~= marked);
    let extras = new_extras(w.running, n);
    let rest = text::join(extras, ", "@);
    assert(rest == if w.running && n > 0 {
        aborted + ", "@ + dropped
    } else if w.running {
        aborted
    } else if n > 0 {
        dropped
    } else {
        Seq::empty()
    }) by {
        if w.running && n > 0 {
            assert(extras.drop_last() =~= seq![aborted]);
            assert(extras.last() == dropped);
            reveal_with_fuel(text::join, 2);
        } else if w.running {
            assert(extras =~= seq![aborted]);
        } else if n > 0 {
            assert(extras =~= seq![dropped]);
        }
    }
    assert(crate::format::system_text(ack + "; "@ + rest) =~= marked + "; "@ + rest);
    assert(marked + "; "@ + (aborted + ", "@ + dropped) =~= marked + "; "@ + aborted + ", "@
        + dropped);
    let stopped = crate::format::abort_text(w.running, n);
    let head = if w.running {
        aborted
    } else {
        "nothing was running"@
    };
    if n > 0 {
        assert(crate::format::system_text(stopped) =~= "[pi-agent-connect] "@ + head + ("; "@
            + dropped));
    } else {
        assert(crate::format::system_text(stopped) =~= "[pi-agent-connect] "@ + head
            + Seq::<char>::empty());
    }
    assert(crate::format::system_text(crate::format::queued_text(n + 1))
        =~= "[pi-agent-connect] queued (backlog: "@ + text::decimal(n + 1) + seq![')']);
    assert(w.on_job(JobView::New) =~= w.drain() + seq![w.on_job(JobView::New).last()]);
    assert(w.on_job(JobView::Abort) =~= w.drain() + seq![w.on_job(JobView::Abort).last()]);
    assert(w.on_job(JobView::Shutdown) =~= w.drain() + seq![ActionView::Exit]);
}

/// What is done about an outcome: it is told in one message, and the session is
/// asked for exactly after a reply that started one, or before any is known. A
/// reply is told as it is; everything else behind the name of the gateway.
pub proof fn law_outcomes_told(
    w: WorkerView,
    fresh: bool,
    s: Seq<char>,
    e: AgentErrorView,
    state: SessionStateView,
    stats: Option<SessionStats>,
    list: Seq<Seq<char>>,
)
    ensures
        ({
            let mark = "[pi-agent-connect] "@;
            let one = |message: Seq<char>| seq![ActionView::Send(message)];
            let failed = mark + crate::format::agent_error_text(e);
            &&& w.on_outcome(OutcomeView::Prompt { fresh, result: Ok(s) }) == (if fresh
                || w.known_session is None {
                seq![ActionView::Send(s), ActionView::AskState]
            } else {
                one(s)
            })
            &&& w.on_outcome(OutcomeView::Prompt { fresh, result: Err(e) }) == one(failed)
            &&& w.on_outcome(OutcomeView::PromptTimedOut) == one(
                mark + "pi timed out after "@ + text::decimal(w.timeout / 1_000_000_000)
                    + "s, aborted"@,
            )
            &&& w.on_outcome(OutcomeView::Session(Ok((state, stats)))) == one(
                mark + crate::format::session_text(state, stats),
            )
            &&& w.on_outcome(OutcomeView::Session(Err(e))) == one(failed)
            &&& w.on_outcome(OutcomeView::Model { model_ref: s, result: Ok(()) }) == one(
                mark + "model set to "@ + s,
            )
            &&& w.on_outcome(OutcomeView::Model { model_ref: s, result: Err(e) }) == one(failed)
            &&& w.on_outcome(OutcomeView::Models(Ok(list))) == one(
                mark + "available models: "@ + text::join(list, ", "@),
            )
            &&& w.on_outcome(OutcomeView::Models(Err(e))) == one(failed)
            &&& w.on_outcome(OutcomeView::Thinking { level: s, result: Ok(()) }) == one(
                mark + "thinking level set to "@ + s,
            )
            &&& w.on_outcome(OutcomeView::Thinking { level: s, result: Err(e) }) == one(failed)
            &&& w.on_outcome(OutcomeView::ThinkingLevels(Ok(list))) == one(
                mark + "available levels: "@ + text::join(list, ", "@),
            )
            &&& w.on_outcome(OutcomeView::ThinkingLevels(Err(e))) == one(failed)
            &&& w.on(Event::Lost) == one(mark + "internal error: agent task failed"@)
            &&& w.on_session(Ok(state)) == one(mark + crate::format::new_session_text(state))
            &&& w.on_session(Err(e)).len() == 0
            &&& w.on(Event::Next).len() == 0
            &&& w.on(Event::Closed).len() == 0
            &&& forall|r: Result<(), ChatErrorKind>| #[trigger] w.on(Event::Sent(r)).len() == 0
        }),
{
    let mark = "[pi-agent-connect] "@;
    reveal_strlit("internal error: ");
    reveal_strlit("agent task failed");
    reveal_strlit("internal error: agent task failed");
    assert(crate::format::internal_error_text("agent task failed"@)
        =~= "internal error: agent task failed"@);
    assert forall|said: Seq<char>| #[trigger]
        crate::format::system_text(said) == mark + said by {
        crate::format::law_system_text(said);
    }
    assert(mark + (" "@ + s) =~= mark + " "@ + s);
    let n = w.timeout / 1_000_000_000;
    assert(mark + crate::format::timed_out_text(n) =~= mark + "pi timed out after "@
        + text::decimal(n) + "s, aborted"@);
    assert(mark + crate::format::model_set_text(s) =~= mark + "model set to "@ + s);
    assert(mark + crate::format::thinking_set_text(s) =~= mark + "thinking level set to "@ + s);
    assert(mark + crate::format::models_text(list) =~= mark + "available models: "@ + text::join(
        list,
        ", "@,
    ));
    assert(mark + crate::format::levels_text(list) =~= mark + "available levels: "@ + text::join(
        list,
        ", "@,
    ));
    assert(seq![ActionView::Send(s)].push(ActionView::AskState) =~= seq![
        ActionView::Send(s),
        ActionView::AskState,
    ]);
}

/// What a job, a task, an action and what is next say is what they are.
pub proof fn law_worker_views(job: Job, task: Task, action: Action, next: Next)
    ensures
        match (job, job@) {
            (Job::Prompt(s), JobView::Prompt(v)) => v == s@,
            (Job::New, JobView::New) => true,
            (Job::Abort, JobView::Abort) => true,
            (Job::Session, JobView::Session) => true,
            (Job::Model(arg), JobView::Model(v)) => v == text::optional(arg),
            (Job::Thinking(arg), JobView::Thinking(v)) => v == text::optional(arg),
            (Job::Shutdown, JobView::Shutdown) => true,
            _ => false,
        },
        match (task, task@) {
            (Task::Prompt { prompt, fresh }, TaskView::Prompt { prompt: p, fresh: f }) => p
                == prompt@ && f == fresh,
            (Task::Session, TaskView::Session) => true,
            (Task::SetModel(s), TaskView::SetModel(v)) => v == s@,
            (Task::Models, TaskView::Models) => true,
            (Task::SetThinking(s), TaskView::SetThinking(v)) => v == s@,
            (Task::ThinkingLevels, TaskView::ThinkingLevels) => true,
            _ => false,
        },
        match (action, action@) {
            (Action::Drain, ActionView::Drain) => true,
            (Action::Send(s), ActionView::Send(v)) => v == s@,
            (Action::AskState, ActionView::AskState) => true,
            (Action::Exit, ActionView::Exit) => true,
            _ => false,
        },
        match (next, next@) {
            (Next::Drain, NextView::Drain) => true,
            (Next::Send(s), NextView::Send(v)) => v == s@,
            (Next::AskState, NextView::AskState) => true,
            (Next::Start(t), NextView::Start(v)) => v == t@,
            (
                Next::Wait { for_job, for_task },
                NextView::Wait { for_job: j, for_task: t },
            ) => j == for_job && t == for_task,
            (Next::Exit, NextView::Exit) => true,
            _ => false,
        },
{
}

/// What an outcome says is what it is.
pub proof fn law_outcome_view(outcome: TaskOutcome)
    ensures
        match (outcome, outcome@) {
            (
                TaskOutcome::Prompt { fresh, result: Ok(s) },
                OutcomeView::Prompt { fresh: f, result: Ok(v) },
            ) => f == fresh && v == s@,
            (
                TaskOutcome::Prompt { fresh, result: Err(e) },
                OutcomeView::Prompt { fresh: f, result: Err(v) },
            ) => f == fresh && v == e@,
            (TaskOutcome::PromptTimedOut, OutcomeView::PromptTimedOut) => true,
            (
                TaskOutcome::Session(Ok((state, stats))),
                OutcomeView::Session(Ok((v, u))),
            ) => v == state@ && u == stats,
            (TaskOutcome::Session(Err(e)), OutcomeView::Session(Err(v))) => v == e@,
            (
                TaskOutcome::Model { model_ref, result: Ok(_) },
                OutcomeView::Model { model_ref: m, result: Ok(_) },
            ) => m == model_ref@,
            (
                TaskOutcome::Model { model_ref, result: Err(e) },
                OutcomeView::Model { model_ref: m, result: Err(v) },
            ) => m == model_ref@ && v == e@,
            (TaskOutcome::Models(Ok(list)), OutcomeView::Models(Ok(v))) => v == text::texts(list@),
            (TaskOutcome::Models(Err(e)), OutcomeView::Models(Err(v))) => v == e@,
            (
                TaskOutcome::Thinking { level, result: Ok(_) },
                OutcomeView::Thinking { level: l, result: Ok(_) },
            ) => l == level@,
            (
                TaskOutcome::Thinking { level, result: Err(e) },
                OutcomeView::Thinking { level: l, result: Err(v) },
            ) => l == level@ && v == e@,
            (TaskOutcome::ThinkingLevels(Ok(list)), OutcomeView::ThinkingLevels(Ok(v))) => v
                == text::texts(list@),
            (TaskOutcome::ThinkingLevels(Err(e)), OutcomeView::ThinkingLevels(Err(v))) => v == e@,
            _ => false,
        },
{
}

/// The patience with tasks and with the chat, in seconds.
pub proof fn law_worker_patience()
    ensures
        ABORT_DRAIN_TIMEOUT == 15,
        ABORT_JOIN_TIMEOUT == 2,
        TYPING_INTERVAL == 8,
{
}

/// A list of jobs or actions says what each of them says, in order.
pub proof fn law_lists(queue: Seq<Job>, list: Seq<Action>)
    ensures
        jobs(queue).len() == queue.len(),
        forall|i: int| 0 <= i < queue.len() ==> #[trigger] jobs(queue)[i] == queue[i]@,
        actions(list).len() == list.len(),
        forall|i: int| 0 <= i < list.len() ==> #[trigger] actions(list)[i] == list[i]@,
{
}

} // verus!
