use pi_agent_connect::agent::{AgentError, SessionState, SessionStats};
use pi_agent_connect::chat::ChatErrorKind;
use pi_agent_connect::worker::{
    prompt_outcome, session_known, session_outcome, AfterSend, Job, Next, SessionStep, Task,
    TaskOutcome, Worker,
};
use serde_json::Number;
use std::collections::VecDeque;
use std::time::Duration;

enum Behavior {
    Reply(String),
    Fail(AgentError),
    Hang,
}

/// What the running task will come to.
enum Current {
    Done(TaskOutcome),
    Hanging { fresh: bool },
}

/// An agent and a chat around a worker.
struct World {
    worker: Worker,
    jobs: VecDeque<Job>,
    /// Whether a job that is there is taken before an outcome that is there.
    jobs_first: bool,
    behaviors: VecDeque<Behavior>,
    fail_on: Vec<(String, usize)>,
    current: Option<Current>,
    calls: Vec<String>,
    messages: Vec<String>,
    events: Vec<String>,
    waits: Vec<Duration>,
    gave_up: bool,
}

fn state() -> SessionState {
    SessionState {
        session_id: "sess-1".into(),
        session_file: "/tmp/s.jsonl".into(),
        model: Some("deepseek/deepseek-v4-flash".into()),
        thinking: Some("high".into()),
    }
}

fn stats() -> SessionStats {
    SessionStats {
        tokens_input: 10,
        tokens_output: 20,
        tokens_cache_read: 30,
        cost: Number::from_f64(0.5),
    }
}

impl World {
    fn new(jobs: Vec<Job>) -> World {
        World {
            worker: Worker::new(Duration::from_secs(30)),
            jobs: jobs.into(),
            jobs_first: true,
            behaviors: VecDeque::new(),
            fail_on: Vec::new(),
            current: None,
            calls: Vec::new(),
            messages: Vec::new(),
            events: Vec::new(),
            waits: Vec::new(),
            gave_up: false,
        }
    }

    fn reply(mut self, text: &str) -> World {
        self.behaviors.push_back(Behavior::Reply(text.to_string()));
        self
    }

    fn fail(mut self, e: AgentError) -> World {
        self.behaviors.push_back(Behavior::Fail(e));
        self
    }

    fn hang(mut self) -> World {
        self.behaviors.push_back(Behavior::Hang);
        self
    }

    fn note(&mut self, s: &str) {
        self.calls.push(s.to_string());
        self.events.push(s.to_string());
    }

    fn send(&mut self, text: String) -> Result<(), ChatErrorKind> {
        if let Some((_, n)) = self.fail_on.iter_mut().find(|(t, n)| *t == text && *n > 0) {
            *n -= 1;
            self.events.push(format!("send-fail:{text}"));
            return Err(ChatErrorKind::Transient);
        }
        self.events.push(format!("send-ok:{text}"));
        self.messages.push(text);
        Ok(())
    }

    fn start(&mut self, task: Task) {
        let current = match task {
            Task::Prompt { prompt, fresh } => {
                self.note(&format!("prompt(fresh={fresh}):{prompt}"));
                match self.behaviors.pop_front() {
                    Some(Behavior::Reply(t)) => Current::Done(prompt_outcome(fresh, Some(Ok(t))).0),
                    Some(Behavior::Fail(e)) => Current::Done(prompt_outcome(fresh, Some(Err(e))).0),
                    Some(Behavior::Hang) => Current::Hanging { fresh },
                    None => {
                        Current::Done(prompt_outcome(fresh, Some(Ok("default reply".into()))).0)
                    }
                }
            }
            Task::Session => {
                self.note("get_state");
                match session_known(Ok(state())) {
                    SessionStep::AskStats(state) => {
                        self.note("get_session_stats");
                        Current::Done(session_outcome(state, Ok(stats())))
                    }
                    SessionStep::Done(outcome) => Current::Done(outcome),
                }
            }
            Task::SetModel(model_ref) => {
                self.note(&format!("set_model:{model_ref}"));
                Current::Done(TaskOutcome::Model { model_ref, result: Ok(()) })
            }
            Task::Models => {
                self.note("list_models");
                Current::Done(TaskOutcome::Models(Ok(vec!["deepseek/a".into(), "qiuming/b".into()])))
            }
            Task::SetThinking(level) => {
                self.note(&format!("set_thinking:{level}"));
                Current::Done(TaskOutcome::Thinking { level, result: Ok(()) })
            }
            Task::ThinkingLevels => {
                self.note("list_thinking_levels");
                Current::Done(TaskOutcome::ThinkingLevels(Ok(vec!["off".into(), "high".into()])))
            }
        };
        self.current = Some(current);
    }

    fn finish_current(&mut self) {
        match self.current.take().expect("a task runs") {
            Current::Done(outcome) => self.worker.handle_outcome(outcome),
            Current::Hanging { fresh } => {
                let (outcome, abort) = prompt_outcome(fresh, None);
                if abort {
                    self.note("abort");
                }
                self.worker.handle_outcome(outcome);
            }
        }
    }

    fn run(&mut self) {
        loop {
            match self.worker.next() {
                Next::Drain => {
                    assert!(self.current.take().is_some(), "only a running task is drained");
                    self.note("abort");
                }
                Next::Send(text) => {
                    let result = self.send(text);
                    match self.worker.sent(result) {
                        AfterSend::Delivered => {}
                        AfterSend::RetryAfter(delay) => self.waits.push(delay),
                        AfterSend::GiveUp => {
                            self.gave_up = true;
                            return;
                        }
                    }
                }
                Next::AskState => {
                    self.note("get_state");
                    self.worker.session_state(Ok(state()));
                }
                Next::Start(task) => {
                    assert!(self.current.is_none(), "one task at a time");
                    self.start(task);
                }
                Next::Wait { for_job, for_task } => {
                    assert_eq!(for_task, self.current.is_some());
                    let ready = matches!(self.current, Some(Current::Done(_)));
                    if for_job && (self.jobs_first || !ready) {
                        match self.jobs.pop_front() {
                            Some(job) => self.worker.job(job),
                            None => self.worker.jobs_closed(),
                        }
                    } else {
                        self.finish_current();
                    }
                }
                Next::Exit => return,
            }
        }
    }

    fn drive(mut self) -> (Vec<String>, Vec<String>) {
        self.run();
        (self.calls, self.messages)
    }
}

fn prompts(calls: &[String]) -> Vec<String> {
    calls.iter().filter(|c| c.starts_with("prompt")).cloned().collect()
}

#[test]
fn prompt_flow_posts_reply_and_first_session_info() {
    let (calls, messages) =
        World::new(vec![Job::Prompt("hello".into())]).reply("pi answer").drive();

    // Pi reply is sent raw (no [pi-agent-connect] prefix).
    assert!(messages.iter().any(|m| m == "pi answer"), "{messages:?}");
    // First message since startup: background session info is posted.
    assert!(
        messages.iter().any(|m| m.starts_with("[pi-agent-connect] new session: id=sess-1")),
        "{messages:?}"
    );
    assert_eq!(calls[0], "prompt(fresh=false):hello");
    assert!(calls.contains(&"get_state".to_string()), "{calls:?}");
}

#[test]
fn messages_processed_serially() {
    for jobs_first in [true, false] {
        let mut world = World::new(vec![
            Job::Prompt("a".into()),
            Job::Prompt("b".into()),
            Job::Prompt("c".into()),
        ])
        .reply("r1")
        .reply("r2")
        .reply("r3");
        world.jobs_first = jobs_first;
        let (calls, _) = world.drive();
        assert_eq!(
            prompts(&calls),
            vec![
                "prompt(fresh=false):a".to_string(),
                "prompt(fresh=false):b".to_string(),
                "prompt(fresh=false):c".to_string()
            ]
        );
    }
}

#[test]
fn new_marks_next_prompt_fresh() {
    let (calls, messages) =
        World::new(vec![Job::New, Job::Prompt("a".into()), Job::Prompt("b".into())])
            .reply("ra")
            .reply("rb")
            .drive();
    let prompts = prompts(&calls);
    assert_eq!(prompts[0], "prompt(fresh=true):a");
    assert_eq!(prompts[1], "prompt(fresh=false):b");
    assert!(messages
        .contains(&"[pi-agent-connect] ok, next message will start a new session".to_string()));
}

#[test]
fn new_aborts_running_task_clears_queue() {
    let (calls, messages) = World::new(vec![
        Job::Prompt("a".into()),
        Job::Prompt("b".into()),
        Job::New,
        Job::Prompt("c".into()),
    ])
    .hang() // "a" hangs until aborted
    .drive();

    assert_eq!(
        prompts(&calls),
        vec!["prompt(fresh=false):a".to_string(), "prompt(fresh=true):c".to_string()]
    );
    assert!(calls.contains(&"abort".to_string()), "{calls:?}");
    assert!(
        messages.contains(&"[pi-agent-connect] queued (backlog: 1)".to_string()),
        "{messages:?}"
    );
    assert!(
        messages.contains(
            &"[pi-agent-connect] ok, next message will start a new session; aborted running task, cleared 1 queued message"
                .to_string()
        ),
        "{messages:?}"
    );
}

#[test]
fn abort_kills_running_task() {
    let (calls, messages) =
        World::new(vec![Job::Prompt("a".into()), Job::Abort]).hang().drive();
    assert!(calls.contains(&"abort".to_string()), "{calls:?}");
    assert!(
        messages.contains(&"[pi-agent-connect] aborted running task".to_string()),
        "{messages:?}"
    );
    // The aborted task's error must be suppressed.
    assert!(!messages.iter().any(|m| m.contains("pi exited with code")), "{messages:?}");
}

#[test]
fn abort_idle_reports_nothing_running() {
    let (_, messages) = World::new(vec![Job::Abort]).drive();
    assert!(messages.contains(&"[pi-agent-connect] nothing was running".to_string()));
}

#[test]
fn pi_error_is_mapped() {
    let (_, messages) = World::new(vec![Job::Prompt("x".into())])
        .fail(AgentError::NonZeroExit { code: Some(1), stderr: "boom".into() })
        .drive();
    assert!(
        messages.contains(&"[pi-agent-connect] pi exited with code 1: boom".to_string()),
        "{messages:?}"
    );
}

#[test]
fn hung_prompt_times_out() {
    let mut world = World::new(vec![Job::Prompt("x".into())]).hang();
    world.worker = Worker::new(Duration::from_millis(1100));
    let (calls, messages) = world.drive();
    assert!(
        messages.contains(&"[pi-agent-connect] pi timed out after 1s, aborted".to_string()),
        "{messages:?}"
    );
    assert!(calls.contains(&"abort".to_string()));
}

#[test]
fn session_command_reports_state_and_stats() {
    let (calls, messages) = World::new(vec![Job::Session]).drive();
    assert!(calls.contains(&"get_state".to_string()));
    assert!(calls.contains(&"get_session_stats".to_string()));
    assert!(
        messages.iter().any(|m| m.starts_with("[pi-agent-connect] session: id=sess-1")
            && m.contains("tokens: in=10 out=20")),
        "{messages:?}"
    );
}

#[test]
fn model_and_thinking_commands() {
    let (calls, messages) = World::new(vec![
        Job::Model(Some("deepseek/x".into())),
        Job::Model(None),
        Job::Thinking(Some("high".into())),
        Job::Thinking(None),
    ])
    .drive();
    assert!(calls.contains(&"set_model:deepseek/x".to_string()));
    assert!(calls.contains(&"list_models".to_string()));
    assert!(calls.contains(&"set_thinking:high".to_string()));
    assert!(calls.contains(&"list_thinking_levels".to_string()));
    assert!(messages.contains(&"[pi-agent-connect] model set to deepseek/x".to_string()));
    assert!(messages
        .contains(&"[pi-agent-connect] available models: deepseek/a, qiuming/b".to_string()));
    assert!(messages.contains(&"[pi-agent-connect] thinking level set to high".to_string()));
    assert!(messages.contains(&"[pi-agent-connect] available levels: off, high".to_string()));
}

#[test]
fn transient_send_failure_retries_and_blocks_until_delivered() {
    // Prompt a's reply fails transiently twice, then succeeds. The worker
    // must retry until it is delivered, and must NOT start prompt b before
    // that — fail-closed: no blind execution while replies cannot be sent.
    let mut world = World::new(vec![Job::Prompt("a".into()), Job::Prompt("b".into())])
        .reply("r1")
        .reply("r2");
    world.fail_on.push(("r1".to_string(), 2));
    world.run();

    let events = world.events;
    let fails = events.iter().filter(|e| e.as_str() == "send-fail:r1").count();
    assert_eq!(fails, 2, "reply r1 must be retried until success: {events:?}");
    let delivered =
        events.iter().position(|e| e.as_str() == "send-ok:r1").expect("r1 eventually delivered");
    let prompt_b = events
        .iter()
        .position(|e| e.as_str() == "prompt(fresh=false):b")
        .expect("prompt b eventually runs");
    assert!(delivered < prompt_b, "reply for a must be delivered before b executes: {events:?}");
    assert!(
        events.iter().any(|e| e.as_str() == "send-ok:r2"),
        "reply r2 delivered after recovery: {events:?}"
    );
    assert_eq!(world.waits, vec![Duration::from_secs(1), Duration::from_secs(2)]);
}

#[test]
fn shutdown_aborts_current_and_exits() {
    let (calls, _) = World::new(vec![Job::Prompt("a".into()), Job::Shutdown]).hang().drive();
    assert!(calls.contains(&"abort".to_string()));
}

#[test]
fn shutdown_leaves_the_queue() {
    let (calls, messages) = World::new(vec![
        Job::Prompt("a".into()),
        Job::Session,
        Job::Shutdown,
        Job::Prompt("b".into()),
    ])
    .hang()
    .drive();
    assert_eq!(calls, vec!["prompt(fresh=false):a", "abort"]);
    assert!(messages.is_empty(), "{messages:?}");
}

#[test]
fn session_is_told_once_and_after_new() {
    let mut world = World::new(vec![
        Job::Prompt("a".into()),
        Job::Prompt("b".into()),
        Job::New,
        Job::Prompt("c".into()),
    ])
    .reply("ra")
    .reply("rb")
    .reply("rc");
    world.jobs_first = false;
    let (calls, messages) = world.drive();
    assert_eq!(
        calls,
        vec![
            "prompt(fresh=false):a",
            "get_state",
            "prompt(fresh=false):b",
            "prompt(fresh=true):c",
            "get_state"
        ]
    );
    let told = "[pi-agent-connect] new session: id=sess-1 file=/tmp/s.jsonl model=deepseek/deepseek-v4-flash thinking=high";
    assert_eq!(
        messages,
        vec![
            "ra",
            told,
            "rb",
            "[pi-agent-connect] ok, next message will start a new session",
            "rc",
            told
        ]
    );
}

#[test]
fn a_session_that_cannot_be_told_is_asked_for_again() {
    let mut worker = Worker::new(Duration::from_secs(1));
    for _ in 0..2 {
        worker.job(Job::Prompt("a".into()));
        assert!(matches!(worker.next(), Next::Start(_)));
        worker.handle_outcome(prompt_outcome(false, Some(Ok("r".into()))).0);
        assert_eq!(worker.next(), Next::Send("r".to_string()));
        assert!(matches!(worker.sent(Ok(())), AfterSend::Delivered));
        assert_eq!(worker.next(), Next::AskState);
        worker.session_state(Err(AgentError::EmptyOutput));
        assert_eq!(worker.next(), Next::Wait { for_job: true, for_task: false });
    }
}

#[test]
fn only_prompts_are_told_that_they_wait() {
    let (_, messages) = World::new(vec![
        Job::Prompt("a".into()),
        Job::Session,
        Job::Prompt("b".into()),
        Job::Abort,
        Job::Abort,
    ])
    .hang()
    .drive();
    assert_eq!(
        messages,
        vec![
            "[pi-agent-connect] queued (backlog: 2)",
            "[pi-agent-connect] aborted running task; cleared 2 queued messages",
            "[pi-agent-connect] nothing was running"
        ]
    );
}

#[test]
fn a_permanent_failure_is_final() {
    let mut worker = Worker::new(Duration::from_secs(1));
    worker.job(Job::Abort);
    assert_eq!(worker.next(), Next::Send("[pi-agent-connect] nothing was running".to_string()));
    assert_eq!(worker.attempts(), 0);
    assert!(matches!(worker.sent(Err(ChatErrorKind::Transient)), AfterSend::RetryAfter(_)));
    assert_eq!(worker.attempts(), 1);
    // The same message is next, whatever else comes.
    worker.job(Job::Prompt("a".into()));
    assert_eq!(worker.waiting(), 1);
    assert_eq!(worker.next(), Next::Send("[pi-agent-connect] nothing was running".to_string()));
    assert!(matches!(worker.sent(Err(ChatErrorKind::Permanent)), AfterSend::GiveUp));
}

#[test]
fn a_lost_task_is_told_and_the_queue_goes_on() {
    let mut worker = Worker::new(Duration::from_secs(1));
    worker.job(Job::Session);
    worker.job(Job::Model(None));
    assert_eq!(worker.next(), Next::Start(Task::Session));
    worker.task_lost();
    let notice = "[pi-agent-connect] internal error: agent task failed".to_string();
    assert_eq!(worker.next(), Next::Send(notice));
    assert!(matches!(worker.sent(Ok(())), AfterSend::Delivered));
    assert_eq!(worker.next(), Next::Start(Task::Models));
    assert_eq!(worker.next(), Next::Wait { for_job: true, for_task: true });
    worker.jobs_closed();
    assert_eq!(worker.next(), Next::Wait { for_job: false, for_task: true });
}

#[test]
fn every_failure_is_told() {
    let error = || AgentError::Rpc { command: "c".into(), error: "no".into() };
    for outcome in [
        TaskOutcome::Session(Err(error())),
        TaskOutcome::Model { model_ref: "a/b".into(), result: Err(error()) },
        TaskOutcome::Models(Err(error())),
        TaskOutcome::Thinking { level: "x".into(), result: Err(error()) },
        TaskOutcome::ThinkingLevels(Err(error())),
        TaskOutcome::Prompt { fresh: true, result: Err(error()) },
    ] {
        let mut worker = Worker::new(Duration::from_secs(1));
        worker.handle_outcome(outcome);
        assert_eq!(worker.next(), Next::Send("[pi-agent-connect] pi rejected: no".to_string()));
        assert!(matches!(worker.sent(Ok(())), AfterSend::Delivered));
        assert_eq!(worker.next(), Next::Wait { for_job: true, for_task: false });
    }
}

#[test]
fn use_that_is_not_known_is_left_out() {
    let outcome = session_outcome(state(), Err(AgentError::EmptyOutput));
    let mut worker = Worker::new(Duration::from_secs(1));
    worker.handle_outcome(outcome);
    match worker.next() {
        Next::Send(message) => assert!(!message.contains("tokens"), "{message}"),
        other => panic!("{other:?}"),
    }
    assert!(matches!(
        session_known(Err(AgentError::EmptyOutput)),
        SessionStep::Done(TaskOutcome::Session(Err(AgentError::EmptyOutput)))
    ));
}

#[test]
fn a_worker_that_is_closed_while_it_runs_finishes() {
    let mut world = World::new(Vec::new()).reply("ra").reply("rb");
    world.worker.job(Job::Prompt("a".into()));
    match world.worker.next() {
        Next::Start(task) => world.start(task),
        other => panic!("{other:?}"),
    }
    world.worker.job(Job::Prompt("b".into()));
    world.worker.job(Job::Model(None));
    world.worker.jobs_closed();
    // A task runs, jobs wait, and a notice is still to be sent; it fails twice.
    let notice = "[pi-agent-connect] queued (backlog: 1)".to_string();
    world.fail_on.push((notice.clone(), 2));
    world.run();
    assert!(!world.gave_up);
    assert_eq!(
        world.calls,
        vec!["prompt(fresh=false):a", "get_state", "prompt(fresh=false):b", "list_models"]
    );
    assert_eq!(world.messages.len(), 5);
    assert_eq!(world.messages[0], notice);
    assert_eq!(world.messages[1], "ra");
    assert_eq!(world.messages[3], "rb");
    assert_eq!(world.worker.next(), Next::Exit);
}
