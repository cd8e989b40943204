//! What the gateway does with each message that comes in, and how it starts.

use crate::commands;
use crate::commands::{Command, CommandView};
use crate::config::Config;
use crate::path;
use crate::router;
use crate::router::{AuditReason, Decision, DecisionView, IncomingMessage};
use crate::text;
use crate::worker::{Job, JobView};
use vstd::prelude::*;

verus! {

/// How many characters of a message that was turned away are noted.
pub const PREVIEW_CHARS: usize = 100;

/// How many seconds the worker has to stop, once it is told to.
pub const SHUTDOWN_TIMEOUT: u64 = 20;

// ── Messages ──────────────────────────────────────────────────────────

/// Whether a decision is a job for the worker.
pub open spec fn routable(decision: DecisionView) -> bool {
    decision is Command || decision is Prompt
}

/// The job that a routable decision is.
pub open spec fn job_for(decision: DecisionView) -> JobView {
    match decision {
        DecisionView::Command(CommandView::New) => JobView::New,
        DecisionView::Command(CommandView::Abort) => JobView::Abort,
        DecisionView::Command(CommandView::Session) => JobView::Session,
        DecisionView::Command(CommandView::Model(arg)) => JobView::Model(arg),
        DecisionView::Command(CommandView::Thinking(arg)) => JobView::Thinking(arg),
        DecisionView::Prompt(prompt) => JobView::Prompt(prompt),
        _ => JobView::Shutdown,
    }
}

/// The job that a routable decision is.
pub fn to_job(decision: Decision) -> (job: Job)
    requires
        routable(decision@),
    ensures
        job@ == job_for(decision@),
{
    match decision {
        Decision::Command(Command::New) => Job::New,
        Decision::Command(Command::Abort) => Job::Abort,
        Decision::Command(Command::Session) => Job::Session,
        Decision::Command(Command::Model(arg)) => Job::Model(arg),
        Decision::Command(Command::Thinking(arg)) => Job::Thinking(arg),
        Decision::Prompt(prompt) => Job::Prompt(prompt),
        _ => Job::Shutdown,
    }
}

/// What the gateway does with a message.
#[derive(Debug, Clone, PartialEq, Eq)]
pub enum Reaction {
    /// Nothing.
    Ignore,
    /// Note that it was turned away, and why.
    Audit { user_id: String, user_name: String, reason: AuditReason, preview: String },
    /// Answer it at once with this message.
    Reply(String),
    /// Hand this job to the worker.
    Enqueue(Job),
}

/// What a [`Reaction`] says.
pub enum ReactionView {
    Ignore,
    Audit { user_id: Seq<char>, user_name: Seq<char>, reason: AuditReason, preview: Seq<char> },
    Reply(Seq<char>),
    Enqueue(JobView),
}

impl View for Reaction {
    type V = ReactionView;

    open spec fn view(&self) -> ReactionView {
        match *self {
            Reaction::Ignore => ReactionView::Ignore,
            Reaction::Audit { user_id, user_name, reason, preview } => ReactionView::Audit {
                user_id: user_id@,
                user_name: user_name@,
                reason,
                preview: preview@,
            },
            Reaction::Reply(message) => ReactionView::Reply(message@),
            Reaction::Enqueue(job) => ReactionView::Enqueue(job@),
        }
    }
}

/// The first characters of a message.
pub open spec fn preview(content: Seq<char>) -> Seq<char> {
    if content.len() > PREVIEW_CHARS {
        content.take(PREVIEW_CHARS as int)
    } else {
        content
    }
}

/// What the gateway does with `msg`.
pub open spec fn reaction(
    allowed_user: Option<Seq<char>>,
    bot_id: Seq<char>,
    prefix: char,
    msg: IncomingMessage,
) -> ReactionView {
    let c = router::classified(allowed_user, bot_id, prefix, msg);
    match c.decision {
        DecisionView::Drop => match c.audit {
            Some(reason) => ReactionView::Audit {
                user_id: msg.author_id@,
                user_name: msg.author_name@,
                reason,
                preview: preview(msg.content@),
            },
            None => ReactionView::Ignore,
        },
        DecisionView::RejectAttachments => ReactionView::Reply(
            crate::format::system_text("attachments are not supported"@),
        ),
        DecisionView::UnknownCommand => ReactionView::Reply(
            crate::format::system_text(crate::format::commands_text(prefix)),
        ),
        decision => ReactionView::Enqueue(job_for(decision)),
    }
}

/// What the gateway does with `msg`: turned-away messages are noted or
/// ignored, attachments and unknown commands are answered at once, and the
/// rest is handed to the worker.
pub fn react(allowed_user: Option<&str>, bot_id: &str, prefix: char, msg: &IncomingMessage) -> (r:
    Reaction)
    ensures
        r@ == reaction(router::known(allowed_user), bot_id@, prefix, *msg),
{
    let classification = router::classify(allowed_user, bot_id, prefix, msg);
    match classification.decision {
        Decision::Drop => match classification.audit {
            Some(reason) => {
                let chars = text::chars_of(msg.content.as_str());
                let to: usize = if chars.len() > PREVIEW_CHARS {
                    PREVIEW_CHARS
                } else {
                    chars.len()
                };
                let shown = text::text_of(&chars, 0, to);
                assert(shown@ =~= preview(msg.content@));
                Reaction::Audit {
                    user_id: msg.author_id.as_str().to_owned(),
                    user_name: msg.author_name.as_str().to_owned(),
                    reason,
                    preview: shown,
                }
            },
            None => Reaction::Ignore,
        },
        Decision::RejectAttachments => Reaction::Reply(
            crate::format::system(crate::format::attachments_rejected()),
        ),
        Decision::UnknownCommand => Reaction::Reply(
            crate::format::system(crate::format::commands_list_for(prefix).as_str()),
        ),
        decision => Reaction::Enqueue(to_job(decision)),
    }
}

/// Only messages of the allowed user, and of no bot, are answered or handed
/// to the worker.
pub proof fn law_strangers_get_nothing(
    allowed_user: Option<Seq<char>>,
    bot_id: Seq<char>,
    prefix: char,
    msg: IncomingMessage,
)
    requires
        msg.is_bot || allowed_user != Some(msg.author_id@),
    ensures
        ({
            let r = reaction(allowed_user, bot_id, prefix, msg);
            &&& !(r is Reply)
            &&& !(r is Enqueue)
            &&& r is Ignore <==> msg.is_bot
        }),
{
}

/// No message makes the gateway shut down.
pub proof fn law_no_message_shuts_down(
    allowed_user: Option<Seq<char>>,
    bot_id: Seq<char>,
    prefix: char,
    msg: IncomingMessage,
)
    ensures
        reaction(allowed_user, bot_id, prefix, msg) != ReactionView::Enqueue(JobView::Shutdown),
{
}

/// Plain text of the allowed user, without mentions of the bot, goes to `pi`
/// as it is, but for the white space around it.
pub proof fn law_plain_text_goes_to_pi(bot_id: Seq<char>, prefix: char, msg: IncomingMessage)
    requires
        !msg.is_bot,
        !msg.has_attachments,
        !text::occurs(msg.content@, router::mention("<@!"@, bot_id)),
        !text::occurs(msg.content@, router::mention("<@"@, bot_id)),
        text::trim(msg.content@).len() > 0,
        text::trim(msg.content@)[0] != prefix,
    ensures
        reaction(Some(msg.author_id@), bot_id, prefix, msg) == ReactionView::Enqueue(
            JobView::Prompt(text::trim(msg.content@)),
        ),
{
    router::law_other_mentions_kept(msg.content@, bot_id);
    text::lemma_trim_twice(msg.content@);
}

// ── Start ─────────────────────────────────────────────────────────────

/// Whether any of `args` asks for the version.
pub open spec fn asks_version(args: Seq<Seq<char>>) -> bool {
    exists|i: int|
        0 <= i < args.len() && (#[trigger] args[i] == "--version"@ || args[i] == "-V"@)
}

/// Whether any of `args` asks for the version.
pub fn version_wanted(args: &Vec<String>) -> (r: bool)
    ensures
        r == asks_version(text::texts(args@)),
{
    let mut i: usize = 0;
    while i < args.len()
        invariant
            i <= args@.len(),
            forall|j: int|
                0 <= j < i ==> (#[trigger] text::texts(args@)[j]) != "--version"@ && text::texts(
                    args@,
                )[j] != "-V"@,
        decreases args@.len() - i,
    {
        assert(text::texts(args@)[i as int] == args@[i as int]@);
        if text::same(args[i].as_str(), "--version") || text::same(args[i].as_str(), "-V") {
            return true;
        }
        i = i + 1;
    }
    false
}

/// The program's name and version.
pub fn version_line(name: &str, version: &str) -> (s: String)
    ensures
        s@ == name@ + " "@ + version@,
{
    let mut s = name.to_owned();
    s.append(" ");
    s.append(version);
    s
}

/// How the gateway starts.
#[derive(Debug, Clone, PartialEq, Eq)]
pub enum Startup {
    /// The owner is greeted with this message first.
    Greet { user_id: u64, message: String },
    /// There is no owner: messages are noted but not processed.
    Lockdown,
}

/// The message that greets the owner.
pub open spec fn greeting(cwd: Seq<char>, user: Seq<char>) -> Seq<char> {
    crate::format::system_text(crate::format::startup_text(cwd, user))
}

/// How the gateway starts: with a greeting where there is an owner, whose id
/// must be a number; and in lockdown where there is none.
pub fn startup(config: &Config) -> (r: Result<Startup, String>)
    ensures
        match (r, config.allowed_user) {
            (Ok(Startup::Greet { user_id, message }), Some(user)) => {
                &&& text::number(user@) == Some(user_id as nat)
                &&& message@ == greeting(path::path_text(config.cwd), user@)
            },
            (Err(e), Some(user)) => {
                &&& text::number(user@) is None
                &&& e@ == "PIAC_DISCORD_ALLOWED_USER_ID must be a numeric Discord user id, got: "@
                    + user@
            },
            (Ok(Startup::Lockdown), None) => true,
            _ => false,
        },
{
    match &config.allowed_user {
        Some(user) => match text::parsed_number(user.as_str()) {
            Some(user_id) => {
                let notice = crate::format::startup(
                    path::shown(&config.cwd).as_str(),
                    user.as_str(),
                );
                Ok(Startup::Greet { user_id, message: crate::format::system(notice.as_str()) })
            },
            None => {
                let mut e =
                    "PIAC_DISCORD_ALLOWED_USER_ID must be a numeric Discord user id, got: ".to_owned();
                e.append(user.as_str());
                Err(e)
            },
        },
        None => Ok(Startup::Lockdown),
    }
}

// ── What holds of every message and start ─────────────────────────────

/// Each command and each prompt is the job of the same name with the same
/// argument, so no two of them are the same job.
pub proof fn law_each_job(
    arg: Option<Seq<char>>,
    prompt: Seq<char>,
    one: DecisionView,
    other: DecisionView,
)
    ensures
        job_for(DecisionView::Command(CommandView::New)) == JobView::New,
        job_for(DecisionView::Command(CommandView::Abort)) == JobView::Abort,
        job_for(DecisionView::Command(CommandView::Session)) == JobView::Session,
        job_for(DecisionView::Command(CommandView::Model(arg))) == JobView::Model(arg),
        job_for(DecisionView::Command(CommandView::Thinking(arg))) == JobView::Thinking(arg),
        job_for(DecisionView::Prompt(prompt)) == JobView::Prompt(prompt),
        routable(one) <==> one is Command || one is Prompt,
        routable(one) && routable(other) && job_for(one) == job_for(other) ==> one == other,
{
}

/// What the allowed user sends as the prefix, the name of a command or its
/// first letter in any case, and an argument or none, is handed to the worker
/// as the job of that name with that argument. Any other word behind the prefix
/// is answered with the list of commands.
pub proof fn law_each_command_is_its_job(
    bot_id: Seq<char>,
    prefix: char,
    msg: IncomingMessage,
    word: Seq<char>,
    rest: Seq<char>,
)
    requires
        !msg.is_bot,
        !msg.has_attachments,
        !text::white(prefix),
        forall|i: int| 0 <= i < word.len() ==> !text::white(#[trigger] word[i]),
        rest.len() == 0 || text::white(rest[0]),
        msg.content@ == seq![prefix] + word + rest,
        !text::occurs(msg.content@, router::mention("<@!"@, bot_id)),
        !text::occurs(msg.content@, router::mention("<@"@, bot_id)),
    ensures
        ({
            let r = reaction(Some(msg.author_id@), bot_id, prefix, msg);
            let name = text::lower(word);
            let arg = if text::trim(rest).len() == 0 {
                None
            } else {
                Some(text::trim(rest))
            };
            &&& name == "new"@ || name == "n"@ ==> r == ReactionView::Enqueue(JobView::New)
            &&& name == "abort"@ || name == "a"@ ==> r == ReactionView::Enqueue(JobView::Abort)
            &&& name == "session"@ || name == "s"@ ==> r == ReactionView::Enqueue(JobView::Session)
            &&& name == "model"@ || name == "m"@ ==> r == ReactionView::Enqueue(
                JobView::Model(arg),
            )
            &&& name == "thinking"@ || name == "t"@ ==> r == ReactionView::Enqueue(
                JobView::Thinking(arg),
            )
            &&& name != "new"@ && name != "n"@ && name != "abort"@ && name != "a"@ && name
                != "session"@ && name != "s"@ && name != "model"@ && name != "m"@ && name
                != "thinking"@ && name != "t"@ ==> r == ReactionView::Reply(
                seq!['['] + "pi-agent-connect"@ + seq![']', ' '] + "commands: "@ + seq![prefix]
                    + "new "@ + seq![prefix] + "abort "@ + seq![prefix] + "session "@ + seq![prefix]
                    + "model "@ + seq![prefix] + "thinking"@,
            )
        }),
{
    let content = msg.content@;
    router::law_other_mentions_kept(content, bot_id);
    let message = text::trim(content);
    commands::law_each_command(prefix, word, rest);
    commands::law_outer_space_ignored(content, prefix);
    commands::law_plain_text(content, prefix);
    commands::law_command_form(prefix, word, rest);
    assert(message.len() > 0) by {
        text::law_trim(content);
        let from = choose|from: int| #[trigger] text::stands_in(content, message, from);
        if message.len() == 0 {
            assert(content[0] == prefix);
            assert(0 < from || from + message.len() <= 0);
            assert(text::white(content[0]));
        }
    }
    assert(message[0] == prefix) by {
        text::law_trim(content);
        let from = choose|from: int| #[trigger] text::stands_in(content, message, from);
        if from > 0 {
            assert(text::white(content[0]));
        }
        assert(message[0] == content[0]);
    }
    reveal_strlit("[pi-agent-connect]");
    reveal_strlit("pi-agent-connect");
    reveal_strlit(" ");
    assert(crate::format::system_text(crate::format::commands_text(prefix)) =~= seq!['[']
        + "pi-agent-connect"@ + seq![']', ' '] + "commands: "@ + seq![prefix] + "new "@
        + seq![prefix] + "abort "@ + seq![prefix] + "session "@ + seq![prefix] + "model "@
        + seq![prefix] + "thinking"@);
}

/// A message of the allowed user that has attachments is answered that they
/// are not supported, whatever else is in it; nothing else is answered so.
pub proof fn law_attachments_answered(
    allowed_user: Option<Seq<char>>,
    bot_id: Seq<char>,
    prefix: char,
    msg: IncomingMessage,
)
    requires
        !msg.is_bot,
        allowed_user == Some(msg.author_id@),
    ensures
        msg.has_attachments ==> reaction(allowed_user, bot_id, prefix, msg) == ReactionView::Reply(
            "[pi-agent-connect] attachments are not supported"@,
        ),
        !(reaction(allowed_user, bot_id, prefix, msg) is Audit),
{
    reveal_strlit("[pi-agent-connect]");
    reveal_strlit(" ");
    reveal_strlit("attachments are not supported");
    reveal_strlit("[pi-agent-connect] attachments are not supported");
    assert(crate::format::system_text("attachments are not supported"@)
        =~= "[pi-agent-connect] attachments are not supported"@);
}

/// Of whoever is turned away it is noted who they are, why, and how their
/// message begins: its first hundred characters, or all of it.
pub proof fn law_audit(
    allowed_user: Option<Seq<char>>,
    bot_id: Seq<char>,
    prefix: char,
    msg: IncomingMessage,
)
    requires
        !msg.is_bot,
        allowed_user != Some(msg.author_id@),
    ensures
        match reaction(allowed_user, bot_id, prefix, msg) {
            ReactionView::Audit { user_id, user_name, reason, preview } => {
                &&& user_id == msg.author_id@
                &&& user_name == msg.author_name@
                &&& reason == (if allowed_user is None {
                    AuditReason::Lockdown
                } else {
                    AuditReason::NotWhitelisted
                })
                &&& preview.is_prefix_of(msg.content@)
                &&& preview.len() == (if msg.content@.len() < 100 {
                    msg.content@.len()
                } else {
                    100
                })
            },
            _ => false,
        },
{
    let content = msg.content@;
    assert(preview(content).is_prefix_of(content)) by {
        assert(content.subrange(0, preview(content).len() as int) =~= preview(content));
    }
}

/// The version is asked for by either of its two flags, wherever it stands
/// among the arguments, and by nothing else.
pub proof fn law_version_flags(before: Seq<Seq<char>>, after: Seq<Seq<char>>, args: Seq<Seq<char>>)
    ensures
        asks_version(before.push("--version"@) + after),
        asks_version(before.push("-V"@) + after),
        !args.contains("--version"@) && !args.contains("-V"@) ==> !asks_version(args),
{
    let long = before.push("--version"@) + after;
    assert(long[before.len() as int] == "--version"@);
    let short = before.push("-V"@) + after;
    assert(short[before.len() as int] == "-V"@);
    if asks_version(args) {
        let i = choose|i: int|
            0 <= i < args.len() && (#[trigger] args[i] == "--version"@ || args[i] == "-V"@);
        assert(args.contains(args[i]));
    }
}

/// The owner is told where `pi` runs and for whom.
pub proof fn law_greeting(cwd: Seq<char>, user: Seq<char>)
    ensures
        greeting(cwd, user) == "[pi-agent-connect] pico started: cwd="@ + cwd + ", user="@ + user,
{
    reveal_strlit("[pi-agent-connect]");
    reveal_strlit(" ");
    reveal_strlit("pico started: cwd=");
    reveal_strlit("[pi-agent-connect] pico started: cwd=");
    assert(greeting(cwd, user) =~= "[pi-agent-connect] pico started: cwd="@ + cwd + ", user="@
        + user);
}

/// What a reaction says is what it is.
pub proof fn law_reaction_view(r: Reaction)
    ensures
        match (r, r@) {
            (Reaction::Ignore, ReactionView::Ignore) => true,
            (Reaction::Reply(message), ReactionView::Reply(v)) => v == message@,
            (Reaction::Enqueue(job), ReactionView::Enqueue(v)) => v == job@,
            (
                Reaction::Audit { user_id, user_name, reason, preview },
                ReactionView::Audit { user_id: i, user_name: n, reason: w, preview: p },
            ) => i == user_id@ && n == user_name@ && w == reason && p == preview@,
            _ => false,
        },
{
}

/// What is done with a message follows its classification: a prompt is handed
/// on as it is, a command as its job, an unknown command and attachments are
/// answered, and what is dropped is noted exactly where there is a reason to.
pub proof fn law_reaction(
    allowed_user: Option<Seq<char>>,
    bot_id: Seq<char>,
    prefix: char,
    msg: IncomingMessage,
)
    ensures
        ({
            let c = router::classified(allowed_user, bot_id, prefix, msg);
            let r = reaction(allowed_user, bot_id, prefix, msg);
            &&& r is Ignore <==> c.decision is Drop && c.audit is None
            &&& r is Audit <==> c.decision is Drop && c.audit is Some
            &&& r is Reply <==> c.decision is RejectAttachments || c.decision is UnknownCommand
            &&& c.decision is Prompt ==> r == ReactionView::Enqueue(
                JobView::Prompt(c.decision->Prompt_0),
            )
            &&& c.decision is Command ==> match c.decision->Command_0 {
                CommandView::New => r == ReactionView::Enqueue(JobView::New),
                CommandView::Abort => r == ReactionView::Enqueue(JobView::Abort),
                CommandView::Session => r == ReactionView::Enqueue(JobView::Session),
                CommandView::Model(arg) => r == ReactionView::Enqueue(JobView::Model(arg)),
                CommandView::Thinking(arg) => r == ReactionView::Enqueue(JobView::Thinking(arg)),
            }
            &&& c.decision is UnknownCommand ==> r == ReactionView::Reply(
                "[pi-agent-connect] commands: "@ + seq![prefix] + "new "@ + seq![prefix] + "abort "@
                    + seq![prefix] + "session "@ + seq![prefix] + "model "@ + seq![prefix]
                    + "thinking"@,
            )
        }),
{
    reveal_strlit("[pi-agent-connect]");
    reveal_strlit(" ");
    reveal_strlit("commands: ");
    reveal_strlit("[pi-agent-connect] commands: ");
    assert(crate::format::system_text(crate::format::commands_text(prefix))
        =~= "[pi-agent-connect] commands: "@ + seq![prefix] + "new "@ + seq![prefix] + "abort "@
        + seq![prefix] + "session "@ + seq![prefix] + "model "@ + seq![prefix] + "thinking"@);
}

/// The patience at the end, in seconds.
pub proof fn law_shutdown_patience()
    ensures
        SHUTDOWN_TIMEOUT == 20,
{
}

} // verus!
