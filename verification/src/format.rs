//! The texts that the gateway sends: its own notices, and long messages cut
//! into pieces that the chat takes.

use crate::agent::{AgentError, AgentErrorView, SessionState, SessionStateView, SessionStats};
use crate::json;
use crate::text;
use vstd::prelude::*;

verus! {

/// What stands in front of a message of the program under its short name.
pub const PREFIX: &'static str = "[pico]";

/// What stands in front of every message that comes from the gateway itself;
/// what `pi` says is forwarded without it.
pub const SYSTEM_PREFIX: &'static str = "[pi-agent-connect]";

/// The most bytes that one chat message may take.
pub const DISCORD_MAX: usize = 2000;

/// The most bytes of an error output that are shown.
pub const STDERR_MAX: usize = 300;

/// How many digits of the cost stand behind the point.
pub const COST_PLACES: usize = 4;

/// `prefix`, a space and `message`.
pub open spec fn prefixed(prefix: Seq<char>, message: Seq<char>) -> Seq<char> {
    prefix + " "@ + message
}

/// A message of the gateway itself.
pub open spec fn system_text(message: Seq<char>) -> Seq<char> {
    prefixed(SYSTEM_PREFIX@, message)
}

/// `[pico]` in front of `text`.
pub fn pico(text: &str) -> (s: String)
    ensures
        s@ == prefixed(PREFIX@, text@),
{
    let mut s = PREFIX.to_owned();
    s.append(" ");
    s.append(text);
    s
}

/// `text` as a message of the gateway itself.
pub fn system(text: &str) -> (s: String)
    ensures
        s@ == system_text(text@),
{
    let mut s = SYSTEM_PREFIX.to_owned();
    s.append(" ");
    s.append(text);
    s
}

/// The most bytes that one chat message may take.
pub fn discord_max() -> (n: usize)
    ensures
        n == DISCORD_MAX,
{
    DISCORD_MAX
}

// ── Command confirmations ─────────────────────────────────────────────

/// What answers a request for a new session.
pub fn new_ack() -> (s: &'static str)
    ensures
        s@ == "ok, next message will start a new session"@,
{
    "ok, next message will start a new session"
}

/// How many queued messages were dropped.
pub open spec fn cleared_text(n: nat) -> Seq<char> {
    if n == 1 {
        "cleared 1 queued message"@
    } else {
        "cleared "@ + text::decimal(n) + " queued messages"@
    }
}

/// Whether a task was stopped.
pub open spec fn aborted_text(was_running: bool) -> Seq<char> {
    if was_running {
        "aborted running task"@
    } else {
        "nothing was running"@
    }
}

/// What answers a request to stop.
pub open spec fn abort_text(was_running: bool, cleared: nat) -> Seq<char> {
    if cleared > 0 {
        aborted_text(was_running) + "; "@ + cleared_text(cleared)
    } else {
        aborted_text(was_running)
    }
}

/// What answers a request to stop: whether a task was stopped, and how many
/// queued messages were dropped, where any were.
pub fn abort_ack(was_running: bool, cleared: usize) -> (s: String)
    ensures
        s@ == abort_text(was_running, cleared as nat),
{
    let mut s = if was_running {
        "aborted running task".to_owned()
    } else {
        "nothing was running".to_owned()
    };
    if cleared > 0 {
        s.append("; ");
        s.append(cleared_msg(cleared).as_str());
    }
    s
}

/// How many queued messages were dropped.
pub fn cleared_msg(n: usize) -> (s: String)
    ensures
        s@ == cleared_text(n as nat),
{
    if n == 1 {
        "cleared 1 queued message".to_owned()
    } else {
        let mut s = "cleared ".to_owned();
        s.append(text::decimal_text(n as u64).as_str());
        s.append(" queued messages");
        s
    }
}

/// The command names, each behind a slash.
pub fn commands_list() -> (s: &'static str)
    ensures
        s@ == "commands: /new /abort /session /model /thinking"@,
{
    "commands: /new /abort /session /model /thinking"
}

/// The command names, each behind `prefix`.
pub open spec fn commands_text(prefix: char) -> Seq<char> {
    "commands: "@.push(prefix) + "new "@.push(prefix) + "abort "@.push(prefix) + "session "@.push(
        prefix,
    ) + "model "@.push(prefix) + "thinking"@
}

/// The command names, each behind the prefix that commands have.
pub fn commands_list_for(prefix: char) -> (s: String)
    ensures
        s@ == commands_text(prefix),
{
    let mut s = "commands: ".to_owned();
    s.push(prefix);
    s.append("new ");
    s.push(prefix);
    s.append("abort ");
    s.push(prefix);
    s.append("session ");
    s.push(prefix);
    s.append("model ");
    s.push(prefix);
    s.append("thinking");
    assert(s@ =~= commands_text(prefix));
    s
}

/// With a slash in front of the commands the two lists read the same.
pub proof fn law_commands_list_slash()
    ensures
        commands_text('/') == "commands: /new /abort /session /model /thinking"@,
{
    reveal_strlit("commands: ");
    reveal_strlit("new ");
    reveal_strlit("abort ");
    reveal_strlit("session ");
    reveal_strlit("model ");
    reveal_strlit("thinking");
    reveal_strlit("commands: /new /abort /session /model /thinking");
    assert(commands_text('/') =~= "commands: /new /abort /session /model /thinking"@);
}

/// How many messages wait.
pub open spec fn queued_text(backlog: nat) -> Seq<char> {
    "queued (backlog: "@ + text::decimal(backlog) + ")"@
}

/// How many messages wait.
pub fn queued(backlog: usize) -> (s: String)
    ensures
        s@ == queued_text(backlog as nat),
{
    let mut s = "queued (backlog: ".to_owned();
    s.append(text::decimal_text(backlog as u64).as_str());
    s.append(")");
    s
}

/// What answers a message with files.
pub fn attachments_rejected() -> (s: &'static str)
    ensures
        s@ == "attachments are not supported"@,
{
    "attachments are not supported"
}

/// The greeting at the start.
pub open spec fn startup_text(cwd: Seq<char>, user: Seq<char>) -> Seq<char> {
    "pico started: cwd="@ + cwd + ", user="@ + user
}

/// The greeting at the start.
pub fn startup(cwd: &str, user: &str) -> (s: String)
    ensures
        s@ == startup_text(cwd@, user@),
{
    let mut s = "pico started: cwd=".to_owned();
    s.append(cwd);
    s.append(", user=");
    s.append(user);
    s
}

/// The farewell at the end.
pub fn shutting_down() -> (s: &'static str)
    ensures
        s@ == "pico shutting down"@,
{
    "pico shutting down"
}

/// A fault of the gateway itself.
pub open spec fn internal_error_text(msg: Seq<char>) -> Seq<char> {
    "internal error: "@ + msg
}

/// A fault of the gateway itself.
pub fn internal_error(msg: &str) -> (s: String)
    ensures
        s@ == internal_error_text(msg@),
{
    let mut s = "internal error: ".to_owned();
    s.append(msg);
    s
}

/// A run that took too long.
pub open spec fn timed_out_text(seconds: nat) -> Seq<char> {
    "pi timed out after "@ + text::decimal(seconds) + "s, aborted"@
}

/// A run that took too long.
pub fn prompt_timed_out(seconds: u64) -> (s: String)
    ensures
        s@ == timed_out_text(seconds as nat),
{
    let mut s = "pi timed out after ".to_owned();
    s.append(text::decimal_text(seconds).as_str());
    s.append("s, aborted");
    s
}

/// The model that was chosen.
pub open spec fn model_set_text(model_ref: Seq<char>) -> Seq<char> {
    "model set to "@ + model_ref
}

/// The model that was chosen.
pub fn model_set(model_ref: &str) -> (s: String)
    ensures
        s@ == model_set_text(model_ref@),
{
    let mut s = "model set to ".to_owned();
    s.append(model_ref);
    s
}

/// The models to choose from.
pub open spec fn models_text(models: Seq<Seq<char>>) -> Seq<char> {
    "available models: "@ + text::join(models, ", "@)
}

/// The models to choose from.
pub fn models_list(models: &[String]) -> (s: String)
    ensures
        s@ == models_text(text::texts(models@)),
{
    let mut s = "available models: ".to_owned();
    s.append(text::joined(models, ", ").as_str());
    s
}

/// The thinking level that was chosen.
pub open spec fn thinking_set_text(level: Seq<char>) -> Seq<char> {
    "thinking level set to "@ + level
}

/// The thinking level that was chosen.
pub fn thinking_set(level: &str) -> (s: String)
    ensures
        s@ == thinking_set_text(level@),
{
    let mut s = "thinking level set to ".to_owned();
    s.append(level);
    s
}

/// The thinking levels to choose from.
pub open spec fn levels_text(levels: Seq<Seq<char>>) -> Seq<char> {
    "available levels: "@ + text::join(levels, ", "@)
}

/// The thinking levels to choose from.
pub fn levels_list(levels: &[String]) -> (s: String)
    ensures
        s@ == levels_text(text::texts(levels@)),
{
    let mut s = "available levels: ".to_owned();
    s.append(text::joined(levels, ", ").as_str());
    s
}

// ── Errors and session info ───────────────────────────────────────────

/// `s` where it takes at most `max` bytes, else as many of its first
/// characters as do, and an ellipsis.
pub open spec fn shortened(s: Seq<char>, max: nat) -> Seq<char> {
    if text::byte_len(s) <= max {
        s
    } else {
        s.take(text::fitting(s, max) as int) + "…"@
    }
}

/// `s` cut to at most `max` bytes, with an ellipsis where something was cut.
pub fn truncate(s: &str, max: usize) -> (r: String)
    ensures
        r@ == shortened(s@, max as nat),
{
    if s.as_bytes().len() <= max {
        return s.to_owned();
    }
    let chars = text::chars_of(s);
    let mut i: usize = 0;
    let mut used: usize = 0;
    assert(s@.skip(0) =~= s@);
    while i < chars.len() && text::width_of(chars[i]) <= max - used
        invariant
            i <= chars@.len(),
            chars@ == s@,
            used <= max,
            text::fitting(s@, max as nat) == i + text::fitting(
                s@.skip(i as int),
                (max - used) as nat,
            ),
        decreases chars@.len() - i,
    {
        assert(s@.skip(i as int)[0] == chars@[i as int]);
        assert(s@.skip(i as int).drop_first() =~= s@.skip(i + 1));
        used = used + text::width_of(chars[i]);
        i = i + 1;
    }
    let mut r = text::text_of(&chars, 0, i);
    assert(chars@.subrange(0, i as int) =~= s@.take(i as int));
    r.append("…");
    r
}

/// What is said of an error of `pi`.
pub open spec fn agent_error_text(e: AgentErrorView) -> Seq<char> {
    match e {
        AgentErrorView::SpawnFailed(msg) => "failed to start pi: "@ + msg,
        AgentErrorView::NonZeroExit { code, stderr } => {
            match code {
                Some(c) => "pi exited with code "@ + text::signed_decimal(c as int) + ": "@
                    + shortened(stderr, STDERR_MAX as nat),
                None => "pi exited with error: "@ + shortened(stderr, STDERR_MAX as nat),
            }
        },
        AgentErrorView::EmptyOutput => "pi finished without output"@,
        AgentErrorView::Rpc { command, error } => "pi rejected: "@ + error,
        AgentErrorView::RpcTimeout { command, seconds } => "pi rejected: timed out after "@
            + text::decimal(seconds as nat) + "s"@,
    }
}

/// What is said of an error of `pi`.
pub fn agent_error(e: &AgentError) -> (s: String)
    ensures
        s@ == agent_error_text(e@),
{
    match e {
        AgentError::SpawnFailed(msg) => {
            let mut s = "failed to start pi: ".to_owned();
            s.append(msg.as_str());
            s
        },
        AgentError::NonZeroExit { code, stderr } => {
            let stderr = truncate(stderr.as_str(), STDERR_MAX);
            match code {
                Some(c) => {
                    let mut s = "pi exited with code ".to_owned();
                    s.append(text::signed_decimal_text(*c).as_str());
                    s.append(": ");
                    s.append(stderr.as_str());
                    s
                },
                None => {
                    let mut s = "pi exited with error: ".to_owned();
                    s.append(stderr.as_str());
                    s
                },
            }
        },
        AgentError::EmptyOutput => "pi finished without output".to_owned(),
        AgentError::Rpc { error, .. } => {
            let mut s = "pi rejected: ".to_owned();
            s.append(error.as_str());
            s
        },
        AgentError::RpcTimeout { seconds, .. } => {
            let mut s = "pi rejected: timed out after ".to_owned();
            s.append(text::decimal_text(*seconds).as_str());
            s.append("s");
            s
        },
    }
}

/// A text, or `unknown` where there is none.
pub open spec fn or_unknown(s: Option<Seq<char>>) -> Seq<char> {
    match s {
        Some(t) => t,
        None => "unknown"@,
    }
}

/// The session, behind the word that says which.
pub open spec fn state_text(head: Seq<char>, state: SessionStateView) -> Seq<char> {
    head + "session: id="@ + state.session_id + " file="@ + state.session_file + " model="@
        + or_unknown(state.model) + " thinking="@ + or_unknown(state.thinking)
}

/// The cost, or `n/a` where there is none.
pub open spec fn cost_text(cost: Option<serde_json::Number>) -> Seq<char> {
    match cost {
        Some(number) => match json::fixed_point(number, COST_PLACES as nat) {
            Some(t) => t,
            None => "n/a"@,
        },
        None => "n/a"@,
    }
}

/// What is known of the use of a session.
pub open spec fn known_stats(stats: Option<&SessionStats>) -> Option<SessionStats> {
    match stats {
        Some(u) => Some(*u),
        None => None,
    }
}

/// The session and what it has used, where that is known, with its cost
/// written as `cost`.
pub open spec fn session_text_with(
    state: SessionStateView,
    stats: Option<SessionStats>,
    cost: Seq<char>,
) -> Seq<char> {
    let base = state_text(""@, state);
    match stats {
        Some(u) => base + " tokens: in="@ + text::decimal(u.tokens_input as nat) + " out="@
            + text::decimal(u.tokens_output as nat) + " cache="@ + text::decimal(
            u.tokens_cache_read as nat,
        ) + " cost="@ + cost,
        None => base,
    }
}

/// The session and what it has used, where that is known.
pub open spec fn session_text(state: SessionStateView, stats: Option<SessionStats>) -> Seq<char> {
    match stats {
        Some(u) => session_text_with(state, stats, cost_text(u.cost)),
        None => session_text_with(state, stats, ""@),
    }
}

/// A session that has begun.
pub open spec fn new_session_text(state: SessionStateView) -> Seq<char> {
    state_text("new "@, state)
}

fn push_or_unknown(out: &mut String, s: &Option<String>)
    ensures
        final(out)@ == old(out)@ + or_unknown(text::optional(*s)),
{
    match s {
        Some(t) => out.append(t.as_str()),
        None => out.append("unknown"),
    }
}

fn state_line(head: &str, state: &SessionState) -> (s: String)
    ensures
        s@ == state_text(head@, state@),
{
    let mut s = head.to_owned();
    s.append("session: id=");
    s.append(state.session_id.as_str());
    s.append(" file=");
    s.append(state.session_file.as_str());
    s.append(" model=");
    push_or_unknown(&mut s, &state.model);
    s.append(" thinking=");
    push_or_unknown(&mut s, &state.thinking);
    s
}

/// The cost with four digits behind the point, or `n/a` where there is none.
pub fn cost_line(cost: &Option<serde_json::Number>) -> (s: String)
    ensures
        s@ == cost_text(*cost),
{
    match cost {
        Some(number) => match json::write_fixed(number, COST_PLACES) {
            Some(t) => t,
            None => "n/a".to_owned(),
        },
        None => "n/a".to_owned(),
    }
}

/// The session and what it has used, where that is known, with its cost
/// written as `cost`.
pub fn session_info_with(state: &SessionState, stats: Option<&SessionStats>, cost: &str) -> (s:
    String)
    ensures
        s@ == session_text_with(state@, known_stats(stats), cost@),
{
    let mut s = state_line("", state);
    match stats {
        Some(u) => {
            s.append(" tokens: in=");
            s.append(text::decimal_text(u.tokens_input).as_str());
            s.append(" out=");
            s.append(text::decimal_text(u.tokens_output).as_str());
            s.append(" cache=");
            s.append(text::decimal_text(u.tokens_cache_read).as_str());
            s.append(" cost=");
            s.append(cost);
        },
        None => {},
    }
    s
}

/// The session and what it has used, where that is known.
pub fn session_info(state: &SessionState, stats: Option<&SessionStats>) -> (s: String)
    ensures
        s@ == session_text(state@, known_stats(stats)),
{
    match stats {
        Some(u) => session_info_with(state, stats, cost_line(&u.cost).as_str()),
        None => session_info_with(state, stats, ""),
    }
}

/// A session that has begun.
pub fn new_session_info(state: &SessionState) -> (s: String)
    ensures
        s@ == new_session_text(state@),
{
    state_line("new ", state)
}

/// A shortened text takes at most the three bytes of the ellipsis more than
/// was allowed.
pub proof fn law_shortened_fits(s: Seq<char>, max: nat)
    ensures
        text::byte_len(shortened(s, max)) <= max + 3,
{
    text::lemma_fitting(s, max);
    let kept = s.take(text::fitting(s, max) as int);
    reveal_strlit("…");
    text::lemma_byte_len_push(kept, '…');
    assert(kept + "…"@ =~= kept.push('…'));
}

// ── Cutting a message into pieces ─────────────────────────────────────

/// How many characters of `s` a piece may take: those that fit in `max`
/// bytes, and one where not even that one fits.
pub open spec fn window(s: Seq<char>, max: nat) -> nat {
    if text::fitting(s, max) == 0 {
        1
    } else {
        text::fitting(s, max)
    }
}

/// The place behind the last line break of `s`, or 0 where it has none.
pub open spec fn after_last_break(s: Seq<char>) -> nat
    decreases s.len(),
{
    if s.len() == 0 {
        0
    } else if s.last() == '\n' {
        s.len()
    } else {
        after_last_break(s.drop_last())
    }
}

/// Where the first piece of `s` ends: behind the last line break that fits,
/// and where none does, behind the last character that fits.
pub open spec fn cut(s: Seq<char>, max: nat) -> nat {
    let fits = s.take(window(s, max) as int);
    if after_last_break(fits) == 0 {
        window(s, max)
    } else {
        after_last_break(fits)
    }
}

/// `s` without the line breaks it begins with.
pub open spec fn skip_breaks(s: Seq<char>) -> Seq<char>
    decreases s.len(),
{
    if s.len() > 0 && s[0] == '\n' {
        skip_breaks(s.drop_first())
    } else {
        s
    }
}

/// The pieces of `s`. Line breaks at the start of a piece that is not the
/// first are left out.
pub open spec fn pieces(s: Seq<char>, max: nat) -> Seq<Seq<char>>
    decreases s.len(),
{
    if text::byte_len(s) <= max {
        if s.len() == 0 {
            Seq::empty()
        } else {
            seq![s]
        }
    } else {
        proof {
            lemma_cut(s, max);
            lemma_skip_breaks(s.skip(cut(s, max) as int));
        }
        seq![s.take(cut(s, max) as int)] + pieces(skip_breaks(s.skip(cut(s, max) as int)), max)
    }
}

/// The messages that `s` is sent as.
pub open spec fn split(s: Seq<char>, max: nat) -> Seq<Seq<char>> {
    if text::byte_len(s) <= max {
        seq![s]
    } else {
        pieces(s, max)
    }
}

proof fn lemma_after_last_break(s: Seq<char>)
    ensures
        after_last_break(s) <= s.len(),
        after_last_break(s) > 0 ==> s[after_last_break(s) - 1] == '\n',
        forall|i: int| after_last_break(s) <= i < s.len() ==> s[i] != '\n',
    decreases s.len(),
{
    if s.len() > 0 && s.last() != '\n' {
        lemma_after_last_break(s.drop_last());
        assert forall|i: int| after_last_break(s) <= i < s.len() implies s[i] != '\n' by {
            if i < s.len() - 1 {
                assert(s[i] == s.drop_last()[i]);
            }
        }
    }
}

/// A piece of a message too long to be sent whole takes some of it.
pub proof fn lemma_cut(s: Seq<char>, max: nat)
    requires
        text::byte_len(s) > max,
    ensures
        1 <= cut(s, max) <= window(s, max) <= s.len(),
{
    text::lemma_fitting(s, max);
    assert(s.len() > 0) by {
        if s.len() == 0 {
            assert(text::byte_len(s) == 0);
        }
    }
    lemma_after_last_break(s.take(window(s, max) as int));
}

/// Only line breaks are left out at the start of a piece.
pub proof fn lemma_skip_breaks(s: Seq<char>)
    ensures
        skip_breaks(s).len() <= s.len(),
        skip_breaks(s) == s.skip(s.len() - skip_breaks(s).len()),
        forall|i: int| 0 <= i < s.len() - skip_breaks(s).len() ==> s[i] == '\n',
    decreases s.len(),
{
    if s.len() > 0 && s[0] == '\n' {
        let rest = s.drop_first();
        lemma_skip_breaks(rest);
        let k = s.len() - skip_breaks(s).len();
        assert(rest.skip(k - 1) =~= s.skip(k));
        assert forall|i: int| 0 <= i < k implies s[i] == '\n' by {
            if i > 0 {
                assert(s[i] == rest[i - 1]);
            }
        }
    } else {
        assert(s.skip(0) =~= s);
    }
}

/// Split a message into chunks of at most `max` bytes, preferring line
/// breaks. A single character that takes more than `max` bytes is a chunk of
/// its own.
pub fn split_message(text: &str, max: usize) -> (chunks: Vec<String>)
    requires
        max > 0 || text@.len() == 0,
    ensures
        text::texts(chunks@) == split(text@, max as nat),
{
    let mut chunks: Vec<String> = Vec::new();
    let mut left: usize = text.as_bytes().len();
    if left <= max {
        chunks.push(text.to_owned());
        assert(text::texts(chunks@) =~= split(text@, max as nat));
        return chunks;
    }
    let chars = text::chars_of(text);
    let n = chars.len();
    let mut start: usize = 0;
    assert(text@.skip(0) =~= text@);
    assert(Seq::<Seq<char>>::empty() + pieces(text@, max as nat) =~= pieces(text@, max as nat));
    assert(text::texts(chunks@) =~= Seq::<Seq<char>>::empty());
    assert(max > 0) by {
        text::lemma_byte_len_min(text@);
    }
    while left > max
        invariant
            max > 0,
            start <= n,
            n == chars@.len(),
            chars@ == text@,
            left == text::byte_len(text@.skip(start as int)),
            text::texts(chunks@) + pieces(text@.skip(start as int), max as nat) == pieces(
                text@,
                max as nat,
            ),
        decreases n - start,
    {
        let ghost rest = text@.skip(start as int);
        let ghost done = text::texts(chunks@);
        proof {
            lemma_cut(rest, max as nat);
        }
        let (end, used) = piece_end(&chars, start, max, left);
        chunks.push(text::text_of(&chars, start, end));
        proof {
            let k = cut(rest, max as nat) as int;
            assert(chars@.subrange(start as int, end as int) =~= rest.take(k));
            assert(text::texts(chunks@) =~= done.push(rest.take(k)));
            assert(rest.skip(k) =~= text@.skip(end as int));
            text::lemma_byte_len_split(rest, k);
            lemma_skip_breaks(rest.skip(k));
        }
        let ghost tail = skip_breaks(text@.skip(end as int));
        left = left - used;
        start = end;
        while start < n && chars[start] == '\n'
            invariant
                end <= start <= n,
                n == chars@.len(),
                chars@ == text@,
                left == text::byte_len(text@.skip(start as int)),
                skip_breaks(text@.skip(start as int)) == tail,
            decreases n - start,
        {
            let ghost here = text@.skip(start as int);
            assert(here.drop_first() =~= text@.skip(start + 1));
            left = left - 1;
            start = start + 1;
        }
        assert(text@.skip(start as int) == tail);
        assert(text::texts(chunks@) + pieces(tail, max as nat) =~= done + pieces(rest, max as nat));
    }
    let ghost rest = text@.skip(start as int);
    if start < n {
        let ghost done = text::texts(chunks@);
        chunks.push(text::text_of(&chars, start, n));
        assert(chars@.subrange(start as int, n as int) =~= rest);
        assert(text::texts(chunks@) =~= done + pieces(rest, max as nat));
    } else {
        assert(text::texts(chunks@) =~= text::texts(chunks@) + pieces(rest, max as nat));
    }
    chunks
}

/// Where the piece of `chars` that begins at `start` ends, and how many bytes
/// it takes, where all that is left takes `left` bytes.
fn piece_end(chars: &Vec<char>, start: usize, max: usize, left: usize) -> (r: (usize, usize))
    requires
        start < chars@.len(),
        left > max > 0,
        left == text::byte_len(chars@.skip(start as int)),
    ensures
        start < r.0 <= chars@.len(),
        r.0 - start == cut(chars@.skip(start as int), max as nat),
        r.1 == text::byte_len(chars@.subrange(start as int, r.0 as int)),
{
    let n = chars.len();
    let ghost rest = chars@.skip(start as int);
    let mut i: usize = start;
    let mut used: usize = 0;
    let mut line_end: usize = start;
    let mut line_used: usize = 0;
    assert(rest.take(0) =~= Seq::<char>::empty());
    assert(rest.skip(0) =~= rest);
    while i < n && text::width_of(chars[i]) <= max - used
        invariant
            start <= line_end <= i <= n,
            n == chars@.len(),
            rest == chars@.skip(start as int),
            used <= max,
            used == text::byte_len(rest.take(i - start)),
            text::fitting(rest, max as nat) == i - start + text::fitting(
                rest.skip(i - start),
                (max - used) as nat,
            ),
            line_end - start == after_last_break(rest.take(i - start)),
            line_used == text::byte_len(rest.take(line_end - start)),
        decreases n - i,
    {
        let ghost k = i - start;
        proof {
            assert(rest.skip(k)[0] == chars@[i as int]);
            assert(rest.skip(k).drop_first() =~= rest.skip(k + 1));
            assert(rest.take(k + 1).drop_last() =~= rest.take(k));
            assert(rest.take(k + 1) =~= rest.take(k).push(chars@[i as int]));
            text::lemma_byte_len_push(rest.take(k), chars@[i as int]);
        }
        used = used + text::width_of(chars[i]);
        if chars[i] == '\n' {
            line_end = i + 1;
            line_used = used;
        }
        i = i + 1;
    }
    proof {
        text::lemma_fitting(rest, max as nat);
        assert(text::fitting(rest, max as nat) == i - start);
    }
    if i == start {
        let ghost one = rest.take(1);
        proof {
            assert(one.drop_last() =~= Seq::<char>::empty());
            assert(one.drop_first() =~= Seq::<char>::empty());
            assert(chars@.subrange(start as int, start + 1) =~= one);
            assert(after_last_break(one) <= 1) by {
                lemma_after_last_break(one);
            }
        }
        (start + 1, text::width_of(chars[start]))
    } else if line_end > start {
        assert(chars@.subrange(start as int, line_end as int) =~= rest.take(line_end - start));
        (line_end, line_used)
    } else {
        assert(chars@.subrange(start as int, i as int) =~= rest.take(i - start));
        (i, used)
    }
}

// ── What holds of every cut message ───────────────────────────────────

/// No chunk takes more than `max` bytes, but for a chunk that is one single
/// character; and where `max` is at least 4, none does at all. There is always
/// a chunk, and only the empty message has an empty one.
pub proof fn law_chunks_fit(s: Seq<char>, max: nat)
    requires
        max > 0,
    ensures
        split(s, max).len() > 0,
        forall|i: int|
            0 <= i < split(s, max).len() ==> {
                let chunk = #[trigger] split(s, max)[i];
                &&& text::byte_len(chunk) <= max || chunk.len() == 1
                &&& max >= 4 ==> text::byte_len(chunk) <= max
                &&& s.len() > 0 ==> chunk.len() > 0
            },
{
    lemma_pieces_fit(s, max);
}

proof fn lemma_pieces_fit(s: Seq<char>, max: nat)
    requires
        max > 0,
    ensures
        forall|i: int|
            0 <= i < pieces(s, max).len() ==> {
                let chunk = #[trigger] pieces(s, max)[i];
                &&& text::byte_len(chunk) <= max || chunk.len() == 1
                &&& max >= 4 ==> text::byte_len(chunk) <= max
                &&& chunk.len() > 0
            },
    decreases s.len(),
{
    if text::byte_len(s) > max {
        let k = cut(s, max) as int;
        let w = window(s, max) as int;
        lemma_cut(s, max);
        lemma_skip_breaks(s.skip(k));
        text::lemma_fitting(s, max);
        let head = s.take(k);
        assert(text::byte_len(head) <= max || head.len() == 1) by {
            if text::fitting(s, max) > 0 {
                text::lemma_byte_len_split(s.take(w), k);
                assert(s.take(w).take(k) =~= head);
            }
        }
        text::lemma_byte_len_min(head);
        let tail = skip_breaks(s.skip(k));
        lemma_pieces_fit(tail, max);
        assert forall|i: int| 0 <= i < pieces(s, max).len() implies {
            let chunk = #[trigger] pieces(s, max)[i];
            &&& text::byte_len(chunk) <= max || chunk.len() == 1
            &&& max >= 4 ==> text::byte_len(chunk) <= max
            &&& chunk.len() > 0
        } by {
            if i > 0 {
                assert(pieces(s, max)[i] == pieces(tail, max)[i - 1]);
            }
        }
    }
}

/// So many line breaks.
pub open spec fn breaks(n: nat) -> Seq<char> {
    Seq::new(n, |i: int| '\n')
}

/// The chunks one after the other, each followed by the line breaks that
/// `gaps` has for it.
pub open spec fn put_together(chunks: Seq<Seq<char>>, gaps: Seq<nat>) -> Seq<char>
    decreases chunks.len(),
{
    if chunks.len() == 0 {
        Seq::empty()
    } else {
        chunks[0] + breaks(gaps[0]) + put_together(chunks.drop_first(), gaps.drop_first())
    }
}

/// Whether the message was cut behind chunk `i`, and does not just end there.
pub open spec fn is_cut(chunks: Seq<Seq<char>>, gaps: Seq<nat>, i: int) -> bool {
    i + 1 < chunks.len() || gaps[i] > 0
}

/// The character of the message that follows chunk `i`, where it was cut there.
pub open spec fn next_char(chunks: Seq<Seq<char>>, gaps: Seq<nat>, i: int) -> char {
    if gaps[i] > 0 {
        '\n'
    } else {
        chunks[i + 1][0]
    }
}

/// Whether the cut behind chunk `i` stands behind a line break; or else there
/// is no line break in the chunk at all, and not one more character fits.
pub open spec fn well_cut(chunks: Seq<Seq<char>>, gaps: Seq<nat>, max: nat, i: int) -> bool {
    ||| chunks[i].last() == '\n'
    ||| !chunks[i].contains('\n') && text::byte_len(chunks[i].push(next_char(chunks, gaps, i)))
        > max
}

/// Whether `chunks` and the line breaks of `gaps` between them are `s`, and
/// every cut is well made.
pub open spec fn well_split(s: Seq<char>, max: nat, chunks: Seq<Seq<char>>, gaps: Seq<nat>) -> bool {
    &&& gaps.len() == chunks.len()
    &&& s == put_together(chunks, gaps)
    &&& forall|i: int|
        0 <= i < chunks.len() && is_cut(chunks, gaps, i) ==> #[trigger] well_cut(
            chunks,
            gaps,
            max,
            i,
        )
}

/// The message is its chunks with nothing but runs of line breaks left out
/// between them, and a line is cut only where no line break fits. A message
/// without line breaks is kept whole.
pub proof fn law_chunks_keep_text(s: Seq<char>, max: nat)
    requires
        max > 0,
    ensures
        exists|gaps: Seq<nat>| #[trigger] well_split(s, max, split(s, max), gaps),
        !s.contains('\n') ==> split(s, max).flatten() == s,
{
    lemma_pieces_of_one_line(s, max);
    if text::byte_len(s) <= max {
        lemma_one_chunk(s, max);
        lemma_flatten_one(s);
        assert(well_split(s, max, split(s, max), seq![0nat]));
    } else {
        let gaps = lemma_pieces_well_split(s, max);
        assert(well_split(s, max, split(s, max), gaps));
    }
}

proof fn lemma_one_chunk(s: Seq<char>, max: nat)
    ensures
        well_split(s, max, seq![s], seq![0nat]),
{
    let none = Seq::<Seq<char>>::empty();
    assert(seq![s].drop_first() =~= none);
    assert(put_together(none, seq![0nat].drop_first()) =~= Seq::<char>::empty());
    assert(put_together(seq![s], seq![0nat]) =~= s);
}

proof fn lemma_flatten_one(s: Seq<char>)
    ensures
        seq![s].flatten() == s,
{
    assert(seq![s].drop_first() =~= Seq::<Seq<char>>::empty());
    assert(Seq::<Seq<char>>::empty().flatten() =~= Seq::<char>::empty());
    assert(seq![s].flatten() =~= s);
}

/// The first piece of a message that is too long ends behind a line break, or
/// holds none and leaves no room for the character behind it.
proof fn lemma_first_cut(s: Seq<char>, max: nat)
    requires
        text::byte_len(s) > max,
    ensures
        ({
            let k = cut(s, max) as int;
            let head = s.take(k);
            ||| head.last() == '\n'
            ||| !head.contains('\n') && (k < s.len() ==> text::byte_len(head.push(s[k])) > max)
        }),
{
    let k = cut(s, max) as int;
    let w = window(s, max) as int;
    let fits = s.take(w);
    let head = s.take(k);
    lemma_cut(s, max);
    lemma_after_last_break(fits);
    text::lemma_fitting(s, max);
    if after_last_break(fits) > 0 {
        assert(head.last() == fits[k - 1]);
    } else {
        assert(head =~= fits);
        if head.contains('\n') {
            let i = choose|i: int| 0 <= i < head.len() && head[i] == '\n';
            assert(fits[i] == '\n');
        }
        if k < s.len() {
            assert(head.push(s[k]) =~= s.take(k + 1));
        }
    }
}

proof fn lemma_pieces_well_split(s: Seq<char>, max: nat) -> (gaps: Seq<nat>)
    requires
        max > 0,
    ensures
        well_split(s, max, pieces(s, max), gaps),
    decreases s.len(),
{
    if text::byte_len(s) <= max {
        if s.len() == 0 {
            let none = Seq::<nat>::empty();
            assert(put_together(pieces(s, max), none) =~= s);
            none
        } else {
            lemma_one_chunk(s, max);
            seq![0nat]
        }
    } else {
        let k = cut(s, max) as int;
        lemma_cut(s, max);
        lemma_first_cut(s, max);
        let head = s.take(k);
        let rest = s.skip(k);
        lemma_skip_breaks(rest);
        let tail = skip_breaks(rest);
        let dropped = (rest.len() - tail.len()) as nat;
        let later = lemma_pieces_well_split(tail, max);
        lemma_pieces_fit(tail, max);
        let chunks = pieces(s, max);
        let more = pieces(tail, max);
        let gaps = seq![dropped] + later;
        assert(chunks.drop_first() =~= more);
        assert(gaps.drop_first() =~= later);
        assert(rest =~= breaks(dropped) + tail);
        assert(s =~= head + rest);
        assert(head + (breaks(dropped) + tail) =~= head + breaks(dropped) + tail);
        assert(s == put_together(chunks, gaps));
        assert forall|i: int| 0 <= i < chunks.len() && is_cut(chunks, gaps, i) implies #[trigger]
        well_cut(chunks, gaps, max, i) by {
            if i > 0 {
                assert(chunks[i] == more[i - 1] && gaps[i] == later[i - 1]);
                assert(is_cut(more, later, i - 1));
                assert(well_cut(more, later, max, i - 1));
                if gaps[i] == 0 {
                    assert(chunks[i + 1] == more[i]);
                }
            } else {
                assert(chunks[0] == head);
                if dropped > 0 {
                    assert(rest[0] == '\n');
                    assert(s[k] == '\n');
                } else {
                    assert(chunks[1] == more[0]);
                    assert(tail =~= rest);
                    assert(tail == put_together(more, later));
                    assert(more[0].len() > 0);
                    assert(tail[0] == more[0][0]);
                    assert(s[k] == tail[0]);
                }
            }
        }
        gaps
    }
}

proof fn lemma_pieces_of_one_line(s: Seq<char>, max: nat)
    requires
        max > 0,
    ensures
        !s.contains('\n') ==> pieces(s, max).flatten() == s,
    decreases s.len(),
{
    if !s.contains('\n') {
        if text::byte_len(s) > max {
            let k = cut(s, max) as int;
            lemma_cut(s, max);
            let head = s.take(k);
            let rest = s.skip(k);
            lemma_skip_breaks(rest);
            let tail = skip_breaks(rest);
            if rest.len() > tail.len() {
                assert(s[k] == rest[0]);
            }
            assert(tail =~= rest);
            assert forall|i: int| 0 <= i < tail.len() implies tail[i] != '\n' by {
                assert(tail[i] == s[k + i]);
            }
            lemma_pieces_of_one_line(tail, max);
            assert(pieces(s, max).drop_first() =~= pieces(tail, max));
            assert(pieces(s, max).flatten() =~= head + pieces(tail, max).flatten());
            assert(pieces(s, max).flatten() =~= s);
        } else if s.len() == 0 {
            assert(Seq::<Seq<char>>::empty().flatten() =~= s);
        } else {
            lemma_flatten_one(s);
        }
    }
}

/// A message that fits is one chunk. Of one that does not, the first chunk is
/// the longest beginning that fits and ends in a line break; where no such
/// beginning fits, the longest that fits; and where none does, one character.
/// The rest, without the line breaks it begins with, is cut in the same way.
pub proof fn law_whole_or_cut(s: Seq<char>, max: nat)
    requires
        max > 0,
    ensures
        text::byte_len(s) <= max ==> split(s, max) == seq![s],
        text::byte_len(s) > max ==> {
            let first = split(s, max)[0];
            let rest = skip_breaks(s.skip(first.len() as int));
            &&& first.is_prefix_of(s)
            &&& 0 < first.len()
            &&& text::byte_len(first) <= max || first.len() == 1
            &&& first.contains('\n') ==> first.last() == '\n'
            &&& forall|n: int|
                first.len() < n <= s.len() && (s[n - 1] == '\n' || !first.contains('\n'))
                    ==> text::byte_len(#[trigger] s.take(n)) > max
            &&& rest.len() > 0 ==> rest[0] != '\n'
            &&& rest.len() > 0 ==> split(s, max) == seq![first] + split(rest, max)
            &&& rest.len() == 0 ==> split(s, max) == seq![first]
        },
{
    if text::byte_len(s) > max {
        let k = cut(s, max) as int;
        lemma_cut(s, max);
        let first = s.take(k);
        assert(split(s, max)[0] == first);
        assert(first.is_prefix_of(s)) by {
            assert(s.subrange(0, k) =~= first);
        }
        let rest = skip_breaks(s.skip(k));
        lemma_skip_breaks(s.skip(k));
        lemma_no_break_first(s.skip(k));
        if rest.len() == 0 {
            assert(text::byte_len(rest) == 0);
            assert(pieces(rest, max) =~= Seq::<Seq<char>>::empty());
            assert(split(s, max) =~= seq![first]);
        }
        lemma_pieces_fit(s, max);
        lemma_first_cut(s, max);
        text::lemma_fitting(s, max);
        let w = window(s, max) as int;
        let fits = s.take(w);
        lemma_after_last_break(fits);
        assert forall|n: int|
            k < n <= s.len() && (s[n - 1] == '\n' || !first.contains('\n')) implies text::byte_len(
            #[trigger] s.take(n),
        ) > max by {
            if n <= w {
                if s[n - 1] == '\n' {
                    assert(fits[n - 1] == '\n');
                } else {
                    assert(after_last_break(fits) > 0);
                    assert(first[k - 1] == fits[k - 1]);
                    assert(first.contains(first[k - 1]));
                }
            }
        }
    }
}

proof fn lemma_no_break_first(s: Seq<char>)
    ensures
        skip_breaks(s).len() > 0 ==> skip_breaks(s)[0] != '\n',
    decreases s.len(),
{
    if s.len() > 0 && s[0] == '\n' {
        lemma_no_break_first(s.drop_first());
    }
}

// ── What every text says ──────────────────────────────────────────────

/// A message of the gateway itself begins with its name in brackets and a
/// space, and ends with what it has to say.
pub proof fn law_system_text(message: Seq<char>)
    ensures
        system_text(message) == "[pi-agent-connect] "@ + message,
        prefixed(PREFIX@, message) == "[pico] "@ + message,
{
    reveal_strlit("[pi-agent-connect]");
    reveal_strlit("[pico]");
    reveal_strlit(" ");
    reveal_strlit("[pi-agent-connect] ");
    reveal_strlit("[pico] ");
    assert(system_text(message) =~= "[pi-agent-connect] "@ + message);
    assert(prefixed(PREFIX@, message) =~= "[pico] "@ + message);
}

/// The answer to `.abort` says whether a task ran, and how many messages were
/// dropped where any were: one message is named in the singular.
pub proof fn law_abort_text(cleared: nat)
    ensures
        abort_text(true, 0) == "aborted running task"@,
        abort_text(false, 0) == "nothing was running"@,
        abort_text(true, 1) == "aborted running task; "@ + "cleared 1 queued message"@,
        abort_text(false, 1) == "nothing was running; "@ + "cleared 1 queued message"@,
        cleared > 1 ==> abort_text(true, cleared) == "aborted running task; cleared "@
            + text::decimal(cleared) + " queued messages"@,
        cleared > 1 ==> abort_text(false, cleared) == "nothing was running; cleared "@
            + text::decimal(cleared) + " queued messages"@,
{
    reveal_strlit("aborted running task");
    reveal_strlit("nothing was running");
    reveal_strlit("; ");
    reveal_strlit("cleared ");
    reveal_strlit("aborted running task; ");
    reveal_strlit("nothing was running; ");
    reveal_strlit("aborted running task; cleared ");
    reveal_strlit("nothing was running; cleared ");
    assert(abort_text(true, 1) =~= "aborted running task; "@ + "cleared 1 queued message"@);
    assert(abort_text(false, 1) =~= "nothing was running; "@ + "cleared 1 queued message"@);
    assert(cleared > 1 ==> abort_text(true, cleared) =~= "aborted running task; cleared "@
        + text::decimal(cleared) + " queued messages"@);
    assert(cleared > 1 ==> abort_text(false, cleared) =~= "nothing was running; cleared "@
        + text::decimal(cleared) + " queued messages"@);
}

/// Each notice holds what it is about, whole and between words of its own, so
/// two notices of a kind are the same only where they are about the same.
pub proof fn law_notices(n: nat, s: Seq<char>, other: Seq<char>, list: Seq<Seq<char>>, prefix: char)
    ensures
        queued_text(n) == "queued (backlog: "@ + text::decimal(n) + seq![')'],
        timed_out_text(n) == "pi timed out after "@ + text::decimal(n) + "s, aborted"@,
        startup_text(s, other) == "pico started: cwd="@ + s + ", user="@ + other,
        internal_error_text(s) == "internal error: "@ + s,
        model_set_text(s) == "model set to "@ + s,
        thinking_set_text(s) == "thinking level set to "@ + s,
        models_text(list) == "available models: "@ + text::join(list, seq![',', ' ']),
        levels_text(list) == "available levels: "@ + text::join(list, seq![',', ' ']),
        commands_text(prefix) == "commands: "@ + seq![prefix] + "new "@ + seq![prefix] + "abort "@
            + seq![prefix] + "session "@ + seq![prefix] + "model "@ + seq![prefix] + "thinking"@,
        cleared_text(1) == "cleared 1 queued message"@,
        n != 1 ==> cleared_text(n) == "cleared "@ + text::decimal(n) + " queued messages"@,
{
    reveal_strlit(")");
    reveal_strlit(", ");
    assert(")"@ =~= seq![')']);
    assert(", "@ =~= seq![',', ' ']);
    assert(commands_text(prefix) =~= "commands: "@ + seq![prefix] + "new "@ + seq![prefix]
        + "abort "@ + seq![prefix] + "session "@ + seq![prefix] + "model "@ + seq![prefix]
        + "thinking"@);
}

/// A text that is short enough is shown whole. Of one that is not, the longest
/// beginning that fits is shown, with an ellipsis behind it.
pub proof fn law_shortened(s: Seq<char>, max: nat, n: int)
    ensures
        text::byte_len(s) <= max ==> shortened(s, max) == s,
        text::byte_len(s) > max ==> {
            let kept = shortened(s, max).drop_last();
            &&& shortened(s, max).len() > 0
            &&& shortened(s, max).last() == '…'
            &&& kept.is_prefix_of(s)
            &&& text::byte_len(kept) <= max
            &&& kept.len() < n <= s.len() ==> text::byte_len(s.take(n)) > max
        },
{
    if text::byte_len(s) > max {
        text::lemma_fitting(s, max);
        reveal_strlit("…");
        let k = text::fitting(s, max) as int;
        let kept = shortened(s, max).drop_last();
        assert(kept =~= s.take(k));
        assert(s.subrange(0, k) =~= s.take(k));
    }
}

/// Each error of `pi` is told with what `pi` said of it. Of an error output at
/// most 300 bytes are shown, and all of it where it takes no more.
pub proof fn law_agent_error(
    words: Seq<char>,
    code: i32,
    seconds: u64,
    command: Seq<char>,
)
    ensures
        agent_error_text(AgentErrorView::SpawnFailed(words)) == "failed to start pi: "@ + words,
        agent_error_text(AgentErrorView::EmptyOutput) == "pi finished without output"@,
        agent_error_text(AgentErrorView::Rpc { command, error: words }) == "pi rejected: "@ + words,
        agent_error_text(AgentErrorView::RpcTimeout { command, seconds })
            == "pi rejected: timed out after "@ + text::decimal(seconds as nat) + seq!['s'],
        agent_error_text(AgentErrorView::NonZeroExit { code: Some(code), stderr: words })
            == "pi exited with code "@ + text::signed_decimal(code as int) + seq![':', ' ']
            + shortened(words, 300),
        agent_error_text(AgentErrorView::NonZeroExit { code: None, stderr: words })
            == "pi exited with error: "@ + shortened(words, 300),
        text::byte_len(words) <= 300 ==> agent_error_text(
            AgentErrorView::NonZeroExit { code: None, stderr: words },
        ) == "pi exited with error: "@ + words,
{
    reveal_strlit("s");
    reveal_strlit(": ");
    assert("s"@ =~= seq!['s']);
    assert(": "@ =~= seq![':', ' ']);
}

/// A session is told with its id, its file, its model and its thinking level,
/// where what is not known is called so; and with what it has used, where that
/// is known.
pub proof fn law_session_texts(state: SessionStateView, stats: SessionStats, cost: Seq<char>)
    ensures
        ({
            let told = "session: id="@ + state.session_id + " file="@ + state.session_file
                + " model="@ + (if state.model is Some {
                state.model->0
            } else {
                "unknown"@
            }) + " thinking="@ + (if state.thinking is Some {
                state.thinking->0
            } else {
                "unknown"@
            });
            let used = " tokens: in="@ + text::decimal(stats.tokens_input as nat) + " out="@
                + text::decimal(stats.tokens_output as nat) + " cache="@ + text::decimal(
                stats.tokens_cache_read as nat,
            ) + " cost="@;
            &&& session_text(state, None) == told
            &&& session_text(state, Some(stats)) == told + used + cost_text(stats.cost)
            &&& session_text_with(state, Some(stats), cost) == told + used + cost
            &&& session_text_with(state, None, cost) == told
            &&& new_session_text(state) == "new "@ + told
            &&& cost_text(None) == "n/a"@
            &&& stats.cost is Some && json::fixed_point(stats.cost->0, 4) is None ==> cost_text(
                stats.cost,
            ) == "n/a"@
            &&& stats.cost is Some && json::fixed_point(stats.cost->0, 4) is Some ==> cost_text(
                stats.cost,
            ) == json::fixed_point(stats.cost->0, 4)->0
        }),
{
    reveal_strlit("");
    let told = "session: id="@ + state.session_id + " file="@ + state.session_file + " model="@ + (
    if state.model is Some {
        state.model->0
    } else {
        "unknown"@
    }) + " thinking="@ + (if state.thinking is Some {
        state.thinking->0
    } else {
        "unknown"@
    });
    let used = " tokens: in="@ + text::decimal(stats.tokens_input as nat) + " out="@
        + text::decimal(stats.tokens_output as nat) + " cache="@ + text::decimal(
        stats.tokens_cache_read as nat,
    ) + " cost="@;
    assert(state_text(""@, state) =~= told);
    assert(new_session_text(state) =~= "new "@ + told);
    assert(session_text_with(state, Some(stats), cost) =~= told + used + cost);
    assert(session_text(state, Some(stats)) =~= told + used + cost_text(stats.cost));
}

/// The limits are those of the chat and of this gateway.
pub proof fn law_limits()
    ensures
        DISCORD_MAX == 2000,
        STDERR_MAX == 300,
        COST_PLACES == 4,
{
}

} // verus!
