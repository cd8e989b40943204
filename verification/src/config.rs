//! Configuration: everything comes from environment variables, no config file.
//!
//! - `PIAC_DISCORD_TOKEN` (required, fail fast)
//! - `PIAC_DISCORD_ALLOWED_USER_ID` (single Discord user id; empty/missing = lockdown mode)
//! - `PIAC_CWD` (pi working directory, default: launch cwd / `pwd`)
//! - `PIAC_COMMAND_PREFIX` (optional, single symbol, default `.`)
//! - `PIAC_PROMPT_TIMEOUT` (optional, seconds per prompt run, default: 1 hour / 3600s, max: 7 days)

use crate::commands;
use crate::commands::{CommandView, ParseView};
use crate::path;
use crate::text;
use crate::time;
use core::time::Duration;
use std::path::PathBuf;
use vstd::prelude::*;

verus! {

/// Default command prefix. `.` is safe on every mainstream IM: `/`-prefixed
/// messages are intercepted as slash commands by Discord/Slack/Telegram etc.
/// and `@`-prefixed ones become mentions.
pub const DEFAULT_COMMAND_PREFIX: char = '.';

/// Default per-prompt timeout in seconds: one hour. A single pi run may take
/// this long before it is aborted. The worker is single-consumer, so a hung run
/// stalls everything queued behind it — the cap is the gateway's availability
/// backstop.
pub const DEFAULT_PROMPT_TIMEOUT: u64 = 3600;

/// Upper bound for a per-prompt timeout: 7 days (604800s). Anything above is
/// almost certainly a typo — and, just like 0, it would let a hung run stall
/// the single-consumer worker queue for so long that the gateway is dead in
/// practice. Interactive users can still interrupt any run with `.abort` / `.new`.
pub const MAX_PROMPT_TIMEOUT_SECS: u64 = 604800;

/// How many columns the name of a variable takes in the summary.
pub const NAME_COLUMNS: usize = 32;

/// The environment variables that are looked at, where they are set.
#[derive(Debug, Clone, PartialEq, Eq)]
pub struct Environment {
    pub discord_token: Option<String>,
    pub allowed_user: Option<String>,
    pub cwd: Option<String>,
    pub command_prefix: Option<String>,
    pub prompt_timeout: Option<String>,
}

/// How the gateway is to run.
#[derive(Debug, PartialEq, Eq)]
pub struct Config {
    pub discord_token: String,
    /// Single allowed user. `None` = lockdown mode (start, audit-log, process nothing).
    pub allowed_user: Option<String>,
    pub cwd: PathBuf,
    /// Command prefix character, defaults to `.`. Should almost never be set.
    pub command_prefix: char,
    /// Max wall-clock time a single prompt's pi run may take before it is aborted.
    pub prompt_timeout: Duration,
}

/// What the summary tells beside the configuration itself.
#[derive(Debug, Clone, PartialEq, Eq)]
pub struct Launch {
    pub name: String,
    pub version: String,
    /// Whether the working directory comes from the environment.
    pub cwd_given: bool,
    /// Whether the timeout comes from the environment.
    pub timeout_given: bool,
}

// ── Single values ─────────────────────────────────────────────────────

/// The value of a variable without the white space around it; nothing where
/// it is unset or blank.
pub open spec fn value_of(raw: Option<String>) -> Option<Seq<char>> {
    match raw {
        Some(s) => text::non_empty(text::trim(s@)),
        None => None,
    }
}

/// Trim and normalize the optional whitelist value. Empty = no whitelist (lockdown).
pub fn parse_allowed_user(raw: Option<String>) -> (user: Option<String>)
    ensures
        text::optional(user) == value_of(raw),
{
    match raw {
        Some(s) => text::trimmed_non_empty(s.as_str()),
        None => None,
    }
}

/// Whether a variable is set and not blank.
pub fn env_has(raw: &Option<String>) -> (r: bool)
    ensures
        r == (value_of(*raw) is Some),
{
    match raw {
        Some(s) => text::trimmed_non_empty(s.as_str()).is_some(),
        None => false,
    }
}

/// Whether Unicode calls `c` a letter or a number.
pub uninterp spec fn alphanumeric(c: char) -> bool;

/// `char::is_alphanumeric`: whether the character is alphabetic or numeric in
/// Unicode. Of the ASCII characters these are the letters and the digits; of
/// the others nothing is stated but that the answer is always the same.
#[verifier::external_body]
fn is_alphanumeric(c: char) -> (r: bool)
    ensures
        r == alphanumeric(c),
        c <= '\u{7f}' ==> r == ('0' <= c <= '9' || 'A' <= c <= 'Z' || 'a' <= c <= 'z'),
{
    c.is_alphanumeric()
}

/// Whether `c` is a letter or a number: of the ASCII characters these are the
/// letters and the digits, of the others those that Unicode calls so.
pub open spec fn letter_or_number(c: char) -> bool {
    if c <= '\u{7f}' {
        '0' <= c <= '9' || 'A' <= c <= 'Z' || 'a' <= c <= 'z'
    } else {
        alphanumeric(c)
    }
}

/// The prefix that a value gives, where `alphanumeric` says whether its first
/// character is a letter or a number; or what is wrong with it.
pub open spec fn prefix_of(value: Option<Seq<char>>, alphanumeric: bool) -> Result<
    char,
    Seq<char>,
> {
    match value {
        None => Ok(DEFAULT_COMMAND_PREFIX),
        Some(s) => if s.len() != 1 {
            Err("PIAC_COMMAND_PREFIX must be a single character, got: "@ + s)
        } else if s[0] == '/' {
            Err("PIAC_COMMAND_PREFIX cannot be '/': Discord/Slack intercept it as slash commands"@)
        } else if s[0] == '@' {
            Err("PIAC_COMMAND_PREFIX cannot be '@': it is a mention on every platform"@)
        } else if alphanumeric || text::white(s[0]) {
            Err("PIAC_COMMAND_PREFIX must be a symbol, got: "@ + s)
        } else {
            Ok(s[0])
        },
    }
}

/// The prefix that a variable gives, or what is wrong with it.
pub open spec fn configured_prefix(raw: Option<String>) -> Result<char, Seq<char>> {
    prefix_of(
        value_of(raw),
        match value_of(raw) {
            Some(s) => letter_or_number(s[0]),
            None => false,
        },
    )
}

/// What a result says whose error is a text.
pub open spec fn char_result(r: Result<char, String>) -> Result<char, Seq<char>> {
    match r {
        Ok(c) => Ok(c),
        Err(e) => Err(e@),
    }
}

/// The prefix `c`, where it may be one; `alphanumeric` says whether it is a
/// letter or a number.
pub fn check_prefix(c: char, alphanumeric: bool) -> (r: Result<char, String>)
    ensures
        char_result(r) == prefix_of(Some(seq![c]), alphanumeric),
{
    if c == '/' {
        return Err(
            "PIAC_COMMAND_PREFIX cannot be '/': Discord/Slack intercept it as slash commands".to_owned(),
        );
    }
    if c == '@' {
        return Err(
            "PIAC_COMMAND_PREFIX cannot be '@': it is a mention on every platform".to_owned(),
        );
    }
    if alphanumeric || text::is_white(c) {
        let mut e = "PIAC_COMMAND_PREFIX must be a symbol, got: ".to_owned();
        e.push(c);
        assert(e@ =~= "PIAC_COMMAND_PREFIX must be a symbol, got: "@ + seq![c]);
        return Err(e);
    }
    Ok(c)
}

/// Parse the optional command prefix. Unset/empty = `.`. Must be a single
/// symbol: `/` (slash-command interception) and `@` (mention) are rejected,
/// as are alphanumerics and whitespace.
pub fn parse_command_prefix(raw: Option<String>) -> (r: Result<char, String>)
    ensures
        char_result(r) == configured_prefix(raw),
{
    let s = match parse_allowed_user(raw) {
        Some(s) => s,
        None => {
            return Ok(DEFAULT_COMMAND_PREFIX);
        },
    };
    let chars = text::chars_of(s.as_str());
    if chars.len() != 1 {
        let mut e = "PIAC_COMMAND_PREFIX must be a single character, got: ".to_owned();
        e.append(s.as_str());
        return Err(e);
    }
    assert(s@ =~= seq![chars@[0]]);
    check_prefix(chars[0], is_alphanumeric(chars[0]))
}

/// The seconds that a value gives, or what is wrong with it.
pub open spec fn timeout_of(value: Option<Seq<char>>) -> Result<nat, Seq<char>> {
    match value {
        None => Ok(DEFAULT_PROMPT_TIMEOUT as nat),
        Some(s) => match text::number(s) {
            Some(n) => if n == 0 {
                Err(
                    "PIAC_PROMPT_TIMEOUT cannot be 0 (a run without a cap can hang the worker queue forever); use 1..="@
                        + text::decimal(MAX_PROMPT_TIMEOUT_SECS as nat) + " seconds"@,
                )
            } else if n > MAX_PROMPT_TIMEOUT_SECS {
                Err(
                    "PIAC_PROMPT_TIMEOUT must be at most "@ + text::decimal(
                        MAX_PROMPT_TIMEOUT_SECS as nat,
                    ) + " seconds (7 days), got: "@ + s,
                )
            } else {
                Ok(n)
            },
            None => Err(
                "PIAC_PROMPT_TIMEOUT must be a positive integer number of seconds, got: "@ + s,
            ),
        },
    }
}

/// What a result says whose error is a text, in nanoseconds.
pub open spec fn duration_result(r: Result<Duration, String>) -> Result<nat, Seq<char>> {
    match r {
        Ok(d) => Ok(time::nanos(d)),
        Err(e) => Err(e@),
    }
}

/// The same result in nanoseconds, where it is in seconds.
pub open spec fn in_nanos(r: Result<nat, Seq<char>>) -> Result<nat, Seq<char>> {
    match r {
        Ok(n) => Ok(time::seconds(n)),
        Err(e) => Err(e),
    }
}

/// Parse the optional per-prompt timeout (seconds). Unset/empty/whitespace =
/// default (1 hour). Must be a whole number of seconds in `1..=MAX_PROMPT_TIMEOUT_SECS`.
/// `0` (no cap) and absurdly large values are rejected: either one lets a hung
/// run stall the single worker queue indefinitely, which is exactly what this
/// cap is the backstop against.
pub fn parse_prompt_timeout(raw: Option<String>) -> (r: Result<Duration, String>)
    ensures
        duration_result(r) == in_nanos(timeout_of(value_of(raw))),
{
    let s = match parse_allowed_user(raw) {
        Some(s) => s,
        None => {
            return Ok(Duration::from_secs(DEFAULT_PROMPT_TIMEOUT));
        },
    };
    match text::parsed_number(s.as_str()) {
        Some(n) => if n == 0 {
            let mut e =
                "PIAC_PROMPT_TIMEOUT cannot be 0 (a run without a cap can hang the worker queue forever); use 1..=".to_owned();
            e.append(text::decimal_text(MAX_PROMPT_TIMEOUT_SECS).as_str());
            e.append(" seconds");
            Err(e)
        } else if n > MAX_PROMPT_TIMEOUT_SECS {
            let mut e = "PIAC_PROMPT_TIMEOUT must be at most ".to_owned();
            e.append(text::decimal_text(MAX_PROMPT_TIMEOUT_SECS).as_str());
            e.append(" seconds (7 days), got: ");
            e.append(s.as_str());
            Err(e)
        } else {
            Ok(Duration::from_secs(n))
        },
        None => {
            let mut e =
                "PIAC_PROMPT_TIMEOUT must be a positive integer number of seconds, got: ".to_owned();
            e.append(s.as_str());
            Err(e)
        },
    }
}

/// The last four characters of `s`, or all of it where it has fewer.
pub open spec fn tail(s: Seq<char>) -> Seq<char> {
    if s.len() > 4 {
        s.skip(s.len() - 4)
    } else {
        s
    }
}

/// What is shown of a secret.
pub open spec fn masked(secret: Seq<char>) -> Seq<char> {
    "****"@ + tail(secret)
}

/// Show only the last 4 characters of a secret; nothing leaks otherwise.
pub fn mask_secret(secret: &str) -> (s: String)
    ensures
        s@ == masked(secret@),
{
    let chars = text::chars_of(secret);
    let from: usize = if chars.len() > 4 {
        chars.len() - 4
    } else {
        0
    };
    let last = text::text_of(&chars, from, chars.len());
    assert(last@ =~= tail(secret@));
    let mut s = "****".to_owned();
    s.append(last.as_str());
    s
}

// ── The whole ─────────────────────────────────────────────────────────

/// The working directory: the one that the environment gives, else the one
/// that the program was started in, else the current one.
pub open spec fn directory(raw: Option<String>, launch_cwd: Option<PathBuf>) -> Seq<char> {
    match raw {
        Some(s) if value_of(raw) is Some => s@,
        _ => match launch_cwd {
            Some(p) => path::path_text(p),
            None => "."@,
        },
    }
}

/// What is said where the token is missing.
pub open spec fn missing_token() -> Seq<char> {
    "PIAC_DISCORD_TOKEN is required (set it in the environment)"@
}

/// The first thing that is wrong with the environment: the token that is
/// missing, then the prefix, then the timeout.
pub open spec fn first_fault(env: Environment) -> Option<Seq<char>> {
    if env.discord_token is None {
        Some(missing_token())
    } else if let Err(e) = configured_prefix(env.command_prefix) {
        Some(e)
    } else if let Err(e) = timeout_of(value_of(env.prompt_timeout)) {
        Some(e)
    } else {
        None
    }
}

impl Config {
    /// Whether this is what `env` configures.
    pub open spec fn configured(self, env: Environment, launch_cwd: Option<PathBuf>) -> bool {
        &&& text::optional(env.discord_token) == Some(self.discord_token@)
        &&& text::optional(self.allowed_user) == value_of(env.allowed_user)
        &&& path::path_text(self.cwd) == directory(env.cwd, launch_cwd)
        &&& value_of(env.cwd) is None && launch_cwd is Some ==> self.cwd == launch_cwd->0
        &&& configured_prefix(env.command_prefix) == Ok::<char, Seq<char>>(self.command_prefix)
        &&& in_nanos(timeout_of(value_of(env.prompt_timeout))) == Ok::<nat, Seq<char>>(
            time::nanos(self.prompt_timeout),
        )
    }

    /// Load from the environment. Fails fast if the token is missing.
    pub fn load(env: Environment, launch_cwd: Option<PathBuf>) -> (r: Result<Config, String>)
        ensures
            match r {
                Ok(config) => first_fault(env) is None && config.configured(env, launch_cwd),
                Err(e) => first_fault(env) == Some(e@),
            },
    {
        let discord_token = match env.discord_token {
            Some(token) => token,
            None => {
                return Err("PIAC_DISCORD_TOKEN is required (set it in the environment)".to_owned());
            },
        };
        let allowed_user = parse_allowed_user(env.allowed_user);
        let cwd_given = env_has(&env.cwd);
        let cwd = match env.cwd {
            Some(s) if cwd_given => path::path_of(s),
            _ => match launch_cwd {
                Some(p) => p,
                None => path::path_of(".".to_owned()),
            },
        };
        let command_prefix = match parse_command_prefix(env.command_prefix) {
            Ok(c) => c,
            Err(e) => {
                return Err(e);
            },
        };
        let prompt_timeout = match parse_prompt_timeout(env.prompt_timeout) {
            Ok(d) => d,
            Err(e) => {
                return Err(e);
            },
        };
        Ok(Config { discord_token, allowed_user, cwd, command_prefix, prompt_timeout })
    }

    /// Human-readable startup summary of the loaded configuration.
    ///
    /// Secrets are masked (only the last 4 characters are shown) so the log can
    /// confirm the environment made it in without leaking the token.
    pub fn summary(&self, launch: &Launch) -> (s: String)
        ensures
            s@ == summary_text(*self, *launch),
    {
        let mut out = launch.name.as_str().to_owned();
        out.append(" v");
        out.append(launch.version.as_str());
        out.append(" configuration (environment)\n");
        push_line(
            &mut out,
            "PIAC_DISCORD_TOKEN",
            mask_secret(self.discord_token.as_str()).as_str(),
            "required",
        );
        match &self.allowed_user {
            Some(user) => push_line(
                &mut out,
                "PIAC_DISCORD_ALLOWED_USER_ID",
                user.as_str(),
                "normal mode",
            ),
            None => push_line(&mut out, "PIAC_DISCORD_ALLOWED_USER_ID", "(unset)", "lockdown mode"),
        }
        let cwd_source: &'static str = if launch.cwd_given {
            "from PIAC_CWD"
        } else {
            "defaulted to launch cwd"
        };
        push_line(&mut out, "PIAC_CWD", path::shown(&self.cwd).as_str(), cwd_source);
        let mut prefix = String::new();
        prefix.push(self.command_prefix);
        assert(prefix@ =~= seq![self.command_prefix]);
        push_line(
            &mut out,
            "PIAC_COMMAND_PREFIX",
            prefix.as_str(),
            "optional, default: '.'",
        );
        let timeout_source: &'static str = if launch.timeout_given {
            "from PIAC_PROMPT_TIMEOUT"
        } else {
            "defaulted to 1 hour (3600s)"
        };
        let mut seconds = text::decimal_text(self.prompt_timeout.as_secs());
        seconds.append("s");
        push_line(&mut out, "PIAC_PROMPT_TIMEOUT", seconds.as_str(), timeout_source);
        out
    }
}

/// A line of the summary.
pub open spec fn summary_line(name: Seq<char>, value: Seq<char>, note: Seq<char>) -> Seq<char> {
    "  "@ + text::padded(name, NAME_COLUMNS as nat) + " "@ + value + "  ("@ + note + ")\n"@
}

/// The summary of a configuration.
pub open spec fn summary_text(config: Config, launch: Launch) -> Seq<char> {
    launch.name@ + " v"@ + launch.version@ + " configuration (environment)\n"@ + summary_line(
        "PIAC_DISCORD_TOKEN"@,
        masked(config.discord_token@),
        "required"@,
    ) + (match config.allowed_user {
        Some(user) => summary_line("PIAC_DISCORD_ALLOWED_USER_ID"@, user@, "normal mode"@),
        None => summary_line("PIAC_DISCORD_ALLOWED_USER_ID"@, "(unset)"@, "lockdown mode"@),
    }) + summary_line(
        "PIAC_CWD"@,
        path::path_text(config.cwd),
        if launch.cwd_given {
            "from PIAC_CWD"@
        } else {
            "defaulted to launch cwd"@
        },
    ) + summary_line(
        "PIAC_COMMAND_PREFIX"@,
        seq![config.command_prefix],
        "optional, default: '.'"@,
    ) + summary_line(
        "PIAC_PROMPT_TIMEOUT"@,
        text::decimal(time::whole_seconds(time::nanos(config.prompt_timeout))) + "s"@,
        if launch.timeout_given {
            "from PIAC_PROMPT_TIMEOUT"@
        } else {
            "defaulted to 1 hour (3600s)"@
        },
    )
}

fn push_line(out: &mut String, name: &str, value: &str, note: &str)
    ensures
        final(out)@ == old(out)@ + summary_line(name@, value@, note@),
{
    out.append("  ");
    out.append(text::padded_text(name, NAME_COLUMNS).as_str());
    out.append(" ");
    out.append(value);
    out.append("  (");
    out.append(note);
    out.append(")\n");
    assert(out@ =~= old(out)@ + summary_line(name@, value@, note@));
}

// ── What holds of every configuration ─────────────────────────────────

/// A prefix that is accepted is a symbol: no slash, no at sign, no letter or
/// number and no white space. It is the dot, or all that the variable holds.
pub proof fn law_prefix_is_a_symbol(value: Option<Seq<char>>, alphanumeric: bool)
    requires
        prefix_of(value, alphanumeric) is Ok,
    ensures
        ({
            let c = prefix_of(value, alphanumeric)->Ok_0;
            &&& c != '/'
            &&& c != '@'
            &&& !text::white(c)
            &&& match value {
                Some(s) => s == seq![c] && !alphanumeric,
                None => c == '.',
            }
        }),
{
    if let Some(s) = value {
        assert(s =~= seq![s[0]]);
    }
}

/// A prefix that is accepted is accepted again when it is given itself, and
/// commands are read behind it: the prefix, a word and what stands behind the
/// word are the command that the word names.
pub proof fn law_accepted_prefix_can_be_used(
    raw: Option<String>,
    again: String,
    word: Seq<char>,
    rest: Seq<char>,
)
    requires
        configured_prefix(raw) is Ok,
        again@ == seq![configured_prefix(raw)->Ok_0],
        forall|i: int| 0 <= i < word.len() ==> !text::white(#[trigger] word[i]),
        rest.len() == 0 || text::white(rest[0]),
    ensures
        ({
            let c = configured_prefix(raw)->Ok_0;
            &&& configured_prefix(Some(again)) == configured_prefix(raw)
            &&& commands::parsed(seq![c] + word + rest, c) == commands::named(
                text::lower(word),
                text::non_empty(text::trim(rest)),
            )
            &&& commands::parsed(seq![c] + "new"@, c) == ParseView::Command(CommandView::New)
        }),
{
    let c = configured_prefix(raw)->Ok_0;
    law_prefix_is_a_symbol(
        value_of(raw),
        match value_of(raw) {
            Some(s) => letter_or_number(s[0]),
            None => false,
        },
    );
    assert(text::trim(seq![c]) == seq![c]);
    commands::law_command_form(c, word, rest);
    reveal_strlit("new");
    let none = Seq::<char>::empty();
    commands::law_command_form(c, "new"@, none);
    assert(seq![c] + "new"@ + none =~= seq![c] + "new"@);
    assert(text::lower("new"@) =~= "new"@);
    commands::law_aliases(text::non_empty(text::trim(none)));
}

/// A timeout that is accepted lies between one second and the longest, and
/// every such number of seconds is accepted as itself.
pub proof fn law_timeout_in_bounds(value: Option<Seq<char>>, n: nat)
    ensures
        timeout_of(value) is Ok ==> 1 <= timeout_of(value)->Ok_0 <= MAX_PROMPT_TIMEOUT_SECS,
        1 <= n <= MAX_PROMPT_TIMEOUT_SECS ==> timeout_of(Some(text::decimal(n))) == Ok::<
            nat,
            Seq<char>,
        >(n),
{
    if n <= MAX_PROMPT_TIMEOUT_SECS {
        text::lemma_number_of_decimal(n);
    }
}

/// The summary shows no more of the token than its last four characters: a
/// token with the same end gives the same summary.
pub proof fn law_token_stays_hidden(one: Config, other: Config, launch: Launch)
    requires
        tail(one.discord_token@) == tail(other.discord_token@),
        one.allowed_user == other.allowed_user,
        one.cwd == other.cwd,
        one.command_prefix == other.command_prefix,
        one.prompt_timeout == other.prompt_timeout,
    ensures
        summary_text(one, launch) == summary_text(other, launch),
{
}

/// A variable that is unset or blank has no value; any other has what it holds,
/// without the white space around it.
pub proof fn law_value(s: String)
    ensures
        value_of(None) is None,
        value_of(Some(s)) is None <==> text::blank(s@),
        value_of(Some(s)) is Some ==> value_of(Some(s))->0 == text::trim(s@),
{
    text::law_trim(s@);
    let t = text::trim(s@);
    let from = choose|from: int| #[trigger] text::stands_in(s@, t, from);
    if t.len() > 0 {
        assert(t[0] == s@[from]);
    } else {
        assert forall|i: int| 0 <= i < s@.len() implies text::white(#[trigger] s@[i]) by {
            if i < from {
                assert(text::white(s@[i]));
            } else {
                assert(from + t.len() <= i);
            }
        }
    }
}

/// A prefix is accepted exactly where it is unset, or one character that is no
/// slash, no at sign, no letter or number and no white space. What is refused
/// is named in the error, but for the two that have an error of their own.
pub proof fn law_prefix_accepted(value: Option<Seq<char>>, alphanumeric: bool)
    ensures
        prefix_of(None, alphanumeric) == Ok::<char, Seq<char>>('.'),
        match value {
            Some(s) => {
                &&& prefix_of(value, alphanumeric) is Ok <==> s.len() == 1 && s[0] != '/' && s[0]
                    != '@' && !alphanumeric && !text::white(s[0])
                &&& prefix_of(value, alphanumeric) is Ok ==> prefix_of(value, alphanumeric)->Ok_0
                    == s[0]
                &&& s.len() != 1 ==> prefix_of(value, alphanumeric)->Err_0
                    == "PIAC_COMMAND_PREFIX must be a single character, got: "@ + s
                &&& s == seq!['/'] ==> prefix_of(value, alphanumeric)->Err_0
                    == "PIAC_COMMAND_PREFIX cannot be '/': Discord/Slack intercept it as slash commands"@
                &&& s == seq!['@'] ==> prefix_of(value, alphanumeric)->Err_0
                    == "PIAC_COMMAND_PREFIX cannot be '@': it is a mention on every platform"@
                &&& s.len() == 1 && s[0] != '/' && s[0] != '@' && (alphanumeric || text::white(
                    s[0],
                )) ==> prefix_of(value, alphanumeric)->Err_0
                    == "PIAC_COMMAND_PREFIX must be a symbol, got: "@ + s
            },
            None => true,
        },
{
}

/// Of the ASCII characters the letters and the digits are letters and numbers.
/// A variable gives the prefix that its value gives.
pub proof fn law_letters_and_digits(c: char, raw: Option<String>)
    ensures
        c as int <= 127 ==> (letter_or_number(c) <==> 48 <= c as int <= 57 || 65 <= c as int <= 90
            || 97 <= c as int <= 122),
        value_of(raw) is None ==> configured_prefix(raw) == Ok::<char, Seq<char>>('.'),
        match value_of(raw) {
            Some(s) => configured_prefix(raw) == prefix_of(Some(s), letter_or_number(s[0])),
            None => true,
        },
{
}

/// A timeout is an hour where it is unset; and else the seconds that it spells,
/// where it spells a number from 1 to 604800. Nothing else is accepted, and the
/// error names what was given and what may be.
pub proof fn law_timeout_cases(s: Seq<char>)
    ensures
        timeout_of(None) == Ok::<nat, Seq<char>>(3600),
        match text::number(s) {
            Some(n) => {
                &&& 1 <= n <= 604800 ==> timeout_of(Some(s)) == Ok::<nat, Seq<char>>(n)
                &&& n == 0 ==> timeout_of(Some(s)) is Err
                &&& n == 0 ==> timeout_of(Some(s))->Err_0
                    == "PIAC_PROMPT_TIMEOUT cannot be 0 (a run without a cap can hang the worker queue forever); use 1..="@
                    + text::decimal(604800) + " seconds"@
                &&& n > 604800 ==> timeout_of(Some(s)) is Err
                &&& n > 604800 ==> timeout_of(Some(s))->Err_0
                    == "PIAC_PROMPT_TIMEOUT must be at most "@ + text::decimal(604800)
                    + " seconds (7 days), got: "@ + s
            },
            None => {
                &&& timeout_of(Some(s)) is Err
                &&& timeout_of(Some(s))->Err_0
                    == "PIAC_PROMPT_TIMEOUT must be a positive integer number of seconds, got: "@
                    + s
            },
        },
{
}

/// Of a secret its end shows, four characters at most, behind four stars.
pub proof fn law_masked(secret: Seq<char>)
    ensures
        masked(secret).take(4) == seq!['*', '*', '*', '*'],
        masked(secret).len() == 4 + (if secret.len() < 4 {
            secret.len()
        } else {
            4
        }),
        masked(secret).skip(4).is_suffix_of(secret),
{
    reveal_strlit("****");
    let shown = masked(secret).skip(4);
    assert(masked(secret).take(4) =~= seq!['*', '*', '*', '*']);
    assert(shown =~= tail(secret));
    assert(secret.subrange(secret.len() - shown.len(), secret.len() as int) =~= shown);
}

/// The working directory is the one that is given, as it is; where none is
/// given, the one that the program was started in; and else the current one.
pub proof fn law_directory(given: String, launch_cwd: Option<PathBuf>, started_in: PathBuf)
    ensures
        !text::blank(given@) ==> directory(Some(given), launch_cwd) == given@,
        text::blank(given@) ==> directory(Some(given), launch_cwd) == directory(None, launch_cwd),
        directory(None, Some(started_in)) == path::path_text(started_in),
        directory(None, None) == seq!['.'],
{
    law_value(given);
    reveal_strlit(".");
    assert("."@ =~= seq!['.']);
}

/// An environment is accepted exactly where it has a token and neither its
/// prefix nor its timeout is refused; and the first of these that is wrong is
/// what is complained of.
pub proof fn law_faults(env: Environment)
    ensures
        first_fault(env) is None <==> env.discord_token is Some && configured_prefix(
            env.command_prefix,
        ) is Ok && timeout_of(value_of(env.prompt_timeout)) is Ok,
        env.discord_token is None ==> first_fault(env) == Some(
            "PIAC_DISCORD_TOKEN is required (set it in the environment)"@,
        ),
        env.discord_token is Some && configured_prefix(env.command_prefix) is Err ==> first_fault(
            env,
        ) == Some(configured_prefix(env.command_prefix)->Err_0),
        env.discord_token is Some && configured_prefix(env.command_prefix) is Ok && timeout_of(
            value_of(env.prompt_timeout),
        ) is Err ==> first_fault(env) == Some(timeout_of(value_of(env.prompt_timeout))->Err_0),
{
}

/// What is loaded is what the environment says: the token as it is, the user
/// that may talk to the gateway where one is given, the prefix and the timeout.
pub proof fn law_loaded(config: Config, env: Environment, launch_cwd: Option<PathBuf>)
    requires
        config.configured(env, launch_cwd),
    ensures
        env.discord_token is Some,
        config.discord_token@ == env.discord_token->0@,
        config.allowed_user is None <==> (env.allowed_user is None || text::blank(
            env.allowed_user->0@,
        )),
        config.allowed_user is Some ==> config.allowed_user->0@ == text::trim(
            env.allowed_user->0@,
        ),
        configured_prefix(env.command_prefix) == Ok::<char, Seq<char>>(config.command_prefix),
        timeout_of(value_of(env.prompt_timeout)) is Ok,
        time::nanos(config.prompt_timeout) == timeout_of(value_of(env.prompt_timeout))->Ok_0
            * 1_000_000_000,
        env.cwd is Some && !text::blank(env.cwd->0@) ==> path::path_text(config.cwd)
            == env.cwd->0@,
        (env.cwd is None || text::blank(env.cwd->0@)) && launch_cwd is Some ==> config.cwd
            == launch_cwd->0,
{
    if let Some(s) = env.allowed_user {
        law_value(s);
    }
    if let Some(s) = env.cwd {
        law_value(s);
    }
}

/// The summary says, line by line, what was configured and where it is from.
pub proof fn law_summary(config: Config, launch: Launch)
    ensures
        ({
            let line = |name: Seq<char>, value: Seq<char>, note: Seq<char>|
                seq![' ', ' '] + text::padded(name, 32) + seq![' '] + value + seq![' ', ' ', '(']
                    + note + seq![')', '\n'];
            summary_text(config, launch) == launch.name@ + " v"@ + launch.version@
                + " configuration (environment)\n"@ + line(
                "PIAC_DISCORD_TOKEN"@,
                masked(config.discord_token@),
                "required"@,
            ) + (if config.allowed_user is Some {
                line("PIAC_DISCORD_ALLOWED_USER_ID"@, config.allowed_user->0@, "normal mode"@)
            } else {
                line("PIAC_DISCORD_ALLOWED_USER_ID"@, "(unset)"@, "lockdown mode"@)
            }) + line(
                "PIAC_CWD"@,
                path::path_text(config.cwd),
                if launch.cwd_given {
                    "from PIAC_CWD"@
                } else {
                    "defaulted to launch cwd"@
                },
            ) + line(
                "PIAC_COMMAND_PREFIX"@,
                seq![config.command_prefix],
                "optional, default: '.'"@,
            ) + line(
                "PIAC_PROMPT_TIMEOUT"@,
                text::decimal(time::nanos(config.prompt_timeout) / 1_000_000_000) + seq!['s'],
                if launch.timeout_given {
                    "from PIAC_PROMPT_TIMEOUT"@
                } else {
                    "defaulted to 1 hour (3600s)"@
                },
            )
        }),
{
    reveal_strlit("  ");
    reveal_strlit(" ");
    reveal_strlit("  (");
    reveal_strlit(")\n");
    reveal_strlit("s");
    assert("s"@ =~= seq!['s']);
    assert forall|name: Seq<char>, value: Seq<char>, note: Seq<char>| #[trigger]
        summary_line(name, value, note) == seq![' ', ' '] + text::padded(name, 32) + seq![' ']
            + value + seq![' ', ' ', '('] + note + seq![')', '\n'] by {
        assert(summary_line(name, value, note) =~= seq![' ', ' '] + text::padded(name, 32)
            + seq![' '] + value + seq![' ', ' ', '('] + note + seq![')', '\n']);
    }
}

/// A result says its value or its error, as it is; seconds are told in
/// nanoseconds.
pub proof fn law_config_results(c: char, d: Duration, e: String, n: nat, words: Seq<char>)
    ensures
        char_result(Ok(c)) == Ok::<char, Seq<char>>(c),
        char_result(Err(e)) == Err::<char, Seq<char>>(e@),
        duration_result(Ok(d)) == Ok::<nat, Seq<char>>(time::nanos(d)),
        duration_result(Err(e)) == Err::<nat, Seq<char>>(e@),
        in_nanos(Ok(n)) == Ok::<nat, Seq<char>>(n * 1_000_000_000),
        in_nanos(Err(words)) == Err::<nat, Seq<char>>(words),
{
}

} // verus!
