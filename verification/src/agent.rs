//! The `pi` command line: what is sent to it and what its output means.
//!
//! The gateway talks to `pi` in two ways: print mode (`pi -c -p "…"`) for
//! messages, and a short-lived RPC mode (`pi --mode rpc --continue`) for
//! session, model and thinking commands.

use crate::json;
use crate::json::{Json, JsonView};
use crate::text;
use crate::time;
use core::time::Duration;
use std::path::PathBuf;
use vstd::prelude::*;

verus! {

/// Why `pi` gave no usable answer.
#[derive(Debug, Clone, PartialEq, Eq)]
pub enum AgentError {
    SpawnFailed(String),
    NonZeroExit { code: Option<i32>, stderr: String },
    EmptyOutput,
    Rpc { command: String, error: String },
    RpcTimeout { command: String, seconds: u64 },
}

/// What an [`AgentError`] says.
pub enum AgentErrorView {
    SpawnFailed(Seq<char>),
    NonZeroExit { code: Option<i32>, stderr: Seq<char> },
    EmptyOutput,
    Rpc { command: Seq<char>, error: Seq<char> },
    RpcTimeout { command: Seq<char>, seconds: u64 },
}

impl View for AgentError {
    type V = AgentErrorView;

    open spec fn view(&self) -> AgentErrorView {
        match *self {
            AgentError::SpawnFailed(msg) => AgentErrorView::SpawnFailed(msg@),
            AgentError::NonZeroExit { code, stderr } => AgentErrorView::NonZeroExit {
                code,
                stderr: stderr@,
            },
            AgentError::EmptyOutput => AgentErrorView::EmptyOutput,
            AgentError::Rpc { command, error } => AgentErrorView::Rpc {
                command: command@,
                error: error@,
            },
            AgentError::RpcTimeout { command, seconds } => AgentErrorView::RpcTimeout {
                command: command@,
                seconds,
            },
        }
    }
}

/// What `pi` says of its session.
#[derive(Debug, Clone)]
pub struct SessionState {
    pub session_id: String,
    pub session_file: String,
    pub model: Option<String>,
    pub thinking: Option<String>,
}

/// What a [`SessionState`] says.
pub struct SessionStateView {
    pub session_id: Seq<char>,
    pub session_file: Seq<char>,
    pub model: Option<Seq<char>>,
    pub thinking: Option<Seq<char>>,
}

impl View for SessionState {
    type V = SessionStateView;

    open spec fn view(&self) -> SessionStateView {
        SessionStateView {
            session_id: self.session_id@,
            session_file: self.session_file@,
            model: text::optional(self.model),
            thinking: text::optional(self.thinking),
        }
    }
}

impl Default for SessionState {
    /// A session of which nothing is known.
    fn default() -> (state: SessionState)
        ensures
            state@ == (SessionStateView {
                session_id: Seq::empty(),
                session_file: Seq::empty(),
                model: None,
                thinking: None,
            }),
    {
        SessionState {
            session_id: String::new(),
            session_file: String::new(),
            model: None,
            thinking: None,
        }
    }
}

/// What the session has used so far.
#[derive(Debug, Clone, PartialEq, Eq)]
pub struct SessionStats {
    pub tokens_input: u64,
    pub tokens_output: u64,
    pub tokens_cache_read: u64,
    /// The cost, as the number that `pi` reported.
    pub cost: Option<serde_json::Number>,
}

impl Default for SessionStats {
    /// A session that has used nothing.
    fn default() -> (stats: SessionStats)
        ensures
            stats.tokens_input == 0,
            stats.tokens_output == 0,
            stats.tokens_cache_read == 0,
            stats.cost is None,
    {
        SessionStats { tokens_input: 0, tokens_output: 0, tokens_cache_read: 0, cost: None }
    }
}

// ── Model references ──────────────────────────────────────────────────

/// Where the last `/` of `s` stands, where it has one.
pub open spec fn last_slash(s: Seq<char>) -> Option<int>
    decreases s.len(),
{
    if s.len() == 0 {
        None
    } else if s.last() == '/' {
        Some(s.len() - 1)
    } else {
        last_slash(s.drop_last())
    }
}

/// The provider and the model that `model_ref` names: what stands before its
/// last `/` and what stands behind it, where neither is empty.
pub open spec fn model_parts(model_ref: Seq<char>) -> Option<(Seq<char>, Seq<char>)> {
    match last_slash(model_ref) {
        Some(i) => if 0 < i && i + 1 < model_ref.len() {
            Some((model_ref.take(i), model_ref.skip(i + 1)))
        } else {
            None
        },
        None => None,
    }
}

/// What is said of a model reference that names no provider and model.
pub open spec fn bad_model_ref(model_ref: Seq<char>) -> AgentErrorView {
    AgentErrorView::Rpc {
        command: "set_model"@,
        error: "invalid model ref '"@ + model_ref + "', expected provider/modelId"@,
    }
}

/// Split `provider/modelId` on the last `/`.
pub fn split_model_ref(model_ref: &str) -> (r: Result<(String, String), AgentError>)
    ensures
        match r {
            Ok((provider, model)) => model_parts(model_ref@) == Some((provider@, model@)),
            Err(e) => model_parts(model_ref@) is None && e@ == bad_model_ref(model_ref@),
        },
{
    let chars = text::chars_of(model_ref);
    let mut end: usize = chars.len();
    assert(model_ref@.take(end as int) =~= model_ref@);
    while end > 0 && chars[end - 1] != '/'
        invariant
            end <= chars@.len(),
            chars@ == model_ref@,
            last_slash(model_ref@.take(end as int)) == last_slash(model_ref@),
        decreases end,
    {
        assert(model_ref@.take(end as int).last() == chars@[end - 1]);
        assert(model_ref@.take(end as int).drop_last() =~= model_ref@.take(end - 1));
        end = end - 1;
    }
    assert(end > 0 ==> model_ref@.take(end as int).last() == chars@[end - 1]);
    if end > 1 && end < chars.len() {
        let provider = text::text_of(&chars, 0, end - 1);
        let model = text::text_of(&chars, end, chars.len());
        assert(provider@ =~= model_ref@.take(end - 1));
        assert(model@ =~= model_ref@.skip(end as int));
        Ok((provider, model))
    } else {
        let mut error = "invalid model ref '".to_owned();
        error.append(model_ref);
        error.append("', expected provider/modelId");
        Err(AgentError::Rpc { command: "set_model".to_owned(), error })
    }
}

proof fn lemma_last_slash(s: Seq<char>)
    ensures
        match last_slash(s) {
            Some(i) => 0 <= i < s.len() && s[i] == '/' && forall|j: int|
                i < j < s.len() ==> #[trigger] s[j] != '/',
            None => !s.contains('/'),
        },
    decreases s.len(),
{
    if s.len() > 0 && s.last() != '/' {
        let rest = s.drop_last();
        lemma_last_slash(rest);
        assert forall|j: int| 0 <= j < s.len() && s[j] == '/' implies 0 <= j < rest.len()
            && rest[j] == '/' by {}
        match last_slash(s) {
            Some(i) => {
                assert(rest[i] == s[i]);
                assert forall|j: int| i < j < s.len() implies #[trigger] s[j] != '/' by {
                    if j < rest.len() {
                        assert(rest[j] == s[j]);
                    }
                }
            },
            None => {
                if s.contains('/') {
                    let j = choose|j: int| 0 <= j < s.len() && s[j] == '/';
                    assert(rest[j] == '/');
                }
            },
        }
    }
}

/// A model reference is split into a provider and a model exactly where it is
/// the one, a `/` and the other, neither is empty and the model has no `/`;
/// and then into these two.
pub proof fn law_model_parts(model_ref: Seq<char>)
    ensures
        forall|provider: Seq<char>, model: Seq<char>|
            provider.len() > 0 && model.len() > 0 && !model.contains('/') && model_ref == provider
                + "/"@ + model <==> #[trigger] model_parts(model_ref) == Some((provider, model)),
{
    reveal_strlit("/");
    lemma_last_slash(model_ref);
    assert forall|provider: Seq<char>, model: Seq<char>| #[trigger]
        model_parts(model_ref) == Some((provider, model)) implies provider.len() > 0 && model.len()
        > 0 && !model.contains('/') && model_ref == provider + "/"@ + model by {
        let i = last_slash(model_ref)->0;
        assert(model_ref =~= provider + "/"@ + model);
        if model.contains('/') {
            let j = choose|j: int| 0 <= j < model.len() && model[j] == '/';
            assert(model_ref[i + 1 + j] == '/');
        }
    }
    assert forall|provider: Seq<char>, model: Seq<char>|
        provider.len() > 0 && model.len() > 0 && !model.contains('/') && model_ref == provider
            + "/"@ + model implies #[trigger] model_parts(model_ref) == Some((provider, model)) by {
        let n = provider.len() as int;
        assert(model_ref[n] == '/');
        assert(model_ref.contains('/'));
        let i = last_slash(model_ref)->0;
        if i > n {
            assert(model[i - n - 1] == '/');
        }
        assert(model_ref.take(n) =~= provider);
        assert(model_ref.skip(n + 1) =~= model);
    }
}

// ── What pi says ──────────────────────────────────────────────────────

/// Whether `document` is the response to `command`.
pub open spec fn answers(document: JsonView, command: Seq<char>) -> bool {
    document.text_field("type"@) == Some("response"@) && document.text_field("command"@) == Some(
        command,
    )
}

/// Whether `document` is the response to `command`.
pub fn is_answer(document: &Json, command: &str) -> (r: bool)
    ensures
        r == answers(document@, command@),
{
    match (document.text_field("type"), document.text_field("command")) {
        (Some(kind), Some(name)) => text::same(kind, "response") && text::same(name, command),
        _ => false,
    }
}

/// Whether `line` is the response to `command`: an object, with white space
/// around it or not.
pub open spec fn is_response(line: Seq<char>, command: Seq<char>) -> bool {
    let object = text::trim(line);
    object.len() > 0 && object[0] == '{' && match json::json_document(object) {
        Ok(document) => answers(document, command),
        Err(_) => false,
    }
}

/// Whether `line` is the response to `command`.
fn response_line(line: &str, command: &str) -> (r: bool)
    ensures
        r == is_response(line@, command@),
{
    let object = text::trimmed(line);
    let chars = text::chars_of(object.as_str());
    if chars.len() == 0 || chars[0] != '{' {
        return false;
    }
    match json::parse_json(object.as_str()) {
        Ok(document) => is_answer(&document, command),
        Err(_) => false,
    }
}

/// The first of `lines` that is the response to `command`.
pub open spec fn first_response(lines: Seq<Seq<char>>, command: Seq<char>) -> Option<Seq<char>>
    decreases lines.len(),
{
    if lines.len() == 0 {
        None
    } else if is_response(lines[0], command) {
        Some(lines[0])
    } else {
        first_response(lines.drop_first(), command)
    }
}

/// Scan RPC output for the first `{"type":"response","command":<cmd>}` line,
/// skipping banner / non-JSON lines that pi may print before the response.
pub fn find_response_line<'a>(output: &'a str, command: &str) -> (r: Option<&'a str>)
    ensures
        match r {
            Some(line) => first_response(text::lines(output@), command@) == Some(line@),
            None => first_response(text::lines(output@), command@) is None,
        },
{
    let chars = text::chars_of(output);
    let mut from: usize = 0;
    assert(output@.skip(0) =~= output@);
    while from < chars.len()
        invariant
            from <= chars@.len(),
            chars@ == output@,
            first_response(text::lines(output@.skip(from as int)), command@) == first_response(
                text::lines(output@),
                command@,
            ),
        decreases chars@.len() - from,
    {
        let ghost rest = output@.skip(from as int);
        let (to, at) = text::line_end(&chars, from);
        let line = output.substring_char(from, to);
        assert(text::lines(rest)[0] == line@);
        assert(text::lines(rest).drop_first() =~= text::lines(text::after_line(rest)));
        if response_line(line, command) {
            return Some(line);
        }
        if at < chars.len() {
            assert(text::after_line(rest) =~= output@.skip(at + 1));
            from = at + 1;
        } else {
            assert(text::after_line(rest) =~= output@.skip(at as int));
            from = at;
        }
    }
    assert(output@.skip(from as int) =~= Seq::<char>::empty());
    None
}

/// The text under `key`, or the empty text.
pub open spec fn text_or_empty(document: JsonView, key: Seq<char>) -> Seq<char> {
    match document.text_field(key) {
        Some(s) => s,
        None => Seq::empty(),
    }
}

/// The model that a document names under `model`: a text, or an object with
/// the provider and the id, which is left empty where it is missing.
pub open spec fn model_name(document: JsonView) -> Option<Seq<char>> {
    match document.field("model"@) {
        Some(JsonView::Text(name)) => Some(name),
        Some(model) => match model.text_field("provider"@) {
            Some(provider) => Some(provider + "/"@ + text_or_empty(model, "id"@)),
            None => None,
        },
        None => None,
    }
}

/// What `document` says of the session.
pub open spec fn session_state(document: JsonView) -> SessionStateView {
    SessionStateView {
        session_id: text_or_empty(document, "sessionId"@),
        session_file: text_or_empty(document, "sessionFile"@),
        model: model_name(document),
        thinking: document.text_field("thinkingLevel"@),
    }
}

fn owned_or_empty(document: &Json, key: &str) -> (s: String)
    ensures
        s@ == text_or_empty(document@, key@),
{
    match document.text_field(key) {
        Some(s) => s.to_owned(),
        None => String::new(),
    }
}

fn model_of(document: &Json) -> (r: Option<String>)
    ensures
        text::optional(r) == model_name(document@),
{
    match document.field("model") {
        Some(model) => match model.as_text() {
            Some(name) => Some(name.to_owned()),
            None => match model.text_field("provider") {
                Some(provider) => {
                    let mut name = provider.to_owned();
                    name.append("/");
                    name.append(owned_or_empty(model, "id").as_str());
                    Some(name)
                },
                None => None,
            },
        },
        None => None,
    }
}

/// What `v` says of the session.
pub fn parse_session_state(v: &Json) -> (state: SessionState)
    ensures
        state@ == session_state(v@),
{
    let thinking: Option<String> = match v.text_field("thinkingLevel") {
        Some(level) => Some(level.to_owned()),
        None => None,
    };
    SessionState {
        session_id: owned_or_empty(v, "sessionId"),
        session_file: owned_or_empty(v, "sessionFile"),
        model: model_of(v),
        thinking,
    }
}

/// How many tokens `document` counts under `key`; 0 where it does not say.
pub open spec fn token_count(document: JsonView, key: Seq<char>) -> u64 {
    match document.field("tokens"@) {
        Some(tokens) => match tokens.field(key) {
            Some(count) => match count.as_u64() {
                Some(n) => n,
                None => 0,
            },
            None => 0,
        },
        None => 0,
    }
}

/// What `document` says of what the session has used.
pub open spec fn session_stats(document: JsonView) -> SessionStats {
    SessionStats {
        tokens_input: token_count(document, "input"@),
        tokens_output: token_count(document, "output"@),
        tokens_cache_read: token_count(document, "cacheRead"@),
        cost: match document.field("cost"@) {
            Some(cost) => cost.as_number(),
            None => None,
        },
    }
}

fn tokens_of(document: &Json, key: &str) -> (n: u64)
    ensures
        n == token_count(document@, key@),
{
    match document.field("tokens") {
        Some(tokens) => match tokens.field(key) {
            Some(count) => match count.as_u64() {
                Some(n) => n,
                None => 0,
            },
            None => 0,
        },
        None => 0,
    }
}

/// What `v` says of what the session has used.
pub fn parse_session_stats(v: &Json) -> (stats: SessionStats)
    ensures
        stats == session_stats(v@),
{
    let cost: Option<serde_json::Number> = match v.field("cost") {
        Some(cost) => cost.as_number(),
        None => None,
    };
    SessionStats {
        tokens_input: tokens_of(v, "input"),
        tokens_output: tokens_of(v, "output"),
        tokens_cache_read: tokens_of(v, "cacheRead"),
        cost,
    }
}

/// The `provider/id` reference of a model: a model without an id has none, and
/// one without a provider has `?` in its place.
pub open spec fn model_ref_of(model: JsonView) -> Option<Seq<char>> {
    match model.text_field("id"@) {
        Some(id) => match model.text_field("provider"@) {
            Some(provider) => Some(provider + "/"@ + id),
            None => Some("?"@ + "/"@ + id),
        },
        None => None,
    }
}

/// The references of those of `models` that have one.
pub open spec fn model_refs(models: Seq<JsonView>) -> Seq<Seq<char>>
    decreases models.len(),
{
    if models.len() == 0 {
        Seq::empty()
    } else {
        match model_ref_of(models.last()) {
            Some(name) => model_refs(models.drop_last()).push(name),
            None => model_refs(models.drop_last()),
        }
    }
}

/// The models that `document` lists.
pub open spec fn model_list(document: JsonView) -> Seq<Seq<char>> {
    match document.field("models"@) {
        Some(models) => match models.items() {
            Some(list) => model_refs(list),
            None => Seq::empty(),
        },
        None => Seq::empty(),
    }
}

fn reference_of(model: &Json) -> (r: Option<String>)
    ensures
        text::optional(r) == model_ref_of(model@),
{
    match model.text_field("id") {
        Some(id) => {
            let mut name = match model.text_field("provider") {
                Some(provider) => provider.to_owned(),
                None => "?".to_owned(),
            };
            name.append("/");
            name.append(id);
            Some(name)
        },
        None => None,
    }
}

/// `data.models` → list of `provider/id` refs.
pub fn parse_model_list(v: &Json) -> (names: Vec<String>)
    ensures
        text::texts(names@) == model_list(v@),
{
    let mut names: Vec<String> = Vec::new();
    if let Some(models) = v.field("models") {
        if let Some(list) = models.items() {
            let ghost all = json::views(list@);
            let mut i: usize = 0;
            while i < list.len()
                invariant
                    i <= list@.len(),
                    all == json::views(list@),
                    text::texts(names@) == model_refs(all.take(i as int)),
                decreases list@.len() - i,
            {
                assert(all.take(i + 1).drop_last() =~= all.take(i as int));
                assert(all.take(i + 1).last() == list@[i as int]@);
                let ghost before = names@;
                if let Some(name) = reference_of(&list[i]) {
                    names.push(name);
                    assert(text::texts(names@) =~= text::texts(before).push(name@));
                }
                i = i + 1;
            }
            assert(all.take(i as int) =~= all);
        }
    }
    assert(text::texts(names@) =~= model_list(v@));
    names
}

/// Those of `items` that are texts.
pub open spec fn texts_among(items: Seq<JsonView>) -> Seq<Seq<char>>
    decreases items.len(),
{
    if items.len() == 0 {
        Seq::empty()
    } else {
        match items.last().as_text() {
            Some(s) => texts_among(items.drop_last()).push(s),
            None => texts_among(items.drop_last()),
        }
    }
}

/// The thinking levels that `document` lists.
pub open spec fn level_list(document: JsonView) -> Seq<Seq<char>> {
    match document.field("levels"@) {
        Some(levels) => match levels.items() {
            Some(list) => texts_among(list),
            None => Seq::empty(),
        },
        None => Seq::empty(),
    }
}

/// `data.levels` → list of levels.
pub fn parse_level_list(v: &Json) -> (names: Vec<String>)
    ensures
        text::texts(names@) == level_list(v@),
{
    let mut names: Vec<String> = Vec::new();
    if let Some(levels) = v.field("levels") {
        if let Some(list) = levels.items() {
            let ghost all = json::views(list@);
            let mut i: usize = 0;
            while i < list.len()
                invariant
                    i <= list@.len(),
                    all == json::views(list@),
                    text::texts(names@) == texts_among(all.take(i as int)),
                decreases list@.len() - i,
            {
                assert(all.take(i + 1).drop_last() =~= all.take(i as int));
                assert(all.take(i + 1).last() == list@[i as int]@);
                let ghost before = names@;
                if let Some(level) = list[i].as_text() {
                    let name = level.to_owned();
                    names.push(name);
                    assert(text::texts(names@) =~= text::texts(before).push(name@));
                }
                i = i + 1;
            }
            assert(all.take(i as int) =~= all);
        }
    }
    assert(text::texts(names@) =~= level_list(v@));
    names
}

/// A model that is listed with a provider and an id without a `/` is listed
/// under a reference that names just these two.
pub proof fn law_listed_model_can_be_set(model: JsonView)
    requires
        model.text_field("provider"@) is Some,
        model.text_field("provider"@)->0.len() > 0,
        model.text_field("id"@) is Some,
        model.text_field("id"@)->0.len() > 0,
        !model.text_field("id"@)->0.contains('/'),
    ensures
        model_ref_of(model) is Some,
        model_parts(model_ref_of(model)->0) == Some(
            (model.text_field("provider"@)->0, model.text_field("id"@)->0),
        ),
{
    law_model_parts(model_ref_of(model)->0);
}

// ── What is asked of pi ───────────────────────────────────────────────

/// A question or an order to `pi` in RPC mode.
#[derive(Debug, Clone, PartialEq, Eq)]
pub enum Request {
    State,
    SessionStats,
    SetModel { provider: String, model_id: String },
    Models,
    SetThinking { level: String },
    ThinkingLevels,
}

/// What a [`Request`] says.
pub enum RequestView {
    State,
    SessionStats,
    SetModel { provider: Seq<char>, model_id: Seq<char> },
    Models,
    SetThinking { level: Seq<char> },
    ThinkingLevels,
}

impl View for Request {
    type V = RequestView;

    open spec fn view(&self) -> RequestView {
        match *self {
            Request::State => RequestView::State,
            Request::SessionStats => RequestView::SessionStats,
            Request::SetModel { provider, model_id } => RequestView::SetModel {
                provider: provider@,
                model_id: model_id@,
            },
            Request::Models => RequestView::Models,
            Request::SetThinking { level } => RequestView::SetThinking { level: level@ },
            Request::ThinkingLevels => RequestView::ThinkingLevels,
        }
    }
}

impl RequestView {
    /// The name of the command.
    pub open spec fn command(self) -> Seq<char> {
        match self {
            RequestView::State => "get_state"@,
            RequestView::SessionStats => "get_session_stats"@,
            RequestView::SetModel { .. } => "set_model"@,
            RequestView::Models => "get_available_models"@,
            RequestView::SetThinking { .. } => "set_thinking_level"@,
            RequestView::ThinkingLevels => "get_available_thinking_levels"@,
        }
    }

    /// The fields of the object that is sent.
    pub open spec fn fields(self) -> Seq<(Seq<char>, Seq<char>)> {
        let kind = seq![("type"@, self.command())];
        match self {
            RequestView::SetModel { provider, model_id } => kind.push(("provider"@, provider)).push(
                ("modelId"@, model_id),
            ),
            RequestView::SetThinking { level } => kind.push(("level"@, level)),
            _ => kind,
        }
    }
}

/// What is sent for an object that `serde_json` wrote: one line.
pub open spec fn sent_line(
    command: Seq<char>,
    written: Result<Seq<char>, Seq<char>>,
) -> Result<Seq<char>, AgentErrorView> {
    match written {
        Ok(object) => Ok(object.push('\n')),
        Err(error) => Err(AgentErrorView::Rpc { command, error }),
    }
}

/// What a written object says.
pub open spec fn written_view(written: Result<String, String>) -> Result<Seq<char>, Seq<char>> {
    match written {
        Ok(s) => Ok(s@),
        Err(s) => Err(s@),
    }
}

/// What a result that may be an [`AgentError`] says, where its value is a text.
pub open spec fn text_result(r: Result<String, AgentError>) -> Result<Seq<char>, AgentErrorView> {
    match r {
        Ok(s) => Ok(s@),
        Err(e) => Err(e@),
    }
}

/// The line that is sent for a written object; where it could not be written,
/// the error says why.
pub fn line_of(command: &str, written: Result<String, String>) -> (r: Result<String, AgentError>)
    ensures
        text_result(r) == sent_line(command@, written_view(written)),
{
    match written {
        Ok(object) => {
            let mut line = object;
            line.push('\n');
            Ok(line)
        },
        Err(error) => Err(AgentError::Rpc { command: command.to_owned(), error }),
    }
}

impl Request {
    /// The name of the command.
    pub fn command(&self) -> (s: &'static str)
        ensures
            s@ == self@.command(),
    {
        match self {
            Request::State => "get_state",
            Request::SessionStats => "get_session_stats",
            Request::SetModel { .. } => "set_model",
            Request::Models => "get_available_models",
            Request::SetThinking { .. } => "set_thinking_level",
            Request::ThinkingLevels => "get_available_thinking_levels",
        }
    }

    fn fields(&self) -> (fields: Vec<(&'static str, String)>)
        ensures
            json::field_views(fields@) == self@.fields(),
    {
        let mut fields: Vec<(&'static str, String)> = Vec::new();
        fields.push(("type", self.command().to_owned()));
        match self {
            Request::SetModel { provider, model_id } => {
                fields.push(("provider", provider.as_str().to_owned()));
                fields.push(("modelId", model_id.as_str().to_owned()));
            },
            Request::SetThinking { level } => {
                fields.push(("level", level.as_str().to_owned()));
            },
            _ => {},
        }
        assert(json::field_views(fields@) =~= self@.fields());
        fields
    }

    /// The line that is sent: the object of the request, which holds no line
    /// feed of its own and reads back with the fields of the request.
    pub fn line(&self) -> (r: Result<String, AgentError>)
        ensures
            text_result(r) == sent_line(self@.command(), json::object_text(self@.fields())),
            match r {
                Ok(s) => {
                    &&& s@.len() > 0
                    &&& s@.last() == '\n'
                    &&& !s@.drop_last().contains('\n')
                    &&& json::read_back(s@.drop_last(), self@.fields())
                },
                Err(_) => true,
            },
    {
        let written = json::write_json(&self.fields());
        let ghost object = written_view(written);
        let r = line_of(self.command(), written);
        proof {
            if let Ok(line) = &r {
                assert(line@.drop_last() =~= object->Ok_0);
            }
        }
        r
    }
}

/// No two fields of a request have the same name, so all of them are read
/// back from the line that is sent.
pub proof fn law_request_names(request: RequestView)
    ensures
        json::distinct_names(request.fields()),
        request.fields()[0] == ("type"@, request.command()),
{
    reveal_strlit("type");
    reveal_strlit("provider");
    reveal_strlit("modelId");
    reveal_strlit("level");
    let fields = request.fields();
    assert("type"@[0] == 't' && "provider"@[0] == 'p' && "modelId"@[0] == 'm' && "level"@[0] == 'l');
    assert forall|i: int, j: int| 0 <= i < j < fields.len() implies (#[trigger] fields[i]).0 != (
    #[trigger] fields[j]).0 by {
        assert(fields[i].0[0] != fields[j].0[0]);
    }
}

/// The line that is sent reads as a document with the command as its type, and
/// with everything that the request says.
pub proof fn law_request_read_back(request: RequestView, object: Seq<char>)
    requires
        json::read_back(object, request.fields()),
    ensures
        json::json_document(object) is Ok,
        ({
            let document = json::json_document(object)->Ok_0;
            &&& document.text_field("type"@) == Some(request.command())
            &&& match request {
                RequestView::SetModel { provider, model_id } => document.text_field("provider"@)
                    == Some(provider) && document.text_field("modelId"@) == Some(model_id),
                RequestView::SetThinking { level } => document.text_field("level"@) == Some(level),
                _ => true,
            }
        }),
{
    law_request_names(request);
    let fields = request.fields();
    match request {
        RequestView::SetModel { provider, model_id } => {
            assert(fields[1] == ("provider"@, provider));
            assert(fields[2] == ("modelId"@, model_id));
        },
        RequestView::SetThinking { level } => {
            assert(fields[1] == ("level"@, level));
        },
        _ => {},
    }
}

/// The order to use the model that `model_ref` names.
pub fn set_model_request(model_ref: &str) -> (r: Result<Request, AgentError>)
    ensures
        match r {
            Ok(request) => match model_parts(model_ref@) {
                Some((provider, model_id)) => request@ == (RequestView::SetModel {
                    provider,
                    model_id,
                }),
                None => false,
            },
            Err(e) => model_parts(model_ref@) is None && e@ == bad_model_ref(model_ref@),
        },
{
    match split_model_ref(model_ref) {
        Ok((provider, model_id)) => Ok(Request::SetModel { provider, model_id }),
        Err(e) => Err(e),
    }
}

// ── One call in RPC mode ──────────────────────────────────────────────

/// What a result that may be an [`AgentError`] says, where its value is a
/// document.
pub open spec fn document_result(r: Result<Json, AgentError>) -> Result<JsonView, AgentErrorView> {
    match r {
        Ok(document) => Ok(document@),
        Err(e) => Err(e@),
    }
}

/// What was read of a text.
pub open spec fn read_view(read: Result<Json, String>) -> Result<JsonView, Seq<char>> {
    match read {
        Ok(document) => Ok(document@),
        Err(words) => Err(words@),
    }
}

/// What `pi` answered to `command`, where its response was read so: the data
/// that came with a success, and else an error.
pub open spec fn answer(
    response: Result<JsonView, Seq<char>>,
    command: Seq<char>,
) -> Result<JsonView, AgentErrorView> {
    match response {
        Ok(document) => if document.field("success"@) == Some(JsonView::Bool(true)) {
            match document.field("data"@) {
                Some(data) => Ok(data),
                None => Ok(JsonView::Null),
            }
        } else {
            Err(
                AgentErrorView::Rpc {
                    command,
                    error: match document.text_field("error"@) {
                        Some(error) => error,
                        None => "unknown error"@,
                    },
                },
            )
        },
        Err(words) => Err(AgentErrorView::Rpc { command, error: "bad response: "@ + words }),
    }
}

/// What `pi` answered to `command`, where its response was read so.
pub fn rpc_answer(response: Result<Json, String>, command: &str) -> (r: Result<Json, AgentError>)
    ensures
        document_result(r) == answer(read_view(response), command@),
{
    match response {
        Ok(document) => {
            let success: bool = match document.field("success") {
                Some(value) => match value.as_bool() {
                    Some(b) => b,
                    None => false,
                },
                None => false,
            };
            if success {
                match document.into_field("data") {
                    Some(data) => Ok(data),
                    None => Ok(Json::Null),
                }
            } else {
                let error = match document.text_field("error") {
                    Some(error) => error.to_owned(),
                    None => "unknown error".to_owned(),
                };
                Err(AgentError::Rpc { command: command.to_owned(), error })
            }
        },
        Err(words) => {
            let mut error = "bad response: ".to_owned();
            error.append(words.as_str());
            Err(AgentError::Rpc { command: command.to_owned(), error })
        },
    }
}

/// What came of a call, where `found` is the response to `command`.
pub open spec fn received(found: Option<Seq<char>>, command: Seq<char>) -> Result<
    JsonView,
    AgentErrorView,
> {
    match found {
        Some(response) => answer(json::json_document(response), command),
        None => Err(AgentErrorView::Rpc { command, error: "no response received"@ }),
    }
}

/// What came of a call, where `found` is the response to `command`.
pub fn rpc_result(found: Option<String>, command: &str) -> (r: Result<Json, AgentError>)
    ensures
        document_result(r) == received(text::optional(found), command@),
{
    match found {
        Some(response) => rpc_answer(json::parse_json(response.as_str()), command),
        None => Err(
            AgentError::Rpc {
                command: command.to_owned(),
                error: "no response received".to_owned(),
            },
        ),
    }
}

/// What happened in a call.
#[derive(Debug, Clone, PartialEq, Eq)]
pub enum RpcEvent {
    /// The program could not be started.
    SpawnFailed(String),
    /// The request was sent.
    Written,
    /// The request could not be sent.
    WriteFailed(String),
    /// The program wrote this line.
    Line(String),
    /// The program writes no more.
    EndOfOutput,
    /// The output could not be read.
    ReadFailed(String),
    /// The response took too long.
    TimedOut,
}

/// What an [`RpcEvent`] says.
pub enum RpcEventView {
    SpawnFailed(Seq<char>),
    Written,
    WriteFailed(Seq<char>),
    Line(Seq<char>),
    EndOfOutput,
    ReadFailed(Seq<char>),
    TimedOut,
}

impl View for RpcEvent {
    type V = RpcEventView;

    open spec fn view(&self) -> RpcEventView {
        match *self {
            RpcEvent::SpawnFailed(words) => RpcEventView::SpawnFailed(words@),
            RpcEvent::Written => RpcEventView::Written,
            RpcEvent::WriteFailed(words) => RpcEventView::WriteFailed(words@),
            RpcEvent::Line(line) => RpcEventView::Line(line@),
            RpcEvent::EndOfOutput => RpcEventView::EndOfOutput,
            RpcEvent::ReadFailed(words) => RpcEventView::ReadFailed(words@),
            RpcEvent::TimedOut => RpcEventView::TimedOut,
        }
    }
}

/// What is to be done next in a call.
#[derive(Debug)]
pub enum RpcAction {
    /// Read the next line.
    Read,
    /// Close the program's input, so that it exits; the call is over.
    Finish(Result<Json, AgentError>),
    /// Terminate the program; the call has failed.
    Kill(AgentError),
    /// Leave the program to itself; the call has failed.
    Fail(AgentError),
}

/// What an [`RpcAction`] says.
pub enum RpcActionView {
    Read,
    Finish(Result<JsonView, AgentErrorView>),
    Kill(AgentErrorView),
    Fail(AgentErrorView),
}

impl View for RpcAction {
    type V = RpcActionView;

    open spec fn view(&self) -> RpcActionView {
        match *self {
            RpcAction::Read => RpcActionView::Read,
            RpcAction::Finish(r) => RpcActionView::Finish(document_result(r)),
            RpcAction::Kill(e) => RpcActionView::Kill(e@),
            RpcAction::Fail(e) => RpcActionView::Fail(e@),
        }
    }
}

/// What is to be done in a call of `command` after `event`, where a response
/// may take so many seconds.
pub open spec fn rpc_next(command: Seq<char>, seconds: u64, event: RpcEventView) -> RpcActionView {
    match event {
        RpcEventView::SpawnFailed(words) => RpcActionView::Fail(AgentErrorView::SpawnFailed(words)),
        RpcEventView::Written => RpcActionView::Read,
        RpcEventView::WriteFailed(error) => RpcActionView::Fail(
            AgentErrorView::Rpc { command, error },
        ),
        RpcEventView::Line(output) => match first_response(text::lines(output), command) {
            Some(line) => RpcActionView::Finish(received(Some(text::trim(line)), command)),
            None => RpcActionView::Read,
        },
        RpcEventView::EndOfOutput => RpcActionView::Finish(received(None, command)),
        RpcEventView::ReadFailed(error) => RpcActionView::Kill(
            AgentErrorView::Rpc { command, error },
        ),
        RpcEventView::TimedOut => RpcActionView::Kill(
            AgentErrorView::RpcTimeout { command, seconds },
        ),
    }
}

/// The lines of `output` as they are read one by one: each with its line feed,
/// but for a last one that has none.
pub open spec fn read_lines(output: Seq<char>) -> Seq<Seq<char>>
    decreases output.len(),
{
    let n = text::line_len(output) as int;
    if output.len() == 0 {
        Seq::empty()
    } else if n < output.len() {
        seq![output.take(n + 1)] + read_lines(output.skip(n + 1))
    } else {
        seq![output]
    }
}

/// What a call comes to, where `lines` are read one by one and nothing more.
pub open spec fn heard(command: Seq<char>, seconds: u64, lines: Seq<Seq<char>>) -> RpcActionView
    decreases lines.len(),
{
    if lines.len() == 0 {
        rpc_next(command, seconds, RpcEventView::EndOfOutput)
    } else {
        match rpc_next(command, seconds, RpcEventView::Line(lines[0])) {
            RpcActionView::Read => heard(command, seconds, lines.drop_first()),
            action => action,
        }
    }
}

/// A call whose output is read line by line comes to what the whole output
/// holds: the first response to the command in it, or no response.
pub proof fn law_read_line_by_line(command: Seq<char>, seconds: u64, output: Seq<char>)
    ensures
        heard(command, seconds, read_lines(output)) == RpcActionView::Finish(
            match first_response(text::lines(output), command) {
                Some(line) => received(Some(text::trim(line)), command),
                None => received(None, command),
            },
        ),
    decreases output.len(),
{
    if output.len() > 0 {
        text::lemma_line_len(output);
        let n = text::line_len(output) as int;
        let piece = read_lines(output)[0];
        let rest = read_lines(output).drop_first();
        let line = text::first_line(output);
        if n < output.len() {
            assert(piece =~= output.take(n + 1));
            assert(rest =~= read_lines(output.skip(n + 1)));
            law_read_line_by_line(command, seconds, output.skip(n + 1));
            text::lemma_line_len_is(piece, n as nat);
            assert(text::first_line(piece) =~= line);
            assert(text::after_line(piece) =~= Seq::<char>::empty());
        } else {
            assert(piece =~= output);
            assert(rest =~= Seq::<Seq<char>>::empty());
            assert(text::after_line(output) =~= Seq::<char>::empty());
        }
        assert(text::lines(Seq::<char>::empty()) =~= Seq::<Seq<char>>::empty());
        assert(text::lines(piece) =~= seq![line]);
        assert(text::lines(output)[0] == line);
        assert(text::lines(output).drop_first() =~= text::lines(text::after_line(output)));
        assert(seq![line].drop_first() =~= Seq::<Seq<char>>::empty());
        assert(first_response(Seq::<Seq<char>>::empty(), command) is None);
        let all = read_lines(output);
        let action = rpc_next(command, seconds, RpcEventView::Line(piece));
        assert(all.len() > 0 && all[0] == piece && all.drop_first() == rest);
        if is_response(line, command) {
            assert(first_response(text::lines(piece), command) == Some(line));
            assert(action == RpcActionView::Finish(received(Some(text::trim(line)), command)));
            assert(heard(command, seconds, all) == action);
        } else {
            assert(first_response(text::lines(piece), command) is None);
            assert(action is Read);
            assert(heard(command, seconds, all) == heard(command, seconds, rest));
            assert(first_response(text::lines(output), command) == first_response(
                text::lines(text::after_line(output)),
                command,
            ));
        }
    } else {
        assert(read_lines(output) =~= Seq::<Seq<char>>::empty());
        assert(text::lines(output) =~= Seq::<Seq<char>>::empty());
    }
}

/// A line that is found to be the response reads as a document, so a call
/// never comes to an unreadable response.
pub proof fn law_found_response_reads(command: Seq<char>, lines: Seq<Seq<char>>)
    requires
        first_response(lines, command) is Some,
    ensures
        ({
            let response = text::trim(first_response(lines, command)->0);
            &&& json::json_document(response) is Ok
            &&& answers(json::json_document(response)->Ok_0, command)
        }),
    decreases lines.len(),
{
    if !is_response(lines[0], command) {
        law_found_response_reads(command, lines.drop_first());
    }
}

// ── The program ───────────────────────────────────────────────────────

/// How many seconds a response may take.
pub const RPC_TIMEOUT_SECS: u64 = 15;

/// How many seconds the program has to exit before it is no longer waited for.
pub const REAP_TIMEOUT_SECS: u64 = 5;

/// How many seconds a program that was told to terminate has, before it is
/// killed.
pub const KILL_GRACE_SECS: u64 = 5;

/// The `pi` program, and the process of it that is running.
#[derive(Debug, PartialEq, Eq)]
pub struct RealAgent {
    pub pi_bin: String,
    pub cwd: PathBuf,
    /// PID of the active child (print or RPC), for abort().
    pub active_pid: Option<u32>,
    pub rpc_timeout: Duration,
}

/// Which process is active, once one has been started; a process without an
/// id changes nothing.
pub open spec fn registered(active: Option<u32>, pid: Option<u32>) -> Option<u32> {
    match pid {
        Some(_) => pid,
        None => active,
    }
}

/// Which process is active, once `pid` is over.
pub open spec fn unregistered(active: Option<u32>, pid: u32) -> Option<u32> {
    if active == Some(pid) {
        None
    } else {
        active
    }
}

/// Which process is active, once a call is over that had the process `pid`,
/// where it had one.
pub open spec fn ended(active: Option<u32>, pid: Option<u32>) -> Option<u32> {
    match pid {
        Some(p) => unregistered(active, p),
        None => active,
    }
}

/// What a call came to that ends with `action`; nothing where it goes on.
pub open spec fn rpc_outcome(action: RpcActionView) -> Option<Result<JsonView, AgentErrorView>> {
    match action {
        RpcActionView::Read => None,
        RpcActionView::Finish(r) => Some(r),
        RpcActionView::Kill(e) => Some(Err(e)),
        RpcActionView::Fail(e) => Some(Err(e)),
    }
}

/// What an outcome of a call says.
pub open spec fn outcome_view(r: Option<Result<Json, AgentError>>) -> Option<
    Result<JsonView, AgentErrorView>,
> {
    match r {
        Some(result) => Some(document_result(result)),
        None => None,
    }
}

/// How a run in print mode ended.
#[derive(Debug, Clone, PartialEq, Eq)]
pub enum PromptEnd {
    /// The program could not be started, or not be waited for.
    Failed(String),
    /// The program exited, and wrote these bytes.
    Exited { success: bool, code: Option<i32>, stdout: Vec<u8>, stderr: Vec<u8> },
}

/// What a run came to that ended so.
pub open spec fn run_result(end: PromptEnd) -> Result<Seq<char>, AgentErrorView> {
    match end {
        PromptEnd::Failed(words) => Err(AgentErrorView::SpawnFailed(words@)),
        PromptEnd::Exited { success, code, stdout, stderr } => reply(
            success,
            code,
            text::lossy_text(stdout@),
            text::lossy_text(stderr@),
        ),
    }
}

impl RealAgent {
    /// The program `pi_bin`, run in `cwd`.
    pub fn new(pi_bin: String, cwd: PathBuf) -> (agent: RealAgent)
        ensures
            agent.pi_bin == pi_bin,
            agent.cwd == cwd,
            agent.active_pid is None,
            time::nanos(agent.rpc_timeout) == time::seconds(RPC_TIMEOUT_SECS as nat),
    {
        RealAgent {
            pi_bin,
            cwd,
            active_pid: None,
            rpc_timeout: Duration::from_secs(RPC_TIMEOUT_SECS),
        }
    }

    /// Takes note of a process that was started.
    pub fn register_pid(&mut self, pid: Option<u32>)
        ensures
            *final(self) == (RealAgent {
                active_pid: registered(old(self).active_pid, pid),
                ..*old(self)
            }),
    {
        if pid.is_some() {
            self.active_pid = pid;
        }
    }

    /// Takes note of a process that is over.
    pub fn clear_pid(&mut self, pid: u32)
        ensures
            *final(self) == (RealAgent {
                active_pid: unregistered(old(self).active_pid, pid),
                ..*old(self)
            }),
    {
        if let Some(active) = self.active_pid {
            if active == pid {
                self.active_pid = None;
            }
        }
    }

    /// Ends a call in RPC mode that had the process `pid`, where `action` ends
    /// it: what the call came to. However it ends, its process is no longer the
    /// active one.
    pub fn end_rpc(&mut self, pid: Option<u32>, action: RpcAction) -> (r: Option<
        Result<Json, AgentError>,
    >)
        ensures
            outcome_view(r) == rpc_outcome(action@),
            *final(self) == (RealAgent {
                active_pid: if rpc_outcome(action@) is Some {
                    ended(old(self).active_pid, pid)
                } else {
                    old(self).active_pid
                },
                ..*old(self)
            }),
    {
        let result: Result<Json, AgentError> = match action {
            RpcAction::Read => {
                return None;
            },
            RpcAction::Finish(result) => result,
            RpcAction::Kill(e) => Err(e),
            RpcAction::Fail(e) => Err(e),
        };
        if let Some(p) = pid {
            self.clear_pid(p);
        }
        Some(result)
    }

    /// Ends a run in print mode that had the process `pid`: what the run came
    /// to. However it ends, its process is no longer the active one.
    pub fn end_prompt(&mut self, pid: Option<u32>, end: PromptEnd) -> (r: Result<
        String,
        AgentError,
    >)
        ensures
            text_result(r) == run_result(end),
            match end {
                PromptEnd::Exited { success, code, stdout, stderr } => vstd::utf8::valid_utf8(
                    stdout@,
                ) && vstd::utf8::valid_utf8(stderr@) ==> text_result(r) == reply(
                    success,
                    code,
                    vstd::utf8::decode_utf8(stdout@),
                    vstd::utf8::decode_utf8(stderr@),
                ),
                _ => true,
            },
            *final(self) == (RealAgent {
                active_pid: ended(old(self).active_pid, pid),
                ..*old(self)
            }),
    {
        if let Some(p) = pid {
            self.clear_pid(p);
        }
        match end {
            PromptEnd::Failed(words) => Err(AgentError::SpawnFailed(words)),
            PromptEnd::Exited { success, code, stdout, stderr } => prompt_result(
                success,
                code,
                stdout.as_slice(),
                stderr.as_slice(),
            ),
        }
    }

    /// Abort the currently running operation: the process that is to be told
    /// to terminate.
    pub fn abort(&self) -> (pid: Option<u32>)
        ensures
            pid == self.active_pid,
    {
        self.active_pid
    }

    /// Whether `pid`, which was told to terminate, is to be killed after all.
    pub fn overdue(&self, pid: u32) -> (r: bool)
        ensures
            r == (self.active_pid == Some(pid)),
    {
        match self.active_pid {
            Some(active) => active == pid,
            None => false,
        }
    }

    /// What is to be done in a call of `command` after `event`.
    ///
    /// The input of the program is kept open until the response arrives:
    /// closing it early makes pi shut down before slow commands (e.g.
    /// `get_available_models`) finish.
    pub fn rpc(&self, command: &str, event: RpcEvent) -> (action: RpcAction)
        ensures
            action@ == rpc_next(
                command@,
                time::whole_seconds(time::nanos(self.rpc_timeout)) as u64,
                event@,
            ),
    {
        match event {
            RpcEvent::SpawnFailed(words) => RpcAction::Fail(AgentError::SpawnFailed(words)),
            RpcEvent::Written => RpcAction::Read,
            RpcEvent::WriteFailed(error) => RpcAction::Fail(
                AgentError::Rpc { command: command.to_owned(), error },
            ),
            RpcEvent::Line(output) => match find_response_line(output.as_str(), command) {
                Some(line) => RpcAction::Finish(rpc_result(Some(text::trimmed(line)), command)),
                None => RpcAction::Read,
            },
            RpcEvent::EndOfOutput => RpcAction::Finish(rpc_result(None, command)),
            RpcEvent::ReadFailed(error) => RpcAction::Kill(
                AgentError::Rpc { command: command.to_owned(), error },
            ),
            RpcEvent::TimedOut => RpcAction::Kill(
                AgentError::RpcTimeout {
                    command: command.to_owned(),
                    seconds: self.rpc_timeout.as_secs(),
                },
            ),
        }
    }
}

/// A process that is over is not the active one, whatever was before; and that
/// it is over leaves every other active process as it is.
pub proof fn law_finished_process_is_not_aborted(active: Option<u32>, pid: u32)
    ensures
        unregistered(active, pid) != Some(pid),
        unregistered(registered(active, Some(pid)), pid) is None,
        active != Some(pid) ==> unregistered(active, pid) == active,
{
}

/// Whatever happens in a call ends it, but for the request that was sent and
/// for lines that are not the response.
pub proof fn law_call_ends(command: Seq<char>, seconds: u64, event: RpcEventView)
    ensures
        rpc_outcome(rpc_next(command, seconds, event)) is None <==> match event {
            RpcEventView::Written => true,
            RpcEventView::Line(output) => first_response(text::lines(output), command) is None,
            _ => false,
        },
{
}

/// What happens to the processes of calls: one is started, or the call that
/// had it is over.
pub enum ProcessEvent {
    Started(Option<u32>),
    Ended(Option<u32>),
}

/// Which process is active after `event`.
pub open spec fn active_after(active: Option<u32>, event: ProcessEvent) -> Option<u32> {
    match event {
        ProcessEvent::Started(pid) => registered(active, pid),
        ProcessEvent::Ended(pid) => ended(active, pid),
    }
}

/// Which process is active after all of `events`.
pub open spec fn active_after_all(active: Option<u32>, events: Seq<ProcessEvent>) -> Option<u32>
    decreases events.len(),
{
    if events.len() == 0 {
        active
    } else {
        active_after(active_after_all(active, events.drop_last()), events.last())
    }
}

/// Whether the call that had the process which was started at `i` is over.
pub open spec fn is_over(events: Seq<ProcessEvent>, i: int) -> bool {
    match events[i] {
        ProcessEvent::Started(Some(pid)) => exists|j: int|
            i < j < events.len() && #[trigger] events[j] == ProcessEvent::Ended(Some(pid)),
        _ => true,
    }
}

/// When every call is over, in whatever order and however they ended, no
/// process is active: an abort tells none to terminate, and none that was told
/// so is killed.
pub proof fn law_no_process_is_aborted_after_the_calls(events: Seq<ProcessEvent>)
    requires
        forall|i: int| 0 <= i < events.len() ==> #[trigger] is_over(events, i),
    ensures
        active_after_all(None, events) is None,
{
    lemma_active_is_not_over(events);
    if let Some(pid) = active_after_all(None, events) {
        let i = choose|i: int|
            0 <= i < events.len() && events[i] == ProcessEvent::Started(Some(pid)) && !is_over(
                events,
                i,
            );
        assert(is_over(events, i));
    }
}

proof fn lemma_active_is_not_over(events: Seq<ProcessEvent>)
    ensures
        match active_after_all(None, events) {
            Some(pid) => exists|i: int|
                0 <= i < events.len() && events[i] == ProcessEvent::Started(Some(pid))
                    && !#[trigger] is_over(events, i),
            None => true,
        },
    decreases events.len(),
{
    if events.len() > 0 {
        let before = events.drop_last();
        let n = events.len() - 1;
        lemma_active_is_not_over(before);
        if let Some(pid) = active_after_all(None, events) {
            if events.last() == ProcessEvent::Started(Some(pid)) {
                assert(!is_over(events, n));
            } else {
                assert(active_after_all(None, before) == Some(pid));
                let i = choose|i: int|
                    0 <= i < before.len() && before[i] == ProcessEvent::Started(Some(pid))
                        && !#[trigger] is_over(before, i);
                assert(events[i] == before[i]);
                assert(!is_over(events, i)) by {
                    if is_over(events, i) {
                        let j = choose|j: int|
                            i < j < events.len() && #[trigger] events[j] == ProcessEvent::Ended(
                                Some(pid),
                            );
                        assert(j < n);
                        assert(before[j] == events[j]);
                    }
                }
            }
        }
    }
}

/// The arguments with which `pi` is started in RPC mode.
pub open spec fn rpc_arguments() -> Seq<Seq<char>> {
    seq!["--mode"@, "rpc"@, "--continue"@]
}

/// The arguments with which `pi` is started in RPC mode.
pub fn rpc_args() -> (args: Vec<String>)
    ensures
        text::texts(args@) == rpc_arguments(),
{
    let mut args: Vec<String> = Vec::new();
    args.push("--mode".to_owned());
    args.push("rpc".to_owned());
    args.push("--continue".to_owned());
    assert(text::texts(args@) =~= rpc_arguments());
    args
}

/// The arguments with which `pi` is given `prompt`; it goes on with the last
/// session unless the session is to be a fresh one.
pub open spec fn prompt_arguments(prompt: Seq<char>, fresh: bool) -> Seq<Seq<char>> {
    if fresh {
        seq!["-p"@, prompt]
    } else {
        seq!["--continue"@, "-p"@, prompt]
    }
}

/// The arguments with which `pi` is given `prompt`. `fresh` = start a new
/// session (no `--continue`).
pub fn prompt_args(prompt: &str, fresh: bool) -> (args: Vec<String>)
    ensures
        text::texts(args@) == prompt_arguments(prompt@, fresh),
{
    let mut args: Vec<String> = Vec::new();
    if !fresh {
        args.push("--continue".to_owned());
    }
    args.push("-p".to_owned());
    args.push(prompt.to_owned());
    assert(text::texts(args@) =~= prompt_arguments(prompt@, fresh));
    args
}

/// What a run of `pi` came to that wrote these texts.
pub open spec fn reply(
    success: bool,
    code: Option<i32>,
    stdout: Seq<char>,
    stderr: Seq<char>,
) -> Result<Seq<char>, AgentErrorView> {
    if !success {
        Err(AgentErrorView::NonZeroExit { code, stderr: text::trim(stderr) })
    } else if text::trim(stdout).len() == 0 {
        Err(AgentErrorView::EmptyOutput)
    } else {
        Ok(text::trim(stdout))
    }
}

/// What a run of `pi` came to that wrote these texts: its output without the
/// white space around it, unless it failed or that is empty.
pub fn prompt_reply(success: bool, code: Option<i32>, stdout: &str, stderr: &str) -> (r: Result<
    String,
    AgentError,
>)
    ensures
        text_result(r) == reply(success, code, stdout@, stderr@),
{
    if !success {
        return Err(AgentError::NonZeroExit { code, stderr: text::trimmed(stderr) });
    }
    match text::trimmed_non_empty(stdout) {
        Some(text) => Ok(text),
        None => Err(AgentError::EmptyOutput),
    }
}

/// What a run of `pi` came to that wrote these bytes.
pub fn prompt_result(success: bool, code: Option<i32>, stdout: &[u8], stderr: &[u8]) -> (r: Result<
    String,
    AgentError,
>)
    ensures
        text_result(r) == reply(
            success,
            code,
            text::lossy_text(stdout@),
            text::lossy_text(stderr@),
        ),
        vstd::utf8::valid_utf8(stdout@) && vstd::utf8::valid_utf8(stderr@) ==> text_result(r)
            == reply(
            success,
            code,
            vstd::utf8::decode_utf8(stdout@),
            vstd::utf8::decode_utf8(stderr@),
        ),
{
    prompt_reply(success, code, text::lossy(stdout).as_str(), text::lossy(stderr).as_str())
}

/// The program that ends a process, and its arguments.
pub open spec fn kill_command(pid: u32, force: bool, windows: bool) -> (Seq<char>, Seq<Seq<char>>) {
    if windows {
        ("taskkill"@, seq!["/F"@, "/PID"@, text::decimal(pid as nat)])
    } else if force {
        ("kill"@, seq!["-KILL"@, text::decimal(pid as nat)])
    } else {
        ("kill"@, seq!["-TERM"@, text::decimal(pid as nat)])
    }
}

/// The program that ends a process, and its arguments.
pub fn kill_pid(pid: u32, force: bool, windows: bool) -> (r: (String, Vec<String>))
    ensures
        (r.0@, text::texts(r.1@)) == kill_command(pid, force, windows),
{
    let mut args: Vec<String> = Vec::new();
    let program: &'static str = if windows {
        args.push("/F".to_owned());
        args.push("/PID".to_owned());
        "taskkill"
    } else {
        if force {
            args.push("-KILL".to_owned());
        } else {
            args.push("-TERM".to_owned());
        }
        "kill"
    };
    args.push(text::decimal_text(pid as u64));
    assert(text::texts(args@) =~= kill_command(pid, force, windows).1);
    (program.to_owned(), args)
}

// ── What holds of every run and call ──────────────────────────────────

/// The last argument with which `pi` is started is the prompt itself, character
/// for character, behind `-p`. Before that stands `--continue` exactly where
/// the session is not a fresh one, and nothing else.
pub proof fn law_prompt_arguments(prompt: Seq<char>, fresh: bool)
    ensures
        ({
            let args = prompt_arguments(prompt, fresh);
            &&& args.len() >= 2
            &&& args.last() == prompt
            &&& args[args.len() - 2] == "-p"@
            &&& fresh <==> args.len() == 2
            &&& !fresh <==> args.len() == 3 && args[0] == "--continue"@
        }),
{
}

/// `pi` is started in RPC mode, and goes on with the last session.
pub proof fn law_rpc_arguments()
    ensures
        rpc_arguments().len() == 3,
        rpc_arguments()[0] == "--mode"@,
        rpc_arguments()[1] == "rpc"@,
        rpc_arguments()[2] == "--continue"@,
{
}

/// What ends a process is told its id last; it is told to kill exactly where
/// that is wanted, and there is only one way on Windows.
pub proof fn law_kill_command(pid: u32, force: bool)
    ensures
        ({
            let (program, args) = kill_command(pid, force, false);
            &&& program == "kill"@
            &&& args.len() == 2
            &&& args[0] == (if force {
                "-KILL"@
            } else {
                "-TERM"@
            })
            &&& args[1] == text::decimal(pid as nat)
        }),
        ({
            let (program, args) = kill_command(pid, force, true);
            &&& program == "taskkill"@
            &&& args.len() == 3
            &&& args[0] == "/F"@
            &&& args[1] == "/PID"@
            &&& args[2] == text::decimal(pid as nat)
        }),
{
}

/// A run gives a reply exactly where it succeeded and wrote more than white
/// space: all that it wrote, without the white space around it. A run that
/// failed is told with its code and what it wrote as errors.
pub proof fn law_reply(success: bool, code: Option<i32>, stdout: Seq<char>, stderr: Seq<char>)
    ensures
        ({
            let r = reply(success, code, stdout, stderr);
            &&& r is Ok <==> success && text::trim(stdout).len() > 0
            &&& r is Ok ==> r->Ok_0 == text::trim(stdout)
            &&& !success ==> r->Err_0 == (AgentErrorView::NonZeroExit {
                code,
                stderr: text::trim(stderr),
            })
            &&& success && text::trim(stdout).len() == 0 ==> r->Err_0 is EmptyOutput
        }),
{
}

/// A run comes to what it wrote and how it exited, and to an error where it
/// could not be run.
pub proof fn law_run_result(
    words: String,
    success: bool,
    code: Option<i32>,
    stdout: Vec<u8>,
    stderr: Vec<u8>,
)
    ensures
        run_result(PromptEnd::Failed(words)) == Err::<Seq<char>, AgentErrorView>(
            AgentErrorView::SpawnFailed(words@),
        ),
        run_result(PromptEnd::Exited { success, code, stdout, stderr }) == reply(
            success,
            code,
            text::lossy_text(stdout@),
            text::lossy_text(stderr@),
        ),
{
}

/// A line is the response to a command exactly where, without the white space
/// around it, it begins with a brace and reads as a document that calls itself
/// a response and names the command.
pub proof fn law_response_line(line: Seq<char>, command: Seq<char>)
    ensures
        ({
            let object = text::trim(line);
            is_response(line, command) <==> object.len() > 0 && object[0] == '{'
                && json::json_document(object) is Ok && {
                let document = json::json_document(object)->Ok_0;
                &&& document.field("type"@) == Some(JsonView::Text("response"@))
                &&& document.field("command"@) == Some(JsonView::Text(command))
            }
        }),
{
}

/// The response that is found is the first of the lines that is one; none is
/// found exactly where no line is one.
pub proof fn law_first_response(lines: Seq<Seq<char>>, command: Seq<char>, i: int)
    ensures
        0 <= i < lines.len() && is_response(lines[i], command) && (forall|j: int|
            0 <= j < i ==> !is_response(#[trigger] lines[j], command)) ==> first_response(
            lines,
            command,
        ) == Some(lines[i]),
        (forall|j: int| 0 <= j < lines.len() ==> !is_response(#[trigger] lines[j], command))
            ==> first_response(lines, command) is None,
    decreases lines.len(),
{
    if lines.len() > 0 {
        let rest = lines.drop_first();
        law_first_response(rest, command, i - 1);
        assert forall|j: int| 0 <= j < rest.len() implies #[trigger] rest[j] == lines[j + 1] by {}
        if 0 < i < lines.len() {
            assert(rest[i - 1] == lines[i]);
            assert((forall|j: int| 0 <= j < i ==> !is_response(#[trigger] lines[j], command)) ==> (
            forall|j: int| 0 <= j < i - 1 ==> !is_response(#[trigger] rest[j], command)));
            assert((forall|j: int| 0 <= j < i ==> !is_response(#[trigger] lines[j], command))
                ==> !is_response(lines[0], command));
        }
        assert((forall|j: int| 0 <= j < lines.len() ==> !is_response(#[trigger] lines[j], command))
            ==> !is_response(lines[0], command));
    }
}

/// Each part of what is known of a session is the text that the document has
/// for it; the model may also be an object with a provider and an id.
pub proof fn law_session_state(
    document: JsonView,
    s: Seq<char>,
    model: JsonView,
    provider: Seq<char>,
)
    ensures
        ({
            let state = session_state(document);
            &&& document.field("sessionId"@) == Some(JsonView::Text(s)) ==> state.session_id == s
            &&& document.text_field("sessionId"@) is None ==> state.session_id.len() == 0
            &&& document.field("sessionFile"@) == Some(JsonView::Text(s)) ==> state.session_file
                == s
            &&& document.text_field("sessionFile"@) is None ==> state.session_file.len() == 0
            &&& document.field("thinkingLevel"@) == Some(JsonView::Text(s)) <==> state.thinking
                == Some(s)
            &&& document.field("model"@) == Some(JsonView::Text(s)) ==> state.model == Some(s)
            &&& document.field("model"@) is None ==> state.model is None
            &&& document.field("model"@) == Some(model) && model.field("provider"@) == Some(
                JsonView::Text(provider),
            ) && model.field("id"@) == Some(JsonView::Text(s)) ==> state.model == Some(
                provider + seq!['/'] + s,
            )
            &&& document.field("model"@) == Some(model) && model.field("provider"@) == Some(
                JsonView::Text(provider),
            ) && model.text_field("id"@) is None ==> state.model == Some(provider + seq!['/'])
            &&& document.field("model"@) == Some(model) && !(model is Text) && model.text_field(
                "provider"@,
            ) is None ==> state.model is None
        }),
{
    reveal_strlit("/");
    assert("/"@ =~= seq!['/']);
    assert(provider + seq!['/'] + Seq::<char>::empty() =~= provider + seq!['/']);
}

/// Each count is the integer that the document has for it under its tokens, or
/// nothing; the cost is the number that it has for it.
pub proof fn law_session_stats(document: JsonView, tokens: JsonView, n: serde_json::Number)
    ensures
        ({
            let stats = session_stats(document);
            let count = |key: Seq<char>|
                match tokens.field(key) {
                    Some(JsonView::Number(number)) => match json::number_u64(number) {
                        Some(count) => count,
                        None => 0,
                    },
                    _ => 0,
                };
            &&& document.field("tokens"@) == Some(tokens) ==> stats.tokens_input == count("input"@)
            &&& document.field("tokens"@) == Some(tokens) ==> stats.tokens_output == count(
                "output"@,
            )
            &&& document.field("tokens"@) == Some(tokens) ==> stats.tokens_cache_read == count(
                "cacheRead"@,
            )
            &&& document.field("tokens"@) is None ==> stats.tokens_input == 0 && stats.tokens_output
                == 0 && stats.tokens_cache_read == 0
            &&& document.field("cost"@) == Some(JsonView::Number(n)) <==> stats.cost == Some(n)
        }),
{
}

/// The models that are listed are those that have an id, in order: each as its
/// provider, or a question mark, a slash and its id.
pub proof fn law_model_list(
    document: JsonView,
    before: Seq<JsonView>,
    model: JsonView,
    id: Seq<char>,
    provider: Seq<char>,
)
    ensures
        model_refs(Seq::empty()).len() == 0,
        model.field("id"@) == Some(JsonView::Text(id)) && model.field("provider"@) == Some(
            JsonView::Text(provider),
        ) ==> model_refs(before.push(model)) == model_refs(before).push(
            provider + seq!['/'] + id,
        ),
        model.field("id"@) == Some(JsonView::Text(id)) && model.text_field("provider"@) is None
            ==> model_refs(before.push(model)) == model_refs(before).push(seq!['?', '/'] + id),
        model.text_field("id"@) is None ==> model_refs(before.push(model)) == model_refs(before),
        document.field("models"@) == Some(JsonView::Array(before)) ==> model_list(document)
            == model_refs(before),
        (document.field("models"@) is None || !(document.field("models"@)->0 is Array))
            ==> model_list(document).len() == 0,
{
    reveal_strlit("/");
    reveal_strlit("?");
    assert("/"@ =~= seq!['/']);
    assert("?"@ + "/"@ + id =~= seq!['?', '/'] + id);
    assert(before.push(model).drop_last() =~= before);
    assert(before.push(model).last() == model);
}

/// The levels that are listed are those of the list that are texts, in order.
pub proof fn law_level_list(
    document: JsonView,
    before: Seq<JsonView>,
    item: JsonView,
    level: Seq<char>,
)
    ensures
        texts_among(Seq::empty()).len() == 0,
        texts_among(before.push(JsonView::Text(level))) == texts_among(before).push(level),
        !(item is Text) ==> texts_among(before.push(item)) == texts_among(before),
        document.field("levels"@) == Some(JsonView::Array(before)) ==> level_list(document)
            == texts_among(before),
        (document.field("levels"@) is None || !(document.field("levels"@)->0 is Array))
            ==> level_list(document).len() == 0,
{
    let with_text = before.push(JsonView::Text(level));
    assert(with_text.drop_last() =~= before);
    assert(with_text.last() == JsonView::Text(level));
    assert(before.push(item).drop_last() =~= before);
    assert(before.push(item).last() == item);
}

/// Each request has a command of its own, and sends that, what it says, and
/// nothing more.
pub proof fn law_request_commands(a: Seq<char>, b: Seq<char>)
    ensures
        RequestView::State.command() == "get_state"@,
        RequestView::SessionStats.command() == "get_session_stats"@,
        (RequestView::SetModel { provider: a, model_id: b }).command() == "set_model"@,
        RequestView::Models.command() == "get_available_models"@,
        (RequestView::SetThinking { level: a }).command() == "set_thinking_level"@,
        RequestView::ThinkingLevels.command() == "get_available_thinking_levels"@,
        RequestView::State.fields().len() == 1,
        RequestView::SessionStats.fields().len() == 1,
        RequestView::Models.fields().len() == 1,
        RequestView::ThinkingLevels.fields().len() == 1,
        (RequestView::SetModel { provider: a, model_id: b }).fields() == seq![
            ("type"@, "set_model"@),
            ("provider"@, a),
            ("modelId"@, b),
        ],
        (RequestView::SetThinking { level: a }).fields() == seq![
            ("type"@, "set_thinking_level"@),
            ("level"@, a),
        ],
{
    assert((RequestView::SetModel { provider: a, model_id: b }).fields() =~= seq![
        ("type"@, "set_model"@),
        ("provider"@, a),
        ("modelId"@, b),
    ]);
    assert((RequestView::SetThinking { level: a }).fields() =~= seq![
        ("type"@, "set_thinking_level"@),
        ("level"@, a),
    ]);
}

/// What is sent is the object that was written and a line feed; that it could
/// not be written fails the command.
pub proof fn law_sent_line(command: Seq<char>, object: Seq<char>)
    ensures
        sent_line(command, Ok(object)) is Ok,
        sent_line(command, Ok(object))->Ok_0.drop_last() == object,
        sent_line(command, Ok(object))->Ok_0.last() == '\n',
        sent_line(command, Err(object)) == Err::<Seq<char>, AgentErrorView>(
            AgentErrorView::Rpc { command, error: object },
        ),
{
    assert(sent_line(command, Ok(object))->Ok_0.drop_last() =~= object);
}

/// A response is an answer exactly where it says that it is a success; the
/// answer is its data. Any other is the error that it names.
pub proof fn law_answer(document: JsonView, command: Seq<char>, words: Seq<char>)
    ensures
        ({
            let r = answer(Ok(document), command);
            let success = document.field("success"@) == Some(JsonView::Bool(true));
            &&& r is Ok <==> success
            &&& success && document.field("data"@) is Some ==> r->Ok_0 == document.field(
                "data"@,
            )->0
            &&& success && document.field("data"@) is None ==> r->Ok_0 is Null
            &&& !success && document.field("error"@) == Some(JsonView::Text(words)) ==> r->Err_0
                == (AgentErrorView::Rpc { command, error: words })
            &&& !success && document.text_field("error"@) is None ==> r->Err_0
                == (AgentErrorView::Rpc { command, error: "unknown error"@ })
        }),
        answer(Err(words), command) == Err::<JsonView, AgentErrorView>(
            AgentErrorView::Rpc { command, error: "bad response: "@ + words },
        ),
        received(None, command) == Err::<JsonView, AgentErrorView>(
            AgentErrorView::Rpc { command, error: "no response received"@ },
        ),
        received(Some(words), command) == answer(json::json_document(words), command),
{
}

/// How a call goes on and ends: the program is killed where it was started and
/// asked but gave no response that could be read in time, and every failure
/// names the command and what went wrong.
pub proof fn law_call(command: Seq<char>, seconds: u64, words: Seq<char>)
    ensures
        rpc_next(command, seconds, RpcEventView::Written) is Read,
        rpc_next(command, seconds, RpcEventView::SpawnFailed(words)) == RpcActionView::Fail(
            AgentErrorView::SpawnFailed(words),
        ),
        rpc_next(command, seconds, RpcEventView::WriteFailed(words)) == RpcActionView::Fail(
            AgentErrorView::Rpc { command, error: words },
        ),
        rpc_next(command, seconds, RpcEventView::ReadFailed(words)) == RpcActionView::Kill(
            AgentErrorView::Rpc { command, error: words },
        ),
        rpc_next(command, seconds, RpcEventView::TimedOut) == RpcActionView::Kill(
            AgentErrorView::RpcTimeout { command, seconds },
        ),
        rpc_next(command, seconds, RpcEventView::EndOfOutput) == RpcActionView::Finish(
            Err(AgentErrorView::Rpc { command, error: "no response received"@ }),
        ),
        ({
            let found = first_response(text::lines(words), command);
            let action = rpc_next(command, seconds, RpcEventView::Line(words));
            &&& found is None <==> action is Read
            &&& found is Some ==> action == RpcActionView::Finish(
                answer(json::json_document(text::trim(found->0)), command),
            )
        }),
{
}

/// What a call came to is what its last action says, and a call that reads on
/// came to nothing yet.
pub proof fn law_call_outcome(e: AgentErrorView, r: Result<JsonView, AgentErrorView>)
    ensures
        rpc_outcome(RpcActionView::Read) is None,
        rpc_outcome(RpcActionView::Finish(r)) == Some(r),
        rpc_outcome(RpcActionView::Kill(e)) == Some(Err::<JsonView, AgentErrorView>(e)),
        rpc_outcome(RpcActionView::Fail(e)) == Some(Err::<JsonView, AgentErrorView>(e)),
{
}

/// The active process is the one that was started last, until its call is over.
pub proof fn law_active_process(active: Option<u32>, pid: u32, other: u32)
    ensures
        registered(active, Some(pid)) == Some(pid),
        registered(active, None) == active,
        ended(active, None) == active,
        ended(Some(pid), Some(pid)) is None,
        pid != other ==> ended(Some(pid), Some(other)) == Some(pid),
        ended(None, Some(pid)) is None,
{
}

/// What is wrong with a model reference is told with the reference.
pub proof fn law_bad_model_ref(model_ref: Seq<char>)
    ensures
        bad_model_ref(model_ref) == (AgentErrorView::Rpc {
            command: "set_model"@,
            error: "invalid model ref '"@ + model_ref + "', expected provider/modelId"@,
        }),
{
}

/// The patience with `pi`, in seconds.
pub proof fn law_patience()
    ensures
        RPC_TIMEOUT_SECS == 15,
        REAP_TIMEOUT_SECS == 5,
        KILL_GRACE_SECS == 5,
{
}

/// What an error, a session and a request say is what they are.
pub proof fn law_agent_views(e: AgentError, state: SessionState, request: Request)
    ensures
        match (e, e@) {
            (AgentError::SpawnFailed(s), AgentErrorView::SpawnFailed(v)) => v == s@,
            (
                AgentError::NonZeroExit { code, stderr },
                AgentErrorView::NonZeroExit { code: c, stderr: v },
            ) => c == code && v == stderr@,
            (AgentError::EmptyOutput, AgentErrorView::EmptyOutput) => true,
            (AgentError::Rpc { command, error }, AgentErrorView::Rpc { command: c, error: v }) => c
                == command@ && v == error@,
            (
                AgentError::RpcTimeout { command, seconds },
                AgentErrorView::RpcTimeout { command: c, seconds: n },
            ) => c == command@ && n == seconds,
            _ => false,
        },
        state@.session_id == state.session_id@,
        state@.session_file == state.session_file@,
        state@.model == text::optional(state.model),
        state@.thinking == text::optional(state.thinking),
        match (request, request@) {
            (Request::State, RequestView::State) => true,
            (Request::SessionStats, RequestView::SessionStats) => true,
            (Request::Models, RequestView::Models) => true,
            (Request::ThinkingLevels, RequestView::ThinkingLevels) => true,
            (
                Request::SetModel { provider, model_id },
                RequestView::SetModel { provider: p, model_id: m },
            ) => p == provider@ && m == model_id@,
            (Request::SetThinking { level }, RequestView::SetThinking { level: v }) => v == level@,
            _ => false,
        },
{
}

/// A result says its value or its error, as it is.
pub proof fn law_agent_results(s: String, e: AgentError, document: Json)
    ensures
        text_result(Ok(s)) == Ok::<Seq<char>, AgentErrorView>(s@),
        text_result(Err(e)) == Err::<Seq<char>, AgentErrorView>(e@),
        document_result(Ok(document)) == Ok::<JsonView, AgentErrorView>(document@),
        document_result(Err(e)) == Err::<JsonView, AgentErrorView>(e@),
        written_view(Ok(s)) == Ok::<Seq<char>, Seq<char>>(s@),
        written_view(Err(s)) == Err::<Seq<char>, Seq<char>>(s@),
        read_view(Ok(document)) == Ok::<JsonView, Seq<char>>(document@),
        read_view(Err(s)) == Err::<JsonView, Seq<char>>(s@),
        outcome_view(None) is None,
        outcome_view(Some(Ok(document))) == Some(Ok::<JsonView, AgentErrorView>(document@)),
        outcome_view(Some(Err(e))) == Some(Err::<JsonView, AgentErrorView>(e@)),
{
}

/// What an event and an action of a call say is what they are.
pub proof fn law_call_views(event: RpcEvent, action: RpcAction)
    ensures
        match (event, event@) {
            (RpcEvent::SpawnFailed(s), RpcEventView::SpawnFailed(v)) => v == s@,
            (RpcEvent::Written, RpcEventView::Written) => true,
            (RpcEvent::WriteFailed(s), RpcEventView::WriteFailed(v)) => v == s@,
            (RpcEvent::Line(s), RpcEventView::Line(v)) => v == s@,
            (RpcEvent::EndOfOutput, RpcEventView::EndOfOutput) => true,
            (RpcEvent::ReadFailed(s), RpcEventView::ReadFailed(v)) => v == s@,
            (RpcEvent::TimedOut, RpcEventView::TimedOut) => true,
            _ => false,
        },
        match (action, action@) {
            (RpcAction::Read, RpcActionView::Read) => true,
            (RpcAction::Finish(r), RpcActionView::Finish(v)) => v == document_result(r),
            (RpcAction::Kill(e), RpcActionView::Kill(v)) => v == e@,
            (RpcAction::Fail(e), RpcActionView::Fail(v)) => v == e@,
            _ => false,
        },
{
}

} // verus!
