//! The chat: what is posted where, and what is done when posting fails.

use crate::text;
use crate::time;
use core::time::Duration;
use vstd::prelude::*;

verus! {

/// Whether a failed send can be retried.
///
/// The startup gate and the worker both classify failures the same way:
/// transient conditions are retried with backoff, permanent ones terminate
/// the process (a bot that cannot talk to its owner must not keep serving).
#[derive(Debug, Clone, Copy, PartialEq, Eq, Structural)]
pub enum ChatErrorKind {
    /// Network-level failure (no HTTP response), HTTP 5xx, or 429 rate limit:
    /// retrying may succeed.
    Transient,
    /// Definite refusal (4xx other than 429) or invariant violation:
    /// retrying is pointless.
    Permanent,
}

/// A failed send.
#[derive(Debug)]
pub struct ChatError {
    pub kind: ChatErrorKind,
    pub detail: String,
}

/// Exponential backoff schedule shared by the startup greeting gate and the
/// worker's fail-closed send path: the first delay, in seconds.
pub const RETRY_BACKOFF_INITIAL: u64 = 1;

/// The longest delay of the backoff schedule, in seconds.
pub const RETRY_BACKOFF_MAX: u64 = 30;

/// The delay that follows a delay of `current` nanoseconds.
pub open spec fn next_delay(current: nat) -> nat {
    if 2 * current < time::seconds(RETRY_BACKOFF_MAX as nat) {
        2 * current
    } else {
        time::seconds(RETRY_BACKOFF_MAX as nat)
    }
}

/// Next backoff delay (exponential, capped at `RETRY_BACKOFF_MAX`).
pub fn next_backoff(current: Duration) -> (next: Duration)
    requires
        2 * time::nanos(current) <= time::longest(),
    ensures
        time::nanos(next) == next_delay(time::nanos(current)),
{
    let cap = Duration::from_secs(RETRY_BACKOFF_MAX);
    match current.checked_mul(2) {
        Some(doubled) => if doubled.as_nanos() < cap.as_nanos() {
            doubled
        } else {
            cap
        },
        None => cap,
    }
}

/// Whether a request that was answered with `status` may succeed later.
pub open spec fn status_kind(status: u16) -> ChatErrorKind {
    if status == 429 || 500 <= status <= 599 {
        ChatErrorKind::Transient
    } else {
        ChatErrorKind::Permanent
    }
}

/// Classify an HTTP status code into a retry policy.
///
/// 429 (rate limit) and 5xx (server-side) are transient; every other
/// non-success status is a definite refusal that retrying cannot fix.
pub fn classify_status(status: u16) -> (kind: ChatErrorKind)
    ensures
        kind == status_kind(status),
{
    if status == 429 || (500 <= status && status <= 599) {
        ChatErrorKind::Transient
    } else {
        ChatErrorKind::Permanent
    }
}

/// What became of a request to the chat that failed.
#[derive(Debug, Clone, Copy, PartialEq, Eq, Structural)]
pub enum RequestFailure {
    /// A response came, with this HTTP status.
    Refused(u16),
    /// No response came (connection refused, timeout, DNS).
    NoResponse,
    /// Anything else: the request could not be made (bad URL, invalid header,
    /// ...), or what came back could not be made sense of.
    Faulty,
}

/// Whether a request that failed so may succeed later.
pub open spec fn failure_kind(failure: RequestFailure) -> ChatErrorKind {
    match failure {
        RequestFailure::Refused(status) => status_kind(status),
        RequestFailure::NoResponse => ChatErrorKind::Transient,
        RequestFailure::Faulty => ChatErrorKind::Permanent,
    }
}

/// Whether a request that failed so may succeed later: a response that came is
/// judged by its status code; where none came, the network may recover; and
/// every other fault is there to stay.
pub fn classify_failure(failure: &RequestFailure) -> (kind: ChatErrorKind)
    ensures
        kind == failure_kind(*failure),
{
    match failure {
        RequestFailure::Refused(status) => classify_status(*status),
        RequestFailure::NoResponse => ChatErrorKind::Transient,
        RequestFailure::Faulty => ChatErrorKind::Permanent,
    }
}

/// An error of the chat's client.
#[verifier::external_type_specification]
#[verifier::external_body]
pub struct ExSerenityError(serenity::Error);

/// What an error of the chat's client says of the request.
pub uninterp spec fn request_failure(error: serenity::Error) -> RequestFailure;

/// Tells the variants of `serenity::Error` apart: an unsuccessful request
/// carries the status of its response, a request error is one that got no
/// response, and all others are taken together.
#[verifier::external_body]
fn failure_of(error: &serenity::Error) -> (failure: RequestFailure)
    ensures
        failure == request_failure(*error),
{
    match error {
        serenity::Error::Http(serenity::http::HttpError::UnsuccessfulRequest(response)) => {
            RequestFailure::Refused(response.status_code.as_u16())
        },
        serenity::Error::Http(serenity::http::HttpError::Request(_)) => RequestFailure::NoResponse,
        _ => RequestFailure::Faulty,
    }
}

/// Classify a serenity error into a retry policy.
///
/// - An HTTP response we received (success or error) is judged by status code.
/// - A request that never got a response (connection refused, timeout, DNS) is
///   a network problem that may recover.
/// - Client-side construction errors (bad URL, invalid header, ...) are bugs:
///   retrying is pointless.
pub fn classify_serenity_error(e: &serenity::Error) -> (kind: ChatErrorKind)
    ensures
        kind == failure_kind(request_failure(*e)),
{
    classify_failure(&failure_of(e))
}

// ── Posting ───────────────────────────────────────────────────────────

/// What is to be posted.
#[derive(Debug, PartialEq, Eq)]
pub enum Posting {
    /// Nothing: there is no channel, and none is wanted.
    Nothing,
    /// These messages, in this order, until one fails.
    Chunks { channel_id: u64, chunks: Vec<String> },
}

/// One private channel, once it is known.
#[derive(Debug, PartialEq, Eq)]
pub struct DiscordChat {
    pub channel_id: Option<u64>,
    /// Lockdown mode (no allowed user configured): sending is deliberately a
    /// silent no-op, so no channel here is by design and not an error.
    pub locked: bool,
}

impl DiscordChat {
    /// A chat whose channel is not known yet.
    pub fn new(locked: bool) -> (chat: DiscordChat)
        ensures
            chat == (DiscordChat { channel_id: None, locked }),
    {
        DiscordChat { channel_id: None, locked }
    }

    /// Sets the channel that is posted to.
    pub fn set_channel(&mut self, id: u64)
        ensures
            *final(self) == (DiscordChat { channel_id: Some(id), locked: old(self).locked }),
    {
        self.channel_id = Some(id);
    }

    /// What sending `text` posts: its chunks to the channel; nothing without a
    /// channel in lockdown mode; and without a channel otherwise, an error
    /// that retrying cannot mend.
    pub fn send(&self, text: &str) -> (r: Result<Posting, ChatError>)
        ensures
            match r {
                Ok(Posting::Chunks { channel_id, chunks }) => {
                    &&& self.channel_id == Some(channel_id)
                    &&& text::texts(chunks@) == posted(text@)
                },
                Ok(Posting::Nothing) => self.channel_id is None && self.locked,
                Err(e) => {
                    &&& self.channel_id is None && !self.locked
                    &&& e.kind == ChatErrorKind::Permanent
                    &&& e.detail@
                        == "no owner channel configured (startup greeting gate failed)"@
                },
            },
    {
        match self.channel_id {
            Some(channel_id) => Ok(
                Posting::Chunks { channel_id, chunks: send_to_channel(text) },
            ),
            None => if self.locked {
                Ok(Posting::Nothing)
            } else {
                Err(
                    ChatError {
                        kind: ChatErrorKind::Permanent,
                        detail: "no owner channel configured (startup greeting gate failed)".to_owned(),
                    },
                )
            },
        }
    }
}

/// The messages that `text` is posted as.
pub open spec fn posted(text: Seq<char>) -> Seq<Seq<char>> {
    crate::format::split(text, crate::format::DISCORD_MAX as nat)
}

/// The messages that `text` is posted as, each short enough for the chat.
pub fn send_to_channel(text: &str) -> (chunks: Vec<String>)
    ensures
        text::texts(chunks@) == posted(text@),
{
    crate::format::split_message(text, crate::format::discord_max())
}

/// No message that is posted is longer than the chat takes.
pub proof fn law_posted_fits(text: Seq<char>)
    ensures
        forall|i: int|
            0 <= i < posted(text).len() ==> text::byte_len(#[trigger] posted(text)[i])
                <= crate::format::DISCORD_MAX,
{
    crate::format::law_chunks_fit(text, crate::format::DISCORD_MAX as nat);
}

/// What follows when a piece of a message was said, or could not be.
#[derive(Debug, Clone, Copy, PartialEq, Eq, Structural)]
pub enum PostStep {
    /// Say the next piece.
    Next,
    /// Every piece was said.
    Done,
    /// Say no more: the message as a whole has failed.
    Failed(ChatErrorKind),
}

/// What follows, where `posted` pieces of `total` had been said and the next
/// one came to `result`.
pub open spec fn post_step(
    posted: nat,
    total: nat,
    result: Result<(), ChatErrorKind>,
) -> PostStep {
    match result {
        Err(kind) => PostStep::Failed(kind),
        Ok(_) => if posted + 1 == total {
            PostStep::Done
        } else {
            PostStep::Next
        },
    }
}

/// What follows, where `posted` pieces of `total` had been said and the next
/// one came to `result`.
pub fn after_post(posted: usize, total: usize, result: Result<(), ChatErrorKind>) -> (step:
    PostStep)
    requires
        posted < total,
    ensures
        step == post_step(posted as nat, total as nat, result),
{
    match result {
        Err(kind) => PostStep::Failed(kind),
        Ok(_) => if posted + 1 == total {
            PostStep::Done
        } else {
            PostStep::Next
        },
    }
}

/// The same, where the next piece was said unless `error` is why it could not
/// be.
pub fn after_chunk(posted: usize, total: usize, error: Option<&serenity::Error>) -> (step: PostStep)
    requires
        posted < total,
    ensures
        step == post_step(
            posted as nat,
            total as nat,
            match error {
                Some(e) => Err(failure_kind(request_failure(*e))),
                None => Ok(()),
            },
        ),
{
    match error {
        Some(e) => after_post(posted, total, Err(classify_serenity_error(e))),
        None => after_post(posted, total, Ok(())),
    }
}

/// How many pieces are tried, and what the message comes to, where `posted`
/// pieces were said and each piece comes to what `answers` has for it.
pub open spec fn post_from(posted: nat, answers: Seq<Result<(), ChatErrorKind>>) -> (
    nat,
    Result<(), ChatErrorKind>,
)
    decreases answers.len() - posted,
{
    if posted >= answers.len() {
        (posted, Ok(()))
    } else {
        match post_step(posted, answers.len(), answers[posted as int]) {
            PostStep::Next => post_from(posted + 1, answers),
            PostStep::Done => (posted + 1, Ok(())),
            PostStep::Failed(kind) => (posted + 1, Err(kind)),
        }
    }
}

/// Pieces are said in order until one fails, and none after it: all that are
/// tried but the last were said. The message is delivered exactly where every
/// piece was said, and where one was not, it fails as that one did.
pub proof fn law_posting(text: Seq<char>, answers: Seq<Result<(), ChatErrorKind>>)
    requires
        answers.len() == posted(text).len(),
    ensures
        ({
            let (tried, result) = post_from(0, answers);
            &&& 1 <= tried <= posted(text).len()
            &&& forall|i: int| 0 <= i < tried - 1 ==> (#[trigger] answers[i]) is Ok
            &&& result is Ok <==> (forall|i: int|
                0 <= i < answers.len() ==> (#[trigger] answers[i]) is Ok)
            &&& result is Ok ==> tried == posted(text).len()
            &&& match result {
                Err(kind) => answers[tried - 1] == Err::<(), ChatErrorKind>(kind),
                Ok(_) => true,
            }
        }),
{
    crate::format::law_chunks_fit(text, crate::format::DISCORD_MAX as nat);
    lemma_post_from(0, answers);
}

proof fn lemma_post_from(posted: nat, answers: Seq<Result<(), ChatErrorKind>>)
    requires
        posted < answers.len(),
    ensures
        ({
            let (tried, result) = post_from(posted, answers);
            &&& posted < tried <= answers.len()
            &&& forall|i: int| posted <= i < tried - 1 ==> (#[trigger] answers[i]) is Ok
            &&& match result {
                Err(kind) => answers[tried - 1] == Err::<(), ChatErrorKind>(kind),
                Ok(_) => tried == answers.len() && answers[tried - 1] is Ok,
            }
        }),
    decreases answers.len() - posted,
{
    if post_step(posted, answers.len(), answers[posted as int]) is Next {
        lemma_post_from(posted + 1, answers);
    }
}

// ── Retrying ──────────────────────────────────────────────────────────

/// What to do after a failed send.
#[derive(Debug)]
pub enum RetryAction {
    /// Wait so long, then send again.
    Wait(Duration),
    /// The failure is final.
    GiveUp,
}

/// A send that is tried until it succeeds or fails for good.
#[derive(Debug)]
pub struct Retry {
    /// How long to wait after the next transient failure.
    pub delay: Duration,
    /// How many attempts have failed.
    pub attempt: u32,
}

/// How long the wait after the `n`th transient failure is, in nanoseconds,
/// where the first is number 0.
pub open spec fn scheduled(n: nat) -> nat
    decreases n,
{
    if n == 0 {
        time::seconds(RETRY_BACKOFF_INITIAL as nat)
    } else {
        next_delay(scheduled((n - 1) as nat))
    }
}

impl Retry {
    /// The delay is the one that the schedule has for the attempts so far.
    pub open spec fn wf(self) -> bool {
        time::nanos(self.delay) == scheduled(self.attempt as nat)
    }

    /// A send that has not failed yet.
    pub fn new() -> (retry: Retry)
        ensures
            retry.wf(),
            retry.attempt == 0,
    {
        Retry { delay: Duration::from_secs(RETRY_BACKOFF_INITIAL), attempt: 0 }
    }

    /// Takes note of a failed attempt. A transient failure is retried after the
    /// delay that the schedule has for it; a permanent one is final.
    pub fn failed(&mut self, kind: ChatErrorKind) -> (action: RetryAction)
        requires
            old(self).wf(),
            kind == ChatErrorKind::Transient ==> old(self).attempt < u32::MAX,
        ensures
            final(self).wf(),
            match action {
                RetryAction::Wait(delay) => {
                    &&& kind == ChatErrorKind::Transient
                    &&& time::nanos(delay) == scheduled(old(self).attempt as nat)
                    &&& final(self).attempt == old(self).attempt + 1
                },
                RetryAction::GiveUp => {
                    &&& kind == ChatErrorKind::Permanent
                    &&& *final(self) == *old(self)
                },
            },
    {
        match kind {
            ChatErrorKind::Transient => {
                let delay = self.delay;
                proof {
                    law_delays_bounded(self.attempt as nat);
                }
                self.delay = next_backoff(delay);
                self.attempt = self.attempt + 1;
                RetryAction::Wait(delay)
            },
            ChatErrorKind::Permanent => RetryAction::GiveUp,
        }
    }
}

/// The delays grow from the first to the longest and never beyond.
pub proof fn law_delays_bounded(n: nat)
    ensures
        time::seconds(RETRY_BACKOFF_INITIAL as nat) <= scheduled(n) <= scheduled(n + 1)
            <= time::seconds(RETRY_BACKOFF_MAX as nat),
    decreases n,
{
    if n > 0 {
        law_delays_bounded((n - 1) as nat);
    }
}

/// The delays are 1, 2, 4, 8 and 16 seconds, and 30 from then on.
pub proof fn law_schedule(n: nat)
    ensures
        scheduled(0) == time::seconds(1),
        scheduled(1) == time::seconds(2),
        scheduled(2) == time::seconds(4),
        scheduled(3) == time::seconds(8),
        scheduled(4) == time::seconds(16),
        n >= 5 ==> scheduled(n) == time::seconds(30),
    decreases n,
{
    reveal_with_fuel(scheduled, 6);
    if n > 5 {
        law_schedule((n - 1) as nat);
    }
}

// ── What holds of every text, failure and wait ────────────────────────

/// What is posted holds the whole text: the messages, one after the other,
/// with nothing but runs of line breaks between them, are the text itself, and
/// a text that one message can take is posted as that one message.
pub proof fn law_posted_whole(text: Seq<char>)
    ensures
        exists|gaps: Seq<nat>| #[trigger]
            crate::format::well_split(text, 2000, posted(text), gaps),
        text::byte_len(text) <= 2000 ==> posted(text) == seq![text],
        !text.contains('\n') ==> posted(text).flatten() == text,
        forall|i: int|
            0 <= i < posted(text).len() ==> text::byte_len(#[trigger] posted(text)[i]) <= 2000,
{
    crate::format::law_chunks_keep_text(text, 2000);
    let gaps = choose|gaps: Seq<nat>| #[trigger]
        crate::format::well_split(text, 2000, crate::format::split(text, 2000), gaps);
    assert(posted(text) == crate::format::split(text, 2000));
    assert(crate::format::well_split(text, 2000, posted(text), gaps));
    crate::format::law_chunks_fit(text, 2000);
    crate::format::law_whole_or_cut(text, 2000);
}

/// A response is worth a retry exactly where it is a rate limit or a fault of
/// the server; no response always is, and any other fault never.
pub proof fn law_worth_a_retry(status: u16)
    ensures
        failure_kind(RequestFailure::Refused(status)) == ChatErrorKind::Transient <==> (status
            == 429 || status / 100 == 5),
        failure_kind(RequestFailure::NoResponse) == ChatErrorKind::Transient,
        failure_kind(RequestFailure::Faulty) == ChatErrorKind::Permanent,
        status_kind(status) == failure_kind(RequestFailure::Refused(status)),
{
}

/// A wait is twice as long as the one before it, but never longer than thirty
/// seconds.
pub proof fn law_wait_doubles(current: nat)
    ensures
        next_delay(current) <= 30_000_000_000,
        next_delay(current) <= 2 * current,
        next_delay(current) == 2 * current || next_delay(current) == 30_000_000_000,
        next_delay(scheduled(0)) == 2_000_000_000,
        scheduled(0) == 1_000_000_000,
{
}

/// A piece that was said is followed by the next one, or by the end where it
/// was the last; a piece that was not said ends it all, with its own failure.
pub proof fn law_after_piece(posted: nat, total: nat, kind: ChatErrorKind)
    requires
        posted < total,
    ensures
        post_step(posted, total, Ok(())) is Done <==> posted == total - 1,
        post_step(posted, total, Ok(())) is Next <==> posted < total - 1,
        post_step(posted, total, Err(kind)) == PostStep::Failed(kind),
{
}

} // verus!
