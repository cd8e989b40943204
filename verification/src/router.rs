//! Message classification. Decides what happens to each incoming message
//! before it touches the worker queue.

use crate::commands;
use crate::commands::{Command, CommandView, ParseResult, ParseView};
use crate::text;
use vstd::prelude::*;

verus! {

/// A message as it comes in.
#[derive(Debug, Clone, PartialEq, Eq)]
pub struct IncomingMessage {
    pub author_id: String,
    pub author_name: String,
    pub is_bot: bool,
    pub has_attachments: bool,
    pub content: String,
}

/// Why a message was turned away.
#[derive(Debug, Clone, PartialEq, Eq)]
pub enum AuditReason {
    /// No allowed user is configured: everything is logged and ignored.
    Lockdown,
    /// The author is not the allowed user.
    NotWhitelisted,
}

/// What is to be done with a message.
#[derive(Debug, Clone, PartialEq, Eq)]
pub enum Decision {
    /// Silently drop (bot message, not the allowed user, lockdown, empty content).
    Drop,
    RejectAttachments,
    UnknownCommand,
    Command(Command),
    Prompt(String),
}

/// What a [`Decision`] says.
pub enum DecisionView {
    Drop,
    RejectAttachments,
    UnknownCommand,
    Command(CommandView),
    Prompt(Seq<char>),
}

impl View for Decision {
    type V = DecisionView;

    open spec fn view(&self) -> DecisionView {
        match *self {
            Decision::Drop => DecisionView::Drop,
            Decision::RejectAttachments => DecisionView::RejectAttachments,
            Decision::UnknownCommand => DecisionView::UnknownCommand,
            Decision::Command(c) => DecisionView::Command(c@),
            Decision::Prompt(s) => DecisionView::Prompt(s@),
        }
    }
}

/// A decision, and the reason where the message is to be noted.
#[derive(Debug, Clone, PartialEq, Eq)]
pub struct Classification {
    pub decision: Decision,
    pub audit: Option<AuditReason>,
}

/// What a [`Classification`] says.
pub struct ClassificationView {
    pub decision: DecisionView,
    pub audit: Option<AuditReason>,
}

impl View for Classification {
    type V = ClassificationView;

    open spec fn view(&self) -> ClassificationView {
        ClassificationView { decision: self.decision@, audit: self.audit }
    }
}

/// What an optional text says.
pub open spec fn known(s: Option<&str>) -> Option<Seq<char>> {
    match s {
        Some(t) => Some(t@),
        None => None,
    }
}

/// A mention of `id`, with `mark` behind its first two characters.
pub open spec fn mention(mark: Seq<char>, id: Seq<char>) -> Seq<char> {
    mark + id + ">"@
}

/// `content` without mentions of `bot_id`: first those with an exclamation
/// mark, then those without.
pub open spec fn unmentioned(content: Seq<char>, bot_id: Seq<char>) -> Seq<char> {
    text::without(
        text::without(content, mention("<@!"@, bot_id)),
        mention("<@"@, bot_id),
    )
}

/// What is to be done with the text of a message of the allowed user.
pub open spec fn routed(message: Seq<char>, prefix: char) -> DecisionView {
    if message.len() == 0 {
        DecisionView::Drop
    } else {
        match commands::parsed(message, prefix) {
            ParseView::Command(c) => DecisionView::Command(c),
            ParseView::Unknown => DecisionView::UnknownCommand,
            ParseView::NotCommand => DecisionView::Prompt(message),
        }
    }
}

/// What is to be done with `msg`.
pub open spec fn classified(
    allowed_user: Option<Seq<char>>,
    bot_id: Seq<char>,
    prefix: char,
    msg: IncomingMessage,
) -> ClassificationView {
    if msg.is_bot {
        ClassificationView { decision: DecisionView::Drop, audit: None }
    } else if allowed_user is None {
        ClassificationView { decision: DecisionView::Drop, audit: Some(AuditReason::Lockdown) }
    } else if allowed_user != Some(msg.author_id@) {
        ClassificationView {
            decision: DecisionView::Drop,
            audit: Some(AuditReason::NotWhitelisted),
        }
    } else if msg.has_attachments {
        ClassificationView { decision: DecisionView::RejectAttachments, audit: None }
    } else {
        ClassificationView {
            decision: routed(text::trim(unmentioned(msg.content@, bot_id)), prefix),
            audit: None,
        }
    }
}

/// Decides what is to be done with `msg`. Only the allowed user gets past the
/// first three steps; with no allowed user nobody does.
pub fn classify(
    allowed_user: Option<&str>,
    bot_id: &str,
    prefix: char,
    msg: &IncomingMessage,
) -> (r: Classification)
    ensures
        r@ == classified(known(allowed_user), bot_id@, prefix, *msg),
{
    if msg.is_bot {
        return Classification { decision: Decision::Drop, audit: None };
    }
    match allowed_user {
        None => {
            return Classification {
                decision: Decision::Drop,
                audit: Some(AuditReason::Lockdown),
            };
        },
        Some(user) => {
            if !text::same(user, msg.author_id.as_str()) {
                return Classification {
                    decision: Decision::Drop,
                    audit: Some(AuditReason::NotWhitelisted),
                };
            }
        },
    }
    if msg.has_attachments {
        return Classification { decision: Decision::RejectAttachments, audit: None };
    }
    let content = strip_self_mentions(msg.content.as_str(), bot_id);
    let message = text::trimmed(content.as_str());
    if message.as_str().is_empty() {
        return Classification { decision: Decision::Drop, audit: None };
    }
    match commands::parse(message.as_str(), prefix) {
        ParseResult::Command(c) => Classification { decision: Decision::Command(c), audit: None },
        ParseResult::Unknown => Classification {
            decision: Decision::UnknownCommand,
            audit: None,
        },
        ParseResult::NotCommand => Classification {
            decision: Decision::Prompt(message),
            audit: None,
        },
    }
}

/// Remove the bot's own mentions (`<@id>` / `<@!id>`) from message content.
pub fn strip_self_mentions(content: &str, bot_id: &str) -> (s: String)
    ensures
        s@ == unmentioned(content@, bot_id@),
{
    let mut nick = "<@!".to_owned();
    nick.append(bot_id);
    nick.append(">");
    let mut plain = "<@".to_owned();
    plain.append(bot_id);
    plain.append(">");
    proof {
        reveal_strlit(">");
    }
    let first = text::removed(content, nick.as_str());
    text::removed(first.as_str(), plain.as_str())
}

// ── What holds of every message ───────────────────────────────────────

/// A message is dropped unless it comes from the allowed user and from no bot.
pub proof fn law_only_the_allowed_user(
    allowed_user: Option<Seq<char>>,
    bot_id: Seq<char>,
    prefix: char,
    msg: IncomingMessage,
)
    requires
        !(classified(allowed_user, bot_id, prefix, msg).decision is Drop),
    ensures
        !msg.is_bot,
        allowed_user == Some(msg.author_id@),
        classified(allowed_user, bot_id, prefix, msg).audit is None,
{
}

/// Without an allowed user every message is dropped, and every one but a
/// bot's is noted.
pub proof fn law_lockdown(bot_id: Seq<char>, prefix: char, msg: IncomingMessage)
    ensures
        classified(None, bot_id, prefix, msg).decision is Drop,
        !msg.is_bot ==> classified(None, bot_id, prefix, msg).audit == Some(AuditReason::Lockdown),
{
}

/// What is handed to `pi` is the message without mentions of the bot and
/// without white space around it; it is not empty and does not begin with the
/// prefix of commands.
pub proof fn law_prompt_text(
    allowed_user: Option<Seq<char>>,
    bot_id: Seq<char>,
    prefix: char,
    msg: IncomingMessage,
)
    requires
        classified(allowed_user, bot_id, prefix, msg).decision is Prompt,
    ensures
        ({
            let prompt = classified(allowed_user, bot_id, prefix, msg).decision->Prompt_0;
            &&& prompt == text::trim(unmentioned(msg.content@, bot_id))
            &&& prompt.len() > 0
            &&& prompt[0] != prefix
            &&& !text::white(prompt[0])
            &&& !text::white(prompt.last())
        }),
{
    text::lemma_trim_twice(unmentioned(msg.content@, bot_id));
}

/// A message that mentions the bot nowhere is left as it is.
pub proof fn law_other_mentions_kept(content: Seq<char>, bot_id: Seq<char>)
    requires
        !text::occurs(content, mention("<@!"@, bot_id)),
        !text::occurs(content, mention("<@"@, bot_id)),
    ensures
        unmentioned(content, bot_id) == content,
{
    text::lemma_without_absent(content, mention("<@!"@, bot_id));
    text::lemma_without_absent(content, mention("<@"@, bot_id));
}

/// A mention of the bot is taken out and what stands before it is kept, where
/// the message mentions the bot nowhere before that.
pub proof fn law_own_mention_removed(before: Seq<char>, after: Seq<char>, bot_id: Seq<char>)
    requires
        ({
            let nick = mention("<@!"@, bot_id);
            let plain = mention("<@"@, bot_id);
            &&& !text::occurs(before + plain + after, nick)
            &&& !text::occurs(before + plain.drop_last(), plain)
        }),
    ensures
        ({
            let plain = mention("<@"@, bot_id);
            unmentioned(before + plain + after, bot_id) == before + text::without(after, plain)
        }),
{
    let nick = mention("<@!"@, bot_id);
    let plain = mention("<@"@, bot_id);
    reveal_strlit(">");
    text::lemma_without_absent(before + plain + after, nick);
    text::law_first_occurrence_removed(before, plain, after);
}

/// The same of a mention with an exclamation mark; what is left may still hold
/// mentions without one, which are taken out next.
pub proof fn law_own_nick_mention_removed(before: Seq<char>, after: Seq<char>, bot_id: Seq<char>)
    requires
        ({
            let nick = mention("<@!"@, bot_id);
            !text::occurs(before + nick.drop_last(), nick)
        }),
    ensures
        ({
            let nick = mention("<@!"@, bot_id);
            unmentioned(before + nick + after, bot_id) == text::without(
                before + text::without(after, nick),
                mention("<@"@, bot_id),
            )
        }),
{
    reveal_strlit(">");
    text::law_first_occurrence_removed(before, mention("<@!"@, bot_id), after);
}

/// A mention of the bot is its id in angle brackets, behind an at sign, or
/// behind an at sign and an exclamation mark.
pub proof fn law_mentions(bot_id: Seq<char>)
    ensures
        mention("<@"@, bot_id) == seq!['<', '@'] + bot_id + seq!['>'],
        mention("<@!"@, bot_id) == seq!['<', '@', '!'] + bot_id + seq!['>'],
{
    reveal_strlit("<@");
    reveal_strlit("<@!");
    reveal_strlit(">");
    assert(mention("<@"@, bot_id) =~= seq!['<', '@'] + bot_id + seq!['>']);
    assert(mention("<@!"@, bot_id) =~= seq!['<', '@', '!'] + bot_id + seq!['>']);
}

/// A message of the allowed user is rejected for its attachments exactly where
/// it has any, whatever else is in it, and nobody else's ever is.
pub proof fn law_attachments(
    allowed_user: Option<Seq<char>>,
    bot_id: Seq<char>,
    prefix: char,
    msg: IncomingMessage,
)
    ensures
        classified(allowed_user, bot_id, prefix, msg).decision is RejectAttachments <==> (
        !msg.is_bot && allowed_user == Some(msg.author_id@) && msg.has_attachments),
{
}

/// Whoever is not the allowed user is turned away for that reason, and no
/// message is noted for any other.
pub proof fn law_turned_away(
    allowed_user: Option<Seq<char>>,
    bot_id: Seq<char>,
    prefix: char,
    msg: IncomingMessage,
)
    ensures
        ({
            let c = classified(allowed_user, bot_id, prefix, msg);
            &&& c.audit == Some(AuditReason::Lockdown) <==> !msg.is_bot && allowed_user is None
            &&& c.audit == Some(AuditReason::NotWhitelisted) <==> !msg.is_bot && allowed_user
                is Some && allowed_user->0 != msg.author_id@
            &&& c.audit is Some ==> c.decision is Drop
            &&& msg.is_bot ==> c.decision is Drop
        }),
{
}

/// A message of the allowed user without attachments is dropped exactly where
/// nothing is left of it but mentions of the bot and white space. What is left
/// is a command, an unknown command or a prompt, as its first character and its
/// first word say.
pub proof fn law_owner_message(bot_id: Seq<char>, prefix: char, msg: IncomingMessage)
    requires
        !msg.is_bot,
        !msg.has_attachments,
    ensures
        ({
            let c = classified(Some(msg.author_id@), bot_id, prefix, msg);
            let left = text::trim(unmentioned(msg.content@, bot_id));
            &&& c.audit is None
            &&& c.decision is Drop <==> left.len() == 0
            &&& c.decision is Prompt <==> left.len() > 0 && left[0] != prefix
            &&& c.decision is Prompt ==> c.decision->Prompt_0 == left
            &&& c.decision is UnknownCommand <==> left.len() > 0 && commands::parsed(left, prefix)
                is Unknown
            &&& c.decision is Command <==> left.len() > 0 && commands::parsed(left, prefix)
                is Command
            &&& c.decision is Command ==> commands::parsed(left, prefix) == ParseView::Command(
                c.decision->Command_0,
            )
        }),
{
    text::lemma_trim_twice(unmentioned(msg.content@, bot_id));
}

/// What is looked at in a message is what the message says.
pub proof fn law_router_views(c: Classification, s: Option<&str>)
    ensures
        c@.audit == c.audit,
        c@.decision == c.decision@,
        known(None) is None,
        s is Some ==> known(s) == Some(s->0@),
        match (c.decision, c.decision@) {
            (Decision::Drop, DecisionView::Drop) => true,
            (Decision::RejectAttachments, DecisionView::RejectAttachments) => true,
            (Decision::UnknownCommand, DecisionView::UnknownCommand) => true,
            (Decision::Prompt(p), DecisionView::Prompt(v)) => v == p@,
            (Decision::Command(Command::New), DecisionView::Command(v)) => v is New,
            (Decision::Command(Command::Abort), DecisionView::Command(v)) => v is Abort,
            (Decision::Command(Command::Session), DecisionView::Command(v)) => v is Session,
            (Decision::Command(Command::Model(arg)), DecisionView::Command(v)) => v
                == CommandView::Model(text::optional(arg)),
            (Decision::Command(Command::Thinking(arg)), DecisionView::Command(v)) => v
                == CommandView::Thinking(text::optional(arg)),
            _ => false,
        },
{
}

} // verus!
