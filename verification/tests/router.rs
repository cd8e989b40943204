use pi_agent_connect::commands::Command;
use pi_agent_connect::router::{
    classify, strip_self_mentions, AuditReason, Classification, Decision, IncomingMessage,
};

fn msg(author: &str, content: &str) -> IncomingMessage {
    IncomingMessage {
        author_id: author.to_string(),
        author_name: "n".to_string(),
        is_bot: false,
        has_attachments: false,
        content: content.to_string(),
    }
}

fn classify_dot(allowed: Option<&str>, bot: &str, m: &IncomingMessage) -> Classification {
    classify(allowed, bot, '.', m)
}

#[test]
fn bot_messages_dropped_silently() {
    let mut m = msg("123", "hello");
    m.is_bot = true;
    let c = classify_dot(Some("123"), "9", &m);
    assert_eq!(c.decision, Decision::Drop);
    assert_eq!(c.audit, None);
}

#[test]
fn lockdown_drops_everything_with_audit() {
    let c = classify_dot(None, "9", &msg("999", "hello"));
    assert_eq!(c.decision, Decision::Drop);
    assert_eq!(c.audit, Some(AuditReason::Lockdown));
}

#[test]
fn non_whitelisted_drops_with_audit() {
    let c = classify_dot(Some("123"), "9", &msg("456", "hello"));
    assert_eq!(c.decision, Decision::Drop);
    assert_eq!(c.audit, Some(AuditReason::NotWhitelisted));
}

#[test]
fn whitelisted_message_routes_to_prompt() {
    let c = classify_dot(Some("123"), "9", &msg("123", "  hello there  "));
    assert_eq!(c.decision, Decision::Prompt("hello there".to_string()));
    assert_eq!(c.audit, None);
}

#[test]
fn attachments_rejected_even_with_text() {
    let mut m = msg("123", "fix this file");
    m.has_attachments = true;
    let c = classify_dot(Some("123"), "9", &m);
    assert_eq!(c.decision, Decision::RejectAttachments);
}

#[test]
fn commands_and_unknown() {
    assert_eq!(
        classify_dot(Some("123"), "9", &msg("123", ".new")).decision,
        Decision::Command(Command::New)
    );
    assert_eq!(
        classify_dot(Some("123"), "9", &msg("123", ".n")).decision,
        Decision::Command(Command::New)
    );
    assert_eq!(
        classify_dot(Some("123"), "9", &msg("123", ".wat")).decision,
        Decision::UnknownCommand
    );
}

#[test]
fn mention_only_message_drops() {
    // A message consisting only of a bot mention becomes empty → drop.
    let c = classify_dot(Some("123"), "9", &msg("123", "<@9>"));
    assert_eq!(c.decision, Decision::Drop);
}

#[test]
fn self_mentions_stripped_from_prompt() {
    let c = classify_dot(Some("123"), "9", &msg("123", "<@9> <@!9> summarize"));
    assert_eq!(c.decision, Decision::Prompt("summarize".to_string()));
}

#[test]
fn strip_mentions() {
    assert_eq!(strip_self_mentions("<@9> hi <@!9>", "9"), " hi ");
    assert_eq!(strip_self_mentions("hi <@8>", "9"), "hi <@8>"); // other user untouched
}

#[test]
fn first_mention_is_removed_and_the_rest_kept() {
    assert_eq!(strip_self_mentions("say <@9>hi", "9"), "say hi");
    assert_eq!(strip_self_mentions("<@!9><@9>x<@!9>", "9"), "x");
    assert_eq!(strip_self_mentions("<@<@9>9>", "9"), "<@9>");
    assert_eq!(strip_self_mentions("<@<@!9>9>", "9"), "");
    assert_eq!(strip_self_mentions("<@99> <@!91>", "9"), "<@99> <@!91>");
}

#[test]
fn a_command_behind_a_mention_is_a_command() {
    let c = classify_dot(Some("123"), "9", &msg("123", "<@9> .model a/b"));
    assert_eq!(c.decision, Decision::Command(Command::Model(Some("a/b".to_string()))));
}

#[test]
fn attachments_of_strangers_are_dropped_with_audit() {
    let mut m = msg("456", "fix this file");
    m.has_attachments = true;
    let c = classify_dot(Some("123"), "9", &m);
    assert_eq!(c.decision, Decision::Drop);
    assert_eq!(c.audit, Some(AuditReason::NotWhitelisted));
}

#[test]
fn blank_messages_are_dropped() {
    let c = classify_dot(Some("123"), "9", &msg("123", " \n "));
    assert_eq!(c.decision, Decision::Drop);
    assert_eq!(c.audit, None);
}
