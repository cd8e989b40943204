use pi_agent_connect::commands::Command;
use pi_agent_connect::config::Config;
use pi_agent_connect::gateway::{
    react, startup, to_job, version_line, version_wanted, Reaction, Startup,
};
use pi_agent_connect::router::{AuditReason, Decision, IncomingMessage};
use pi_agent_connect::worker::Job;
use std::path::PathBuf;
use std::time::Duration;

fn message(author: &str, content: &str) -> IncomingMessage {
    IncomingMessage {
        author_id: author.to_string(),
        author_name: "somebody".to_string(),
        is_bot: false,
        has_attachments: false,
        content: content.to_string(),
    }
}

fn config(user: Option<&str>) -> Config {
    Config {
        discord_token: "t".to_string(),
        allowed_user: user.map(str::to_string),
        cwd: PathBuf::from("/tmp/pi"),
        command_prefix: '.',
        prompt_timeout: Duration::from_secs(1),
    }
}

#[test]
fn messages_of_the_owner_become_jobs() {
    let job = |content: &str| react(Some("1"), "9", '.', &message("1", content));
    assert_eq!(job(" hi "), Reaction::Enqueue(Job::Prompt("hi".to_string())));
    assert_eq!(job(".n"), Reaction::Enqueue(Job::New));
    assert_eq!(job(".abort"), Reaction::Enqueue(Job::Abort));
    assert_eq!(job(".s"), Reaction::Enqueue(Job::Session));
    assert_eq!(job(".m"), Reaction::Enqueue(Job::Model(None)));
    assert_eq!(job(".t high"), Reaction::Enqueue(Job::Thinking(Some("high".to_string()))));
    assert_eq!(job("<@9>"), Reaction::Ignore);
}

#[test]
fn every_routable_decision_is_a_job() {
    assert_eq!(to_job(Decision::Command(Command::Session)), Job::Session);
    assert_eq!(
        to_job(Decision::Command(Command::Model(Some("a/b".to_string())))),
        Job::Model(Some("a/b".to_string()))
    );
    assert_eq!(to_job(Decision::Prompt("x".to_string())), Job::Prompt("x".to_string()));
}

#[test]
fn what_cannot_be_done_is_answered_at_once() {
    let mut with_file = message("1", "look");
    with_file.has_attachments = true;
    assert_eq!(
        react(Some("1"), "9", '.', &with_file),
        Reaction::Reply("[pi-agent-connect] attachments are not supported".to_string())
    );
    assert_eq!(
        react(Some("1"), "9", '!', &message("1", "!wat")),
        Reaction::Reply(
            "[pi-agent-connect] commands: !new !abort !session !model !thinking".to_string()
        )
    );
}

#[test]
fn strangers_are_noted_and_get_no_answer() {
    let long = "é".repeat(101);
    assert_eq!(
        react(Some("1"), "9", '.', &message("2", &long)),
        Reaction::Audit {
            user_id: "2".to_string(),
            user_name: "somebody".to_string(),
            reason: AuditReason::NotWhitelisted,
            preview: "é".repeat(100),
        }
    );
    assert_eq!(
        react(None, "9", '.', &message("1", ".new")),
        Reaction::Audit {
            user_id: "1".to_string(),
            user_name: "somebody".to_string(),
            reason: AuditReason::Lockdown,
            preview: ".new".to_string(),
        }
    );
    let mut bot = message("1", "hello");
    bot.is_bot = true;
    assert_eq!(react(Some("1"), "9", '.', &bot), Reaction::Ignore);
    assert_eq!(react(None, "9", '.', &bot), Reaction::Ignore);
}

#[test]
fn version_flags() {
    let args = |list: &[&str]| list.iter().map(|s| s.to_string()).collect::<Vec<_>>();
    assert!(version_wanted(&args(&["pi-agent-connect", "-V"])));
    assert!(version_wanted(&args(&["pi-agent-connect", "x", "--version"])));
    assert!(!version_wanted(&args(&["pi-agent-connect", "-v", "version"])));
    assert!(!version_wanted(&args(&[])));
    assert_eq!(version_line("pi-agent-connect", "1.0"), "pi-agent-connect 1.0");
}

#[test]
fn the_owner_is_greeted() {
    assert_eq!(
        startup(&config(Some("42"))),
        Ok(Startup::Greet {
            user_id: 42,
            message: "[pi-agent-connect] pico started: cwd=/tmp/pi, user=42".to_string(),
        })
    );
    assert_eq!(startup(&config(None)), Ok(Startup::Lockdown));
    assert_eq!(
        startup(&config(Some("bob"))),
        Err("PIAC_DISCORD_ALLOWED_USER_ID must be a numeric Discord user id, got: bob".to_string())
    );
}

#[test]
fn no_message_shuts_the_gateway_down() {
    for content in [".shutdown", ".Shutdown now", "shutdown"] {
        let reaction = react(Some("1"), "9", '.', &message("1", content));
        assert_ne!(reaction, Reaction::Enqueue(Job::Shutdown), "{content}");
    }
}
