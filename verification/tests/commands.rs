use pi_agent_connect::commands::{parse, Command, ParseResult};

#[test]
fn full_names() {
    assert_eq!(parse(".new", '.'), ParseResult::Command(Command::New));
    assert_eq!(parse(".abort", '.'), ParseResult::Command(Command::Abort));
    assert_eq!(
        parse(".session", '.'),
        ParseResult::Command(Command::Session)
    );
    assert_eq!(
        parse(".model", '.'),
        ParseResult::Command(Command::Model(None))
    );
    assert_eq!(
        parse(".thinking", '.'),
        ParseResult::Command(Command::Thinking(None))
    );
}

#[test]
fn short_aliases() {
    assert_eq!(parse(".n", '.'), ParseResult::Command(Command::New));
    assert_eq!(parse(".a", '.'), ParseResult::Command(Command::Abort));
    assert_eq!(parse(".s", '.'), ParseResult::Command(Command::Session));
    assert_eq!(parse(".m", '.'), ParseResult::Command(Command::Model(None)));
    assert_eq!(
        parse(".t", '.'),
        ParseResult::Command(Command::Thinking(None))
    );
}

#[test]
fn args() {
    assert_eq!(
        parse(".model deepseek/deepseek-v4-flash", '.'),
        ParseResult::Command(Command::Model(Some("deepseek/deepseek-v4-flash".into())))
    );
    assert_eq!(
        parse(".model   ", '.'),
        ParseResult::Command(Command::Model(None))
    );
    assert_eq!(
        parse(".thinking high", '.'),
        ParseResult::Command(Command::Thinking(Some("high".into())))
    );
}

#[test]
fn case_insensitive() {
    assert_eq!(parse(".NEW", '.'), ParseResult::Command(Command::New));
    assert_eq!(
        parse(".Model gpt/x", '.'),
        ParseResult::Command(Command::Model(Some("gpt/x".into())))
    );
}

#[test]
fn unknown_and_plain() {
    assert_eq!(parse(".foo bar", '.'), ParseResult::Unknown);
    assert_eq!(parse(".", '.'), ParseResult::Unknown);
    assert_eq!(parse("hello there", '.'), ParseResult::NotCommand);
    assert_eq!(parse("", '.'), ParseResult::NotCommand);
}

#[test]
fn custom_prefix() {
    assert_eq!(parse("!new", '!'), ParseResult::Command(Command::New));
    assert_eq!(
        parse("!model gpt/x", '!'),
        ParseResult::Command(Command::Model(Some("gpt/x".into())))
    );
    // With `!` as prefix, `.new` is plain text and vice versa.
    assert_eq!(parse(".new", '!'), ParseResult::NotCommand);
    assert_eq!(parse("!wat", '!'), ParseResult::Unknown);
}

#[test]
fn outer_white_space_is_ignored() {
    assert_eq!(parse("  .model  a/b  ", '.'), parse(".model  a/b", '.'));
    assert_eq!(
        parse("\u{3000}.model\u{a0}a b\n", '.'),
        ParseResult::Command(Command::Model(Some("a b".into())))
    );
    assert_eq!(parse("   ", '.'), ParseResult::NotCommand);
}

#[test]
fn argument_keeps_its_own_white_space_and_case() {
    assert_eq!(
        parse(".THINKING  Very  High ", '.'),
        ParseResult::Command(Command::Thinking(Some("Very  High".into())))
    );
    assert_eq!(parse(".new and more", '.'), ParseResult::Command(Command::New));
}

#[test]
fn only_ascii_case_is_ignored() {
    assert_eq!(parse(".thinKing", '.'), ParseResult::Command(Command::Thinking(None)));
    assert_eq!(parse(".thin\u{212a}ing", '.'), ParseResult::Unknown);
    assert_eq!(parse("..new", '.'), ParseResult::Unknown);
    assert_eq!(parse(". new", '.'), ParseResult::Unknown);
}
