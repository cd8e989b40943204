use pi_agent_connect::commands::{parse, Command, ParseResult};
use pi_agent_connect::config::{
    check_prefix, env_has, mask_secret, parse_allowed_user, parse_command_prefix,
    parse_prompt_timeout, Config, Environment, Launch, DEFAULT_COMMAND_PREFIX,
    DEFAULT_PROMPT_TIMEOUT, MAX_PROMPT_TIMEOUT_SECS,
};
use std::path::PathBuf;
use std::time::Duration;

fn environment(token: Option<&str>, prefix: Option<&str>, timeout: Option<&str>) -> Environment {
    Environment {
        discord_token: token.map(str::to_string),
        allowed_user: None,
        cwd: None,
        command_prefix: prefix.map(str::to_string),
        prompt_timeout: timeout.map(str::to_string),
    }
}

fn launch(timeout_given: bool) -> Launch {
    Launch {
        name: "pi-agent-connect".to_string(),
        version: "1.2.3".to_string(),
        cwd_given: false,
        timeout_given,
    }
}

#[test]
fn empty_allowed_user_means_lockdown() {
    assert_eq!(parse_allowed_user(None), None);
    assert_eq!(parse_allowed_user(Some("  ".to_string())), None);
    assert_eq!(parse_allowed_user(Some(" 123 ".to_string())), Some("123".to_string()));
}

#[test]
fn mask_secret_keeps_only_tail() {
    assert_eq!(mask_secret("abcdefgh"), "****efgh");
    assert_eq!(mask_secret("ab"), "****ab");
    assert_eq!(mask_secret(""), "****");
}

#[test]
fn command_prefix_default_and_validation() {
    // Unset / empty / whitespace → default `.`.
    assert_eq!(parse_command_prefix(None), Ok('.'));
    assert_eq!(parse_command_prefix(Some("  ".to_string())), Ok('.'));
    // Valid symbol accepted (trimmed).
    assert_eq!(parse_command_prefix(Some(" ! ".to_string())), Ok('!'));
    assert_eq!(parse_command_prefix(Some("-".to_string())), Ok('-'));
    // Rejected: slash, mention, alphanumerics, multi-char.
    // (Pure whitespace is trimmed away first and falls back to the default.)
    assert!(parse_command_prefix(Some("/".to_string())).is_err());
    assert!(parse_command_prefix(Some("@".to_string())).is_err());
    assert!(parse_command_prefix(Some("a".to_string())).is_err());
    assert!(parse_command_prefix(Some("1".to_string())).is_err());
    assert!(parse_command_prefix(Some("--".to_string())).is_err());
}

#[test]
fn summary_masks_token_and_shows_user() {
    let c = Config {
        discord_token: "super-secret-token".to_string(),
        allowed_user: Some("123456789".to_string()),
        cwd: PathBuf::from("/tmp/pi"),
        command_prefix: '.',
        prompt_timeout: Duration::from_secs(3600),
    };
    let s = c.summary(&launch(false));
    assert!(!s.contains("super-secret-token"), "token must not appear in full");
    assert!(s.contains("****oken"), "only the tail may be shown");
    assert!(s.contains("123456789"));
    assert!(s.contains("PIAC_DISCORD_TOKEN"));
    assert!(s.contains("PIAC_DISCORD_ALLOWED_USER_ID"));
    assert!(s.contains("PIAC_CWD"));
    assert!(s.contains("PIAC_COMMAND_PREFIX"));
    assert!(s.contains("PIAC_PROMPT_TIMEOUT"));
    assert!(s.contains("3600s  (defaulted to 1 hour (3600s))"));
    assert!(s.contains(".  (optional, default: '.')"));
}

#[test]
fn summary_reports_env_sourced_timeout() {
    let c = Config {
        discord_token: "super-secret-token".to_string(),
        allowed_user: None,
        cwd: PathBuf::from("/tmp/pi"),
        command_prefix: '.',
        prompt_timeout: Duration::from_secs(7200),
    };
    let s = c.summary(&launch(true));
    assert!(
        s.contains("7200s  (from PIAC_PROMPT_TIMEOUT)"),
        "env-sourced timeout must be labelled as such: {s}"
    );
}

#[test]
fn prompt_timeout_default_and_validation() {
    let default = Duration::from_secs(DEFAULT_PROMPT_TIMEOUT);
    // Unset / empty / whitespace → default 1 hour.
    assert_eq!(parse_prompt_timeout(None), Ok(default));
    assert_eq!(parse_prompt_timeout(Some("  ".to_string())), Ok(default));
    assert_eq!(default, Duration::from_secs(60 * 60), "default must stay 1 hour");
    // Valid positive whole seconds (trimmed), including the upper bound.
    assert_eq!(parse_prompt_timeout(Some("1".to_string())), Ok(Duration::from_secs(1)));
    assert_eq!(parse_prompt_timeout(Some("5".to_string())), Ok(Duration::from_secs(5)));
    assert_eq!(parse_prompt_timeout(Some("3600".to_string())), Ok(Duration::from_secs(3600)));
    assert_eq!(parse_prompt_timeout(Some(" 7200 ".to_string())), Ok(Duration::from_secs(7200)));
    assert_eq!(
        parse_prompt_timeout(Some("604800".to_string())),
        Ok(Duration::from_secs(MAX_PROMPT_TIMEOUT_SECS)),
        "the upper bound itself must be accepted"
    );
    // Not an integer: non-numeric, negative, fractional, u64 overflow.
    for bad in ["abc", "-5", "1.5", "99999999999999999999"] {
        let err = parse_prompt_timeout(Some(bad.to_string())).unwrap_err();
        assert!(
            err.contains("positive integer number of seconds"),
            "unexpected error for {bad:?}: {err}"
        );
        assert!(err.contains(bad), "error should echo the raw value: {err}");
    }
    // 0 (no cap) is rejected on purpose; so is anything above the cap.
    let err = parse_prompt_timeout(Some("0".to_string())).unwrap_err();
    assert!(err.contains("cannot be 0"), "{err}");
    assert!(
        err.contains(&format!("1..={MAX_PROMPT_TIMEOUT_SECS}")),
        "0 error should state the valid range: {err}"
    );
    let err = parse_prompt_timeout(Some("604801".to_string())).unwrap_err();
    assert!(err.contains(&format!("at most {MAX_PROMPT_TIMEOUT_SECS} seconds")), "{err}");
    assert!(err.contains("604801"), "error should echo the raw value: {err}");
}

#[test]
fn load_missing_token_fails() {
    let err = Config::load(environment(None, None, None), None).unwrap_err();
    assert!(err.contains("PIAC_DISCORD_TOKEN is required"), "{err}");
}

#[test]
fn load_bad_prefix_fails_fast() {
    let err = Config::load(environment(Some("tok"), Some("//"), None), None).unwrap_err();
    assert!(err.contains("single character"), "{err}");
}

#[test]
fn load_bad_timeout_fails_fast() {
    let err = Config::load(environment(Some("tok"), None, Some("0")), None).unwrap_err();
    assert!(err.contains("cannot be 0"), "{err}");
}

#[test]
fn load_oversized_timeout_fails_fast() {
    let err = Config::load(environment(Some("tok"), None, Some("604801")), None).unwrap_err();
    assert!(err.contains(&format!("at most {MAX_PROMPT_TIMEOUT_SECS} seconds")), "{err}");
}

#[test]
fn load_reports_the_first_fault() {
    let err = Config::load(environment(None, Some("//"), Some("0")), None).unwrap_err();
    assert_eq!(err, "PIAC_DISCORD_TOKEN is required (set it in the environment)");
    let err = Config::load(environment(Some(""), Some("/"), Some("0")), None).unwrap_err();
    assert!(err.starts_with("PIAC_COMMAND_PREFIX cannot be '/'"), "{err}");
}

#[test]
fn load_takes_everything_from_the_environment() {
    let mut env = environment(Some("tok"), Some(" ! "), Some("60"));
    env.allowed_user = Some(" 42 ".to_string());
    env.cwd = Some("/srv/pi ".to_string());
    let config = Config::load(env, Some(PathBuf::from("/home"))).unwrap();
    assert_eq!(
        config,
        Config {
            discord_token: "tok".to_string(),
            allowed_user: Some("42".to_string()),
            cwd: PathBuf::from("/srv/pi "),
            command_prefix: '!',
            prompt_timeout: Duration::from_secs(60),
        }
    );
}

#[test]
fn load_falls_back_to_the_launch_directory() {
    let mut env = environment(Some("tok"), None, None);
    env.cwd = Some("  ".to_string());
    let config = Config::load(env.clone(), Some(PathBuf::from("/home"))).unwrap();
    assert_eq!(config.cwd, PathBuf::from("/home"));
    assert_eq!(config.command_prefix, DEFAULT_COMMAND_PREFIX);
    assert_eq!(config.prompt_timeout, Duration::from_secs(3600));
    assert_eq!(config.allowed_user, None);
    let config = Config::load(env, None).unwrap();
    assert_eq!(config.cwd, PathBuf::from("."));
}

#[test]
fn prefix_errors_say_what_is_wrong() {
    let error = |s: &str| parse_command_prefix(Some(s.to_string())).unwrap_err();
    assert_eq!(error("--"), "PIAC_COMMAND_PREFIX must be a single character, got: --");
    assert_eq!(
        error("/"),
        "PIAC_COMMAND_PREFIX cannot be '/': Discord/Slack intercept it as slash commands"
    );
    assert_eq!(error("@"), "PIAC_COMMAND_PREFIX cannot be '@': it is a mention on every platform");
    assert_eq!(error("é"), "PIAC_COMMAND_PREFIX must be a symbol, got: é");
    assert_eq!(parse_command_prefix(Some("¿".to_string())), Ok('¿'));
    assert_eq!(check_prefix('x', false), Ok('x'));
    assert_eq!(
        check_prefix('x', true),
        Err("PIAC_COMMAND_PREFIX must be a symbol, got: x".to_string())
    );
    assert!(check_prefix('\u{3000}', false).is_err());
}

#[test]
fn an_accepted_prefix_is_accepted_again_and_can_be_used() {
    for raw in [None, Some(" "), Some("."), Some(" ! "), Some("-"), Some("¿"), Some("\u{7f}")] {
        let c = parse_command_prefix(raw.map(str::to_string)).unwrap();
        assert_eq!(parse_command_prefix(Some(c.to_string())), Ok(c));
        assert_eq!(parse(&format!("{c}new"), c), ParseResult::Command(Command::New));
    }
}

#[test]
fn timeouts_at_the_bounds() {
    assert_eq!(parse_prompt_timeout(Some("+7".to_string())), Ok(Duration::from_secs(7)));
    assert_eq!(parse_prompt_timeout(Some("007".to_string())), Ok(Duration::from_secs(7)));
    for bad in ["+", "++7", "7s", "18446744073709551616"] {
        assert!(parse_prompt_timeout(Some(bad.to_string())).is_err(), "{bad}");
    }
    assert_eq!(
        parse_prompt_timeout(Some("18446744073709551615".to_string())).unwrap_err(),
        "PIAC_PROMPT_TIMEOUT must be at most 604800 seconds (7 days), got: 18446744073709551615"
    );
    assert_eq!(
        parse_prompt_timeout(Some("+0".to_string())).unwrap_err(),
        "PIAC_PROMPT_TIMEOUT cannot be 0 (a run without a cap can hang the worker queue forever); use 1..=604800 seconds"
    );
}

#[test]
fn variables_that_are_blank_count_as_unset() {
    assert!(!env_has(&None));
    assert!(!env_has(&Some(" \t".to_string())));
    assert!(env_has(&Some(" x".to_string())));
}

#[test]
fn the_whole_summary() {
    let config = |token: &str| Config {
        discord_token: token.to_string(),
        allowed_user: None,
        cwd: PathBuf::from("/tmp/pi"),
        command_prefix: '!',
        prompt_timeout: Duration::from_millis(1999),
    };
    let launch = Launch {
        name: "gate".to_string(),
        version: "0.9".to_string(),
        cwd_given: true,
        timeout_given: true,
    };
    let expected = "gate v0.9 configuration (environment)\n  \
        PIAC_DISCORD_TOKEN               ****cret  (required)\n  \
        PIAC_DISCORD_ALLOWED_USER_ID     (unset)  (lockdown mode)\n  \
        PIAC_CWD                         /tmp/pi  (from PIAC_CWD)\n  \
        PIAC_COMMAND_PREFIX              !  (optional, default: '.')\n  \
        PIAC_PROMPT_TIMEOUT              1s  (from PIAC_PROMPT_TIMEOUT)\n";
    assert_eq!(config("my secret").summary(&launch), expected);
    // Only the end of the token shows.
    assert_eq!(config("another secret").summary(&launch), expected);
}
