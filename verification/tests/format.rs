use pi_agent_connect::agent::{AgentError, SessionState, SessionStats};
use pi_agent_connect::format::{
    abort_ack, agent_error, attachments_rejected, cleared_msg, commands_list, commands_list_for,
    discord_max, internal_error, levels_list, model_set, models_list, new_ack, new_session_info,
    pico, prompt_timed_out, queued, session_info, session_info_with, shutting_down, split_message,
    startup, system, thinking_set, truncate,
};
use serde_json::Number;

#[test]
fn prefix() {
    assert_eq!(pico("hi"), "[pico] hi");
}

#[test]
fn split_at_newlines() {
    let text = "aaaa\nbbbb\ncccc\ndddd";
    let chunks = split_message(text, 10);
    assert_eq!(chunks, vec!["aaaa\nbbbb\n".to_string(), "cccc\ndddd".to_string()]);
}

#[test]
fn split_hard_no_newline() {
    let text = "abcdefghijklmnop";
    let chunks = split_message(text, 8);
    assert_eq!(chunks, vec!["abcdefgh".to_string(), "ijklmnop".to_string()]);
}

#[test]
fn split_multibyte_boundaries() {
    let text = "你好世界你好世界你好世界";
    let chunks = split_message(text, 12); // 12 bytes = 4 CJK chars
    for c in &chunks {
        assert!(c.len() <= 12);
    }
    assert_eq!(chunks.iter().map(|s| s.as_str()).collect::<Vec<_>>().concat(), text);
}

#[test]
fn short_message_not_split() {
    assert_eq!(split_message("hello", 2000), vec!["hello".to_string()]);
}

#[test]
fn agent_error_mapping() {
    assert_eq!(
        agent_error(&AgentError::EmptyOutput),
        "pi finished without output"
    );
    assert_eq!(
        agent_error(&AgentError::NonZeroExit { code: Some(1), stderr: "boom".into() }),
        "pi exited with code 1: boom"
    );
    assert_eq!(
        agent_error(&AgentError::SpawnFailed("nope".into())),
        "failed to start pi: nope"
    );
    assert_eq!(
        agent_error(&AgentError::Rpc { command: "set_model".into(), error: "unknown model".into() }),
        "pi rejected: unknown model"
    );
}

#[test]
fn non_zero_exit_stderr_truncated() {
    let long = "x".repeat(400);
    let msg = agent_error(&AgentError::NonZeroExit { code: Some(2), stderr: long });
    assert!(msg.len() < 350);
    assert!(msg.starts_with("pi exited with code 2: "));
}

#[test]
fn session_info_block() {
    let state = SessionState {
        session_id: "abc".into(),
        session_file: "/tmp/s.jsonl".into(),
        model: Some("deepseek/deepseek-v4-flash".into()),
        thinking: Some("high".into()),
    };
    let s = session_info(&state, None);
    assert!(s.contains("id=abc"));
    assert!(s.contains("file=/tmp/s.jsonl"));
    assert!(s.contains("model=deepseek/deepseek-v4-flash"));
    assert!(s.contains("thinking=high"));

    let stats = SessionStats {
        tokens_input: 10,
        tokens_output: 20,
        tokens_cache_read: 30,
        cost: Number::from_f64(0.1234),
    };
    let s2 = session_info(&state, Some(&stats));
    assert!(s2.contains("tokens: in=10 out=20 cache=30 cost=0.1234"), "{s2}");
}

#[test]
fn new_session_block() {
    let state = SessionState {
        session_id: "abc".into(),
        session_file: "/tmp/s.jsonl".into(),
        model: None,
        thinking: None,
    };
    let s = new_session_info(&state);
    assert!(s.starts_with("new session: id=abc"));
    assert!(s.contains("model=unknown"));
}

#[test]
fn command_texts() {
    assert_eq!(new_ack(), "ok, next message will start a new session");
    assert_eq!(abort_ack(true, 0), "aborted running task");
    assert_eq!(abort_ack(false, 2), "nothing was running; cleared 2 queued messages");
    assert_eq!(abort_ack(false, 1), "nothing was running; cleared 1 queued message");
    assert_eq!(cleared_msg(1), "cleared 1 queued message");
    assert_eq!(queued(3), "queued (backlog: 3)");
    assert_eq!(commands_list(), "commands: /new /abort /session /model /thinking");
}

#[test]
fn gateway_messages_are_marked() {
    assert_eq!(system("hi"), "[pi-agent-connect] hi");
    assert_eq!(system(""), "[pi-agent-connect] ");
    assert_eq!(discord_max(), 2000);
}

#[test]
fn more_texts() {
    assert_eq!(abort_ack(true, 3), "aborted running task; cleared 3 queued messages");
    assert_eq!(abort_ack(false, 0), "nothing was running");
    assert_eq!(cleared_msg(0), "cleared 0 queued messages");
    assert_eq!(attachments_rejected(), "attachments are not supported");
    assert_eq!(startup("/tmp/pi", "123"), "pico started: cwd=/tmp/pi, user=123");
    assert_eq!(shutting_down(), "pico shutting down");
    assert_eq!(internal_error("agent task failed"), "internal error: agent task failed");
    assert_eq!(prompt_timed_out(3600), "pi timed out after 3600s, aborted");
    assert_eq!(model_set("a/b"), "model set to a/b");
    assert_eq!(models_list(&["a/b".to_string()]), "available models: a/b");
    assert_eq!(
        models_list(&["a/b".to_string(), "c/d".to_string()]),
        "available models: a/b, c/d"
    );
    assert_eq!(models_list(&[]), "available models: ");
    assert_eq!(thinking_set("high"), "thinking level set to high");
    assert_eq!(levels_list(&["off".to_string(), "low".to_string()]), "available levels: off, low");
}

#[test]
fn commands_are_listed_with_the_prefix() {
    assert_eq!(commands_list_for('.'), "commands: .new .abort .session .model .thinking");
    assert_eq!(commands_list_for('/'), commands_list());
}

#[test]
fn more_agent_errors() {
    assert_eq!(
        agent_error(&AgentError::NonZeroExit { code: None, stderr: "".into() }),
        "pi exited with error: "
    );
    assert_eq!(
        agent_error(&AgentError::NonZeroExit { code: Some(-7), stderr: "e".into() }),
        "pi exited with code -7: e"
    );
    assert_eq!(
        agent_error(&AgentError::RpcTimeout { command: "get_state".into(), seconds: 15 }),
        "pi rejected: timed out after 15s"
    );
}

#[test]
fn truncation_stops_before_a_character_that_does_not_fit() {
    assert_eq!(truncate("abc", 3), "abc");
    assert_eq!(truncate("abcd", 3), "abc…");
    assert_eq!(truncate("a你b", 3), "a…");
    assert_eq!(truncate("a你b", 4), "a你…");
    assert_eq!(truncate("", 0), "");
}

#[test]
fn chunks_never_exceed_the_limit() {
    // Seven bytes hold two of these characters and not three.
    let chunks = split_message("你好世界", 7);
    assert_eq!(chunks, vec!["你好".to_string(), "世界".to_string()]);
    for max in 4..20 {
        let text = "añ你𝄞\nb\n\ncc世界\nlonger line without end";
        for chunk in split_message(text, max) {
            assert!(chunk.len() <= max, "{max} {chunk:?}");
        }
    }
}

#[test]
fn chunks_keep_all_but_line_breaks() {
    let text = "one\n\n\ntwo three\nfour";
    let kept: String = split_message(text, 5).concat().chars().filter(|c| *c != '\n').collect();
    assert_eq!(kept, "onetwo threefour");
    assert_eq!(split_message("abc\n\n\ndefgh", 5), vec!["abc\n\n", "defgh"]);
    assert_eq!(split_message("", 5), vec![""]);
    assert_eq!(split_message("abcde\n", 5), vec!["abcde"]);
}

#[test]
fn a_character_wider_than_the_limit_stands_alone() {
    assert_eq!(split_message("你a", 1), vec!["你", "a"]);
}

#[test]
fn cost_is_written_with_four_digits() {
    let state = SessionState::default();
    let head = "session: id= file= model=unknown thinking=unknown";
    let stats = |cost: Option<Number>| SessionStats {
        tokens_input: 1,
        tokens_output: 2,
        tokens_cache_read: 3,
        cost,
    };
    assert_eq!(session_info(&state, None), head);
    assert_eq!(
        session_info(&state, Some(&stats(None))),
        format!("{head} tokens: in=1 out=2 cache=3 cost=n/a")
    );
    assert_eq!(
        session_info(&state, Some(&stats(Number::from_f64(0.5)))),
        format!("{head} tokens: in=1 out=2 cache=3 cost=0.5000")
    );
    assert_eq!(
        session_info(&state, Some(&stats(Some(Number::from(7u64))))),
        format!("{head} tokens: in=1 out=2 cache=3 cost=7.0000")
    );
    assert_eq!(
        session_info_with(&state, Some(&stats(None)), "free"),
        format!("{head} tokens: in=1 out=2 cache=3 cost=free")
    );
}

#[test]
fn a_shortened_text_takes_at_most_the_ellipsis_more() {
    for max in 0..12 {
        assert!(truncate("añ你𝄞 and so on", max).len() <= max + 3, "{max}");
    }
}

#[test]
fn only_runs_of_line_breaks_are_left_out_between_chunks() {
    let text = "a\nb\n\n\n\nlonger line\n\nc\nd\n";
    for max in 1..text.len() + 1 {
        let chunks = split_message(text, max);
        let mut rest = text;
        for (i, chunk) in chunks.iter().enumerate() {
            rest = rest.strip_prefix(chunk.as_str()).expect("the chunk is next");
            if !rest.is_empty() {
                // A line is cut only where no break fits.
                assert!(
                    chunk.ends_with('\n') || (!chunk.contains('\n') && chunk.len() == max),
                    "{max} {i} {chunk:?}"
                );
            }
            rest = rest.trim_start_matches('\n');
        }
        assert_eq!(rest, "", "{max}");
        // Breaks inside a chunk stay.
        assert!(max < text.len() || chunks[0] == text);
    }
}
