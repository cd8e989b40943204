use pi_agent_connect::agent::{
    find_response_line, is_answer, kill_pid, line_of, parse_level_list, parse_model_list,
    parse_session_state, parse_session_stats, prompt_args, prompt_reply, prompt_result, rpc_answer,
    rpc_args, rpc_result, set_model_request, split_model_ref, AgentError, PromptEnd, RealAgent,
    Request, RpcAction, RpcEvent, SessionStats,
};
use pi_agent_connect::json::{parse_json, Json};
use serde_json::Value;
use std::path::PathBuf;
use std::time::Duration;

fn document(text: &str) -> Json {
    parse_json(text).unwrap()
}

#[test]
fn find_response_skips_banners() {
    let output = "\
\u{1b}[32mModel catalog loaded\u{1b}[0m
some random line
{\"type\":\"response\",\"command\":\"get_state\",\"success\":true,\"data\":{\"sessionId\":\"abc\"}}
trailing junk
";
    let line = find_response_line(output, "get_state").unwrap();
    let v: Value = serde_json::from_str(line).unwrap();
    assert_eq!(v["data"]["sessionId"], "abc");
}

#[test]
fn find_response_matches_command() {
    let output = "{\"type\":\"response\",\"command\":\"set_model\",\"success\":true,\"data\":{}}";
    assert!(find_response_line(output, "set_model").is_some());
    assert!(find_response_line(output, "get_state").is_none());
}

#[test]
fn parse_state_fields() {
    let v = document(
        r#"{
            "sessionFile": "/tmp/s.jsonl",
            "sessionId": "abc123",
            "model": {"provider": "deepseek", "id": "deepseek-v4-flash"},
            "thinkingLevel": "high",
            "messageCount": 5
        }"#,
    );
    let s = parse_session_state(&v);
    assert_eq!(s.session_id, "abc123");
    assert_eq!(s.session_file, "/tmp/s.jsonl");
    assert_eq!(s.model.as_deref(), Some("deepseek/deepseek-v4-flash"));
    assert_eq!(s.thinking.as_deref(), Some("high"));
}

#[test]
fn parse_state_null_model() {
    let v = document(r#"{"sessionId": "x", "model": null, "thinkingLevel": "off"}"#);
    let s = parse_session_state(&v);
    assert_eq!(s.model, None);
    assert_eq!(s.thinking.as_deref(), Some("off"));
}

#[test]
fn parse_stats() {
    let v = document(
        r#"{
            "tokens": {"input": 1, "output": 2, "cacheRead": 3, "cacheWrite": 4, "total": 10},
            "cost": 0.5,
            "contextUsage": {"tokens": 60, "contextWindow": 200, "percent": 30}
        }"#,
    );
    let s = parse_session_stats(&v);
    assert_eq!((s.tokens_input, s.tokens_output, s.tokens_cache_read), (1, 2, 3));
    assert_eq!(s.cost.unwrap().as_f64(), Some(0.5));
}

#[test]
fn parse_model_and_level_lists() {
    let models = document(
        r#"{"models": [
            {"provider": "deepseek", "id": "deepseek-v4-flash"},
            {"provider": "qiuming", "id": "gpt-5.6-sol"},
            {"provider": "x", "id": "y", "name": "Y"}
        ]}"#,
    );
    assert_eq!(
        parse_model_list(&models),
        vec!["deepseek/deepseek-v4-flash", "qiuming/gpt-5.6-sol", "x/y"]
    );

    let levels = document(r#"{"levels": ["off", "low", "high"]}"#);
    assert_eq!(parse_level_list(&levels), vec!["off", "low", "high"]);
}

#[test]
fn split_ref() {
    assert_eq!(
        split_model_ref("deepseek/deepseek-v4-flash").unwrap(),
        ("deepseek".to_string(), "deepseek-v4-flash".to_string())
    );
    assert!(split_model_ref("no-provider").is_err());
    assert!(split_model_ref("a/").is_err());
    assert!(split_model_ref("/b").is_err());
}

#[test]
fn a_model_reference_is_split_at_its_last_slash() {
    assert_eq!(split_model_ref("a/b/c").unwrap(), ("a/b".to_string(), "c".to_string()));
    assert_eq!(
        split_model_ref("x").unwrap_err(),
        AgentError::Rpc {
            command: "set_model".to_string(),
            error: "invalid model ref 'x', expected provider/modelId".to_string(),
        }
    );
    assert_eq!(
        set_model_request("a/b").unwrap(),
        Request::SetModel { provider: "a".to_string(), model_id: "b".to_string() }
    );
    assert!(set_model_request("").is_err());
}

#[test]
fn responses_are_told_apart() {
    let response = "{\"type\":\"response\",\"command\":\"get_state\"}";
    // White space around a line does not matter; the line comes back with it.
    assert_eq!(
        find_response_line(&format!("x\r\n  {response} \r\ny"), "get_state"),
        Some(format!("  {response} ").as_str())
    );
    assert_eq!(find_response_line(&format!("{response}\r"), "get_state"), Some(&*format!("{response}\r")));
    // The first of several is taken.
    let two = "{\"type\":\"response\",\"command\":\"a\",\"n\":1}\n{\"type\":\"response\",\"command\":\"a\",\"n\":2}\n";
    assert!(find_response_line(two, "a").unwrap().contains("\"n\":1"));
    // Not an object, not a response, not readable, nothing at all.
    for output in [
        "[{\"type\":\"response\",\"command\":\"get_state\"}]",
        "{\"type\":\"event\",\"command\":\"get_state\"}",
        "{\"type\":\"response\",\"command\":7}",
        "{\"type\":\"response\",\"command\":\"get_state\"",
        "\n\n",
        "",
    ] {
        assert_eq!(find_response_line(output, "get_state"), None, "{output}");
    }
    assert!(is_answer(&document(response), "get_state"));
    assert!(!is_answer(&document(response), "get"));
    assert!(!is_answer(&document("[]"), "get_state"));
}

#[test]
fn states_with_missing_fields() {
    let s = parse_session_state(&document("{}"));
    assert_eq!((s.session_id.as_str(), s.session_file.as_str()), ("", ""));
    assert_eq!((s.model, s.thinking), (None, None));
    let s = parse_session_state(&document(r#"{"model": "plain", "sessionId": 3}"#));
    assert_eq!(s.model.as_deref(), Some("plain"));
    assert_eq!(s.session_id, "");
    let s = parse_session_state(&document(r#"{"model": {"provider": "p"}}"#));
    assert_eq!(s.model.as_deref(), Some("p/"));
    let s = parse_session_state(&document(r#"{"model": {"id": "i"}}"#));
    assert_eq!(s.model, None);
}

#[test]
fn stats_with_missing_fields() {
    assert_eq!(parse_session_stats(&document("null")), SessionStats::default());
    let s = parse_session_stats(&document(
        r#"{"tokens": {"input": -1, "output": 1.5, "cacheRead": 18446744073709551615}, "cost": "x"}"#,
    ));
    assert_eq!((s.tokens_input, s.tokens_output, s.tokens_cache_read), (0, 0, u64::MAX));
    assert_eq!(s.cost, None);
}

#[test]
fn lists_skip_what_is_no_entry() {
    let models = document(r#"{"models": [{"id": "a"}, {"provider": "p"}, 3, {"id": "b", "provider": "q"}]}"#);
    assert_eq!(parse_model_list(&models), vec!["?/a", "q/b"]);
    assert!(parse_model_list(&document(r#"{"models": {}}"#)).is_empty());
    assert!(parse_model_list(&document("{}")).is_empty());
    assert_eq!(parse_level_list(&document(r#"{"levels": ["off", 1, null]}"#)), vec!["off"]);
    assert!(parse_level_list(&document("[]")).is_empty());
}

#[test]
fn a_listed_model_can_be_set() {
    let models = parse_model_list(&document(r#"{"models": [{"provider": "p", "id": "i"}]}"#));
    assert_eq!(split_model_ref(&models[0]).unwrap(), ("p".to_string(), "i".to_string()));
}

#[test]
fn requests_are_sent_as_one_line() {
    let all = [
        (Request::State, "get_state"),
        (Request::SessionStats, "get_session_stats"),
        (Request::Models, "get_available_models"),
        (Request::ThinkingLevels, "get_available_thinking_levels"),
        (Request::SetThinking { level: "a\n\"b\"".to_string() }, "set_thinking_level"),
        (
            Request::SetModel { provider: "p".to_string(), model_id: "i".to_string() },
            "set_model",
        ),
    ];
    for (request, command) in all {
        assert_eq!(request.command(), command);
        let line = request.line().unwrap();
        assert!(line.ends_with('\n'));
        assert_eq!(line.matches('\n').count(), 1, "{line}");
        let sent: Value = serde_json::from_str(&line).unwrap();
        assert_eq!(sent["type"], command);
        match request {
            Request::SetThinking { level } => assert_eq!(sent["level"], level.as_str()),
            Request::SetModel { provider, model_id } => {
                assert_eq!(sent["provider"], provider.as_str());
                assert_eq!(sent["modelId"], model_id.as_str());
            }
            _ => assert_eq!(sent.as_object().unwrap().len(), 1),
        }
    }
    assert_eq!(Request::State.line().unwrap(), "{\"type\":\"get_state\"}\n");
    assert_eq!(
        line_of("get_state", Err("no".to_string())).unwrap_err(),
        AgentError::Rpc { command: "get_state".to_string(), error: "no".to_string() }
    );
    assert_eq!(line_of("get_state", Ok("{}".to_string())).unwrap(), "{}\n");
}

fn rejected(error: &str) -> AgentError {
    AgentError::Rpc { command: "get_state".to_string(), error: error.to_string() }
}

#[test]
fn answers_are_unpacked() {
    let answer = |text: &str| rpc_result(Some(text.to_string()), "get_state");
    assert_eq!(answer(r#"{"success": true, "data": [1]}"#).unwrap(), document("[1]"));
    assert_eq!(answer(r#"{"success": true}"#).unwrap(), Json::Null);
    assert_eq!(answer(r#"{"success": false, "error": "x"}"#).unwrap_err(), rejected("x"));
    assert_eq!(answer(r#"{"success": "true"}"#).unwrap_err(), rejected("unknown error"));
    assert_eq!(answer("{}").unwrap_err(), rejected("unknown error"));
    assert_eq!(rpc_result(None, "get_state").unwrap_err(), rejected("no response received"));
    let words = serde_json::from_str::<Value>("nope").unwrap_err().to_string();
    assert_eq!(answer("nope").unwrap_err(), rejected(&format!("bad response: {words}")));
    assert_eq!(
        rpc_answer(Err("words".to_string()), "get_state").unwrap_err(),
        rejected("bad response: words")
    );
}

fn pi() -> RealAgent {
    RealAgent::new("pi".to_string(), PathBuf::from("/tmp"))
}

#[test]
fn a_call_ends_with_the_first_response() {
    let agent = pi();
    let step = |event: RpcEvent| agent.rpc("get_state", event);
    assert!(matches!(step(RpcEvent::Written), RpcAction::Read));
    assert!(matches!(step(RpcEvent::Line("banner\n".to_string())), RpcAction::Read));
    let line = "  {\"type\":\"response\",\"command\":\"get_state\",\"success\":true,\"data\":{\"sessionId\":\"s\"}}\n";
    match step(RpcEvent::Line(line.to_string())) {
        RpcAction::Finish(Ok(data)) => assert_eq!(parse_session_state(&data).session_id, "s"),
        other => panic!("{other:?}"),
    }
    match step(RpcEvent::EndOfOutput) {
        RpcAction::Finish(Err(e)) => assert_eq!(e, rejected("no response received")),
        other => panic!("{other:?}"),
    }
}

#[test]
fn a_call_that_fails_is_cleaned_up_once_it_was_sent() {
    let agent = pi();
    let step = |event: RpcEvent| agent.rpc("get_state", event);
    match step(RpcEvent::SpawnFailed("no pi".to_string())) {
        RpcAction::Fail(e) => assert_eq!(e, AgentError::SpawnFailed("no pi".to_string())),
        other => panic!("{other:?}"),
    }
    match step(RpcEvent::WriteFailed("pipe".to_string())) {
        RpcAction::Fail(e) => assert_eq!(e, rejected("pipe")),
        other => panic!("{other:?}"),
    }
    match step(RpcEvent::ReadFailed("io".to_string())) {
        RpcAction::Kill(e) => assert_eq!(e, rejected("io")),
        other => panic!("{other:?}"),
    }
    match step(RpcEvent::TimedOut) {
        RpcAction::Kill(e) => assert_eq!(
            e,
            AgentError::RpcTimeout { command: "get_state".to_string(), seconds: 15 }
        ),
        other => panic!("{other:?}"),
    }
}

#[test]
fn reading_line_by_line_finds_what_the_whole_output_holds() {
    let output = "x\n{\"type\":\"response\",\"command\":\"a\",\"success\":true,\"data\":1}\n{\"type\":\"response\",\"command\":\"a\",\"success\":true,\"data\":2}";
    let whole = rpc_result(find_response_line(output, "a").map(str::to_string), "a").unwrap();
    let agent = pi();
    let mut heard = None;
    for line in output.split_inclusive('\n') {
        if let RpcAction::Finish(Ok(data)) = agent.rpc("a", RpcEvent::Line(line.to_string())) {
            heard = Some(data);
            break;
        }
    }
    assert_eq!(heard, Some(whole));
}

#[test]
fn only_the_active_process_is_aborted() {
    let mut agent = pi();
    assert_eq!(agent.rpc_timeout, Duration::from_secs(15));
    assert_eq!(agent.abort(), None);
    agent.register_pid(Some(7));
    agent.register_pid(None);
    assert_eq!(agent.abort(), Some(7));
    assert!(agent.overdue(7));
    assert!(!agent.overdue(8));
    agent.clear_pid(8);
    assert_eq!(agent.abort(), Some(7));
    agent.clear_pid(7);
    assert_eq!(agent.abort(), None);
    assert!(!agent.overdue(7));
}

#[test]
fn no_process_is_aborted_once_every_call_is_over() {
    let mut agent = pi();
    // However a call in RPC mode ends, its process is no longer the active one.
    for event in [
        RpcEvent::WriteFailed("pipe".to_string()),
        RpcEvent::ReadFailed("io".to_string()),
        RpcEvent::TimedOut,
        RpcEvent::EndOfOutput,
    ] {
        agent.register_pid(Some(7));
        let action = agent.rpc("get_state", event);
        assert!(agent.end_rpc(Some(7), action).unwrap().is_err());
        assert_eq!(agent.abort(), None);
        assert!(!agent.overdue(7));
    }
    // A call that goes on keeps it.
    agent.register_pid(Some(7));
    let action = agent.rpc("get_state", RpcEvent::Written);
    assert!(agent.end_rpc(Some(7), action).is_none());
    assert_eq!(agent.abort(), Some(7));
    // The same in print mode.
    assert_eq!(
        agent.end_prompt(Some(7), PromptEnd::Failed("wait".to_string())),
        Err(AgentError::SpawnFailed("wait".to_string()))
    );
    assert_eq!(agent.abort(), None);
    agent.register_pid(Some(8));
    let end = PromptEnd::Exited {
        success: true,
        code: Some(0),
        stdout: b" hi\n".to_vec(),
        stderr: Vec::new(),
    };
    assert_eq!(agent.end_prompt(Some(8), end), Ok("hi".to_string()));
    assert_eq!(agent.abort(), None);
    // Calls that overlap, ended in either order.
    for (first, second) in [(1, 2), (2, 1)] {
        agent.register_pid(Some(1));
        agent.register_pid(Some(2));
        let _ = agent.end_prompt(Some(first), PromptEnd::Failed(String::new()));
        let _ = agent.end_prompt(Some(second), PromptEnd::Failed(String::new()));
        assert_eq!(agent.abort(), None);
    }
    // A program that was never started leaves the active one alone.
    agent.register_pid(Some(3));
    let action = agent.rpc("get_state", RpcEvent::SpawnFailed("no pi".to_string()));
    assert!(agent.end_rpc(None, action).unwrap().is_err());
    assert_eq!(agent.abort(), Some(3));
}

#[test]
fn command_lines() {
    assert_eq!(rpc_args(), vec!["--mode", "rpc", "--continue"]);
    assert_eq!(prompt_args("hi", false), vec!["--continue", "-p", "hi"]);
    assert_eq!(prompt_args("hi", true), vec!["-p", "hi"]);
    let args = |list: &[&str]| list.iter().map(|s| s.to_string()).collect::<Vec<_>>();
    assert_eq!(kill_pid(42, false, false), ("kill".to_string(), args(&["-TERM", "42"])));
    assert_eq!(kill_pid(42, true, false), ("kill".to_string(), args(&["-KILL", "42"])));
    assert_eq!(kill_pid(42, false, true), ("taskkill".to_string(), args(&["/F", "/PID", "42"])));
    assert_eq!(kill_pid(0, true, true), ("taskkill".to_string(), args(&["/F", "/PID", "0"])));
}

#[test]
fn what_a_run_came_to() {
    assert_eq!(prompt_result(true, Some(0), b" hi \n", b"noise"), Ok("hi".to_string()));
    assert_eq!(prompt_result(true, Some(0), b" \n", b""), Err(AgentError::EmptyOutput));
    assert_eq!(
        prompt_result(false, Some(2), b"half", b" boom\n"),
        Err(AgentError::NonZeroExit { code: Some(2), stderr: "boom".to_string() })
    );
    // Bytes that are no UTF-8 do not fail the run.
    assert_eq!(prompt_result(true, Some(0), b"a\xffb", b""), Ok("a\u{fffd}b".to_string()));
    assert_eq!(prompt_result(true, Some(0), "你好\n".as_bytes(), b""), Ok("你好".to_string()));
    assert_eq!(
        prompt_reply(false, None, "", "killed"),
        Err(AgentError::NonZeroExit { code: None, stderr: "killed".to_string() })
    );
}
