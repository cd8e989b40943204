use pi_agent_connect::chat::{
    after_chunk, after_post, classify_failure, classify_serenity_error, classify_status, next_backoff, send_to_channel,
    ChatErrorKind, DiscordChat, PostStep, Posting, RequestFailure, Retry, RetryAction,
    RETRY_BACKOFF_INITIAL, RETRY_BACKOFF_MAX,
};
use std::time::Duration;

#[test]
fn classify_status_transient() {
    assert_eq!(classify_status(429), ChatErrorKind::Transient);
    for status in [500, 502, 503, 504] {
        assert_eq!(classify_status(status), ChatErrorKind::Transient, "{status}");
    }
}

#[test]
fn classify_status_permanent() {
    for status in [400, 401, 403, 404, 422] {
        assert_eq!(classify_status(status), ChatErrorKind::Permanent, "{status}");
    }
}

#[test]
fn backoff_grows_and_caps() {
    assert_eq!(next_backoff(Duration::from_secs(1)), Duration::from_secs(2));
    assert_eq!(next_backoff(Duration::from_secs(16)), Duration::from_secs(30));
    assert_eq!(next_backoff(Duration::from_secs(30)), Duration::from_secs(30));
}

#[test]
fn send_is_silent_noop_in_lockdown_without_channel() {
    let chat = DiscordChat::new(true);
    let sent = chat.send("hello");
    assert!(sent.is_ok());
    assert_eq!(sent.unwrap(), Posting::Nothing);
}

#[test]
fn send_is_permanent_error_without_channel_in_normal_mode() {
    let chat = DiscordChat::new(false);
    let err = chat.send("hello").unwrap_err();
    assert_eq!(err.kind, ChatErrorKind::Permanent);
    assert_eq!(err.detail, "no owner channel configured (startup greeting gate failed)");
}

#[test]
fn status_edges() {
    for status in [428, 430, 499, 600, 200, 0] {
        assert_eq!(classify_status(status), ChatErrorKind::Permanent, "{status}");
    }
    assert_eq!(classify_status(599), ChatErrorKind::Transient);
}

#[test]
fn failures_without_a_response_may_recover() {
    assert_eq!(classify_failure(&RequestFailure::NoResponse), ChatErrorKind::Transient);
    assert_eq!(classify_failure(&RequestFailure::Faulty), ChatErrorKind::Permanent);
    assert_eq!(classify_failure(&RequestFailure::Refused(503)), ChatErrorKind::Transient);
    assert_eq!(classify_failure(&RequestFailure::Refused(403)), ChatErrorKind::Permanent);
}

#[test]
fn client_side_errors_are_permanent() {
    let e = serenity::Error::Other("bad request");
    assert_eq!(classify_serenity_error(&e), ChatErrorKind::Permanent);
    let e = serenity::Error::Http(serenity::http::HttpError::InvalidScheme);
    assert_eq!(classify_serenity_error(&e), ChatErrorKind::Permanent);
}

#[test]
fn backoff_keeps_fractions_of_a_second() {
    assert_eq!(next_backoff(Duration::from_millis(1)), Duration::from_millis(2));
    assert_eq!(next_backoff(Duration::from_millis(14_999)), Duration::from_millis(29_998));
    assert_eq!(next_backoff(Duration::from_millis(15_001)), Duration::from_secs(30));
    assert_eq!(next_backoff(Duration::ZERO), Duration::ZERO);
}

#[test]
fn a_long_message_is_posted_in_pieces() {
    let mut chat = DiscordChat::new(false);
    chat.set_channel(42);
    let text = "x".repeat(2001);
    let chunks = vec!["x".repeat(2000), "x".to_string()];
    assert_eq!(send_to_channel(&text), chunks);
    assert_eq!(chat.send(&text).unwrap(), Posting::Chunks { channel_id: 42, chunks });
}

#[test]
fn greet_with_retry_retries_transient_failures_then_succeeds() {
    let mut attempts = 0u32;
    let mut retry = Retry::new();
    let mut waited = Vec::new();
    let result: Result<u64, ChatErrorKind> = loop {
        attempts += 1;
        let outcome = if attempts < 3 { Err(ChatErrorKind::Transient) } else { Ok(1) };
        match outcome {
            Ok(channel) => break Ok(channel),
            Err(kind) => match retry.failed(kind) {
                RetryAction::Wait(delay) => waited.push(delay),
                RetryAction::GiveUp => break Err(kind),
            },
        }
    };
    assert!(result.is_ok());
    assert_eq!(attempts, 3, "transient failures must be retried");
    assert_eq!(waited, vec![Duration::from_secs(1), Duration::from_secs(2)]);
}

#[test]
fn greet_with_retry_returns_permanent_failure_immediately() {
    let mut retry = Retry::new();
    assert!(matches!(retry.failed(ChatErrorKind::Permanent), RetryAction::GiveUp));
    assert_eq!(retry.attempt, 0);
}

#[test]
fn schedule_of_waits() {
    let mut retry = Retry::new();
    for expected in [1u64, 2, 4, 8, 16, 30, 30, 30] {
        match retry.failed(ChatErrorKind::Transient) {
            RetryAction::Wait(delay) => assert_eq!(delay, Duration::from_secs(expected)),
            RetryAction::GiveUp => panic!("a transient failure is never final"),
        }
    }
    assert_eq!(retry.attempt, 8);
    assert_eq!((RETRY_BACKOFF_INITIAL, RETRY_BACKOFF_MAX), (1, 30));
}

#[test]
fn a_chat_that_cannot_be_reached_may_recover() {
    let runtime = tokio::runtime::Builder::new_current_thread().enable_all().build().unwrap();
    let e = runtime.block_on(async {
        // Nothing listens there.
        let http = serenity::http::HttpBuilder::new("Bot dummy")
            .proxy("http://127.0.0.1:1")
            .ratelimiter_disabled(true)
            .build();
        http.get_current_user().await.unwrap_err()
    });
    assert_eq!(classify_serenity_error(&e), ChatErrorKind::Transient, "{e:?}");
}

/// Which of `chunks` are said, and what the message comes to, where `answer`
/// is what each of them comes to.
fn post(
    chunks: &[String],
    answer: fn(&str) -> Result<(), ChatErrorKind>,
) -> (Vec<String>, Result<(), ChatErrorKind>) {
    let mut tried = Vec::new();
    for (posted, chunk) in chunks.iter().enumerate() {
        tried.push(chunk.clone());
        match after_post(posted, chunks.len(), answer(chunk)) {
            PostStep::Next => {}
            PostStep::Done => return (tried, Ok(())),
            PostStep::Failed(kind) => return (tried, Err(kind)),
        }
    }
    unreachable!("there is always a last chunk")
}

#[test]
fn pieces_are_posted_until_one_fails() {
    let text = format!("{}{}{}", "a".repeat(2000), "b".repeat(2000), "c");
    let chunks = send_to_channel(&text);
    assert_eq!(chunks.len(), 3);
    assert_eq!(post(&chunks, |_| Ok(())), (chunks.clone(), Ok(())));
    let transient = |chunk: &str| {
        if chunk.starts_with('b') { Err(ChatErrorKind::Transient) } else { Ok(()) }
    };
    assert_eq!(post(&chunks, transient), (chunks[..2].to_vec(), Err(ChatErrorKind::Transient)));
    let permanent = |chunk: &str| {
        if chunk == "c" { Err(ChatErrorKind::Permanent) } else { Ok(()) }
    };
    assert_eq!(post(&chunks, permanent), (chunks.clone(), Err(ChatErrorKind::Permanent)));
    let both = |chunk: &str| {
        if chunk == "c" { Err(ChatErrorKind::Permanent) } else { Err(ChatErrorKind::Transient) }
    };
    assert_eq!(post(&chunks, both), (chunks[..1].to_vec(), Err(ChatErrorKind::Transient)));
    // Even the empty message is one chunk.
    assert_eq!(post(&send_to_channel(""), |_| Ok(())), (vec![String::new()], Ok(())));
}

#[test]
fn a_piece_fails_as_its_error_says() {
    assert_eq!(after_chunk(0, 2, None), PostStep::Next);
    assert_eq!(after_chunk(1, 2, None), PostStep::Done);
    let e = serenity::Error::Other("bad request");
    assert_eq!(after_chunk(0, 2, Some(&e)), PostStep::Failed(ChatErrorKind::Permanent));
    assert_eq!(after_chunk(1, 2, Some(&e)), PostStep::Failed(ChatErrorKind::Permanent));
}
