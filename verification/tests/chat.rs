use marvin::chat::{
    answer_from_content, openrouter_answer, openrouter_request, ChatMessage, ChatReply, DialogError,
};
use marvin::dialog::DialogConfig;
use reqwest::header::HeaderValue;

fn config() -> DialogConfig {
    DialogConfig {
        enabled: true,
        api_key: "schluessel".to_string(),
        model: "modell".to_string(),
        base_url: "https://example.org/chat".to_string(),
        site_url: None,
        site_name: None,
        system_prompt: "sei kurz".to_string(),
        question_window_ms: 8000,
        max_history_turns: 2,
    }
}

fn received(status: u16, body: &str) -> ChatReply {
    ChatReply::Received {
        status,
        body: body.to_string(),
    }
}

#[test]
fn messages_know_their_speaker() {
    let m = ChatMessage::user("hallo");
    assert_eq!((m.role.as_str(), m.content.as_str()), ("user", "hallo"));
    let m = ChatMessage::assistant("ja");
    assert_eq!((m.role.as_str(), m.content.as_str()), ("assistant", "ja"));
}

#[test]
fn a_request_holds_prompt_history_and_question() {
    let history = vec![ChatMessage::user("a"), ChatMessage::assistant("b")];
    let request = openrouter_request(&config(), &history, "wie spät").unwrap();
    assert_eq!(request.url, "https://example.org/chat");
    assert_eq!(request.model, "modell");
    let got: Vec<(&str, &str)> = request
        .messages
        .iter()
        .map(|m| (m.role.as_str(), m.content.as_str()))
        .collect();
    assert_eq!(
        got,
        vec![
            ("system", "sei kurz"),
            ("user", "a"),
            ("assistant", "b"),
            ("user", "wie spät"),
        ]
    );
}

#[test]
fn a_request_has_its_headers() {
    let request = openrouter_request(&config(), &[], "x").unwrap();
    assert_eq!(request.headers.len(), 2);
    assert_eq!(request.headers.get("Authorization").unwrap(), "Bearer schluessel");
    assert_eq!(request.headers.get("Content-Type").unwrap(), "application/json");

    let mut cfg = config();
    cfg.site_url = Some("https://example.org".to_string());
    cfg.site_name = Some("Märvin".to_string());
    let request = openrouter_request(&cfg, &[], "x").unwrap();
    assert_eq!(request.headers.len(), 4);
    assert_eq!(request.headers.get("HTTP-Referer").unwrap(), "https://example.org");
    assert_eq!(
        request.headers.get("X-Title").unwrap().as_bytes(),
        "Märvin".as_bytes()
    );
}

#[test]
fn settings_that_cannot_stand_in_headers_are_refused() {
    let problem = |cfg: &DialogConfig| openrouter_request(cfg, &[], "x").unwrap_err();
    let mut cfg = config();
    cfg.site_name = Some("a\u{7f}".to_string());
    assert!(matches!(problem(&cfg), DialogError::InvalidTitle(_)));
    cfg.site_url = Some("a\nb".to_string());
    assert!(matches!(problem(&cfg), DialogError::InvalidReferer(_)));
    cfg.api_key = "a\u{0}".to_string();
    assert!(matches!(problem(&cfg), DialogError::InvalidApiKey(_)));
    match problem(&cfg) {
        DialogError::InvalidApiKey(cause) => {
            assert_eq!(cause.to_string(), "failed to parse header value");
        }
        other => panic!("{other:?}"),
    }
    assert_eq!(problem(&cfg).message(), "ungueltiger OpenRouter API-Key Header");

    cfg = config();
    cfg.api_key = "a\tb ü \u{80}".to_string();
    cfg.site_url = Some(String::new());
    assert!(openrouter_request(&cfg, &[], "x").is_ok());
}

#[test]
fn answers_are_taken_from_the_first_choice() {
    let body = r#"{"id":1,"choices":[{"message":{"role":"assistant","content":"  Es ist über zwei.\n"}},{"message":{"content":"nein"}}]}"#;
    assert_eq!(openrouter_answer(received(200, body)).unwrap(), "Es ist über zwei.");
    assert_eq!(openrouter_answer(received(299, body)).unwrap(), "Es ist über zwei.");
}

#[test]
fn replies_without_text_give_no_answer() {
    for body in [
        "{}",
        "[]",
        "null",
        r#"{"choices":[]}"#,
        r#"{"choices":{"0":{"message":{"content":"x"}}}}"#,
        r#"{"choices":[{}]}"#,
        r#"{"choices":[{"message":"x"}]}"#,
        r#"{"choices":[{"message":{"content":7}}]}"#,
        r#"{"choices":[{"message":{"content":null}}]}"#,
        r#"{"choices":[{"message":{"content":" \t"}}]}"#,
        r#"{"choices":[{"message":{}},{"message":{"content":"x"}}]}"#,
    ] {
        assert!(
            matches!(openrouter_answer(received(200, body)), Err(DialogError::NoAnswer)),
            "{body}"
        );
    }
}

#[test]
fn failures_are_told_apart() {
    let reasons = || vec!["nicht verbunden".to_string(), "kein Netz".to_string()];
    assert!(matches!(
        openrouter_answer(ChatReply::NotSent { causes: reasons() }),
        Err(DialogError::RequestFailed { causes }) if causes == reasons()
    ));
    assert!(matches!(
        openrouter_answer(ChatReply::Unreadable { causes: reasons() }),
        Err(DialogError::UnreadableReply { causes }) if causes == reasons()
    ));
    for (body, cause) in [
        ("kein json", "expected value at line 1 column 1"),
        ("", "EOF while parsing a value at line 1 column 0"),
        ("{\n1}", "key must be a string at line 2 column 1"),
    ] {
        match openrouter_answer(received(200, body)) {
            Err(DialogError::InvalidJson(err)) => assert_eq!(err.to_string(), cause),
            other => panic!("{other:?}"),
        }
    }
    for status in [100, 199, 300, 404, 500] {
        match openrouter_answer(received(status, "{}")) {
            Err(DialogError::Status { status: s, body }) => {
                assert_eq!((s, body.as_str()), (status, "{}"));
            }
            other => panic!("{other:?}"),
        }
    }
}

#[test]
fn content_is_trimmed_and_must_not_be_empty() {
    assert_eq!(answer_from_content(Some(" ja ")).unwrap(), "ja");
    assert!(matches!(answer_from_content(Some("  ")), Err(DialogError::NoAnswer)));
    assert!(matches!(answer_from_content(None), Err(DialogError::NoAnswer)));
}

#[test]
fn dialog_errors_have_their_texts() {
    let status = DialogError::Status {
        status: 429,
        body: "zu viel".to_string(),
    };
    assert_eq!(status.message(), "OpenRouter API Status 429: zu viel");
    let refused = || HeaderValue::from_str("\n").unwrap_err();
    let malformed = serde_json::from_str::<serde_json::Value>("{").unwrap_err();
    assert_eq!(
        DialogError::InvalidReferer(refused()).message(),
        "ungueltiger HTTP-Referer Header"
    );
    assert_eq!(DialogError::InvalidTitle(refused()).message(), "ungueltiger X-Title Header");
    assert_eq!(
        DialogError::RequestFailed { causes: vec![] }.message(),
        "OpenRouter Request fehlgeschlagen"
    );
    assert_eq!(
        DialogError::UnreadableReply { causes: vec![] }.message(),
        "OpenRouter Antwort konnte nicht gelesen werden"
    );
    assert_eq!(
        DialogError::InvalidJson(malformed).message(),
        "OpenRouter Antwort ist kein gueltiges JSON"
    );
    assert_eq!(
        DialogError::NoAnswer.message(),
        "OpenRouter Antwort enthaelt keinen Text in choices[0].message.content"
    );
}
