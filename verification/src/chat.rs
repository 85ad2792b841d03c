//! Asking the chat service: the request, and the answer in its reply.
use reqwest::header::{HeaderMap, HeaderValue, InvalidHeaderValue};
use serde_json::Value;
use vstd::prelude::*;

use crate::dialog::DialogConfig;
use crate::headers::{header_fields, header_refusal, header_text, set_header};
use crate::json::{
    element, json_element, json_member, json_text, member, parse_json, parsed_json,
};
use crate::numbers::{decimal, decimal_text};
use crate::text::{trim, trimmed};
use vstd::utf8::encode_utf8;

verus! {

/// One message of a conversation.
#[derive(Debug, Clone)]
pub struct ChatMessage {
    /// Who speaks: the system, the user or the assistant.
    pub role: String,
    /// What is said.
    pub content: String,
}

impl ChatMessage {
    /// A message of the user.
    pub fn user(content: &str) -> (message: Self)
        ensures
            message.role@ == "user"@,
            message.content@ == content@,
    {
        ChatMessage { role: "user".to_owned(), content: content.to_owned() }
    }

    /// A message of the assistant.
    pub fn assistant(content: &str) -> (message: Self)
        ensures
            message.role@ == "assistant"@,
            message.content@ == content@,
    {
        ChatMessage { role: "assistant".to_owned(), content: content.to_owned() }
    }
}

/// Who says what in a list of messages.
pub open spec fn transcript(messages: Seq<ChatMessage>) -> Seq<(Seq<char>, Seq<char>)> {
    messages.map_values(|m: ChatMessage| (m.role@, m.content@))
}

/// What goes to the chat service.
#[derive(Debug)]
pub struct ChatRequest {
    /// Where the request is sent.
    pub url: String,
    /// The headers of the request.
    pub headers: HeaderMap,
    /// The model that is to answer.
    pub model: String,
    /// The conversation so far, which ends with the question.
    pub messages: Vec<ChatMessage>,
}

/// What came back from the chat service.
#[derive(Debug)]
pub enum ChatReply {
    /// The request could not be sent, for these reasons, each due to the next.
    NotSent { causes: Vec<String> },
    /// A reply came whose body could not be read, for these reasons, each due to the
    /// next.
    Unreadable { causes: Vec<String> },
    /// A reply with its status and its body.
    Received { status: u16, body: String },
}

/// Why a question got no answer.
#[derive(Debug)]
pub enum DialogError {
    /// The key of the service cannot stand in a header.
    InvalidApiKey(InvalidHeaderValue),
    /// The address of the site cannot stand in a header.
    InvalidReferer(InvalidHeaderValue),
    /// The name of the site cannot stand in a header.
    InvalidTitle(InvalidHeaderValue),
    /// The request could not be sent, for these reasons, each due to the next.
    RequestFailed { causes: Vec<String> },
    /// The body of the reply could not be read, for these reasons, each due to the next.
    UnreadableReply { causes: Vec<String> },
    /// The service reported a failure.
    Status { status: u16, body: String },
    /// The body of the reply is not JSON.
    InvalidJson(serde_json::Error),
    /// The reply holds no answer.
    NoAnswer,
}

/// The text by which an error is reported.
pub open spec fn error_text(error: DialogError) -> Seq<char> {
    match error {
        DialogError::InvalidApiKey(_) => "ungueltiger OpenRouter API-Key Header"@,
        DialogError::InvalidReferer(_) => "ungueltiger HTTP-Referer Header"@,
        DialogError::InvalidTitle(_) => "ungueltiger X-Title Header"@,
        DialogError::RequestFailed { .. } => "OpenRouter Request fehlgeschlagen"@,
        DialogError::UnreadableReply { .. } => "OpenRouter Antwort konnte nicht gelesen werden"@,
        DialogError::Status { status, body } => "OpenRouter API Status "@ + decimal_text(
            status as nat,
        ) + ": "@ + body@,
        DialogError::InvalidJson(_) => "OpenRouter Antwort ist kein gueltiges JSON"@,
        DialogError::NoAnswer =>
            "OpenRouter Antwort enthaelt keinen Text in choices[0].message.content"@,
    }
}

impl DialogError {
    /// The text by which the error is reported.
    pub fn message(&self) -> (text: String)
        ensures
            text@ == error_text(*self),
    {
        match self {
            DialogError::InvalidApiKey(_) => "ungueltiger OpenRouter API-Key Header".to_owned(),
            DialogError::InvalidReferer(_) => "ungueltiger HTTP-Referer Header".to_owned(),
            DialogError::InvalidTitle(_) => "ungueltiger X-Title Header".to_owned(),
            DialogError::RequestFailed { .. } => "OpenRouter Request fehlgeschlagen".to_owned(),
            DialogError::UnreadableReply { .. } =>
                "OpenRouter Antwort konnte nicht gelesen werden".to_owned(),
            DialogError::Status { status, body } => {
                let mut text = "OpenRouter API Status ".to_owned();
                text.append(decimal(*status as u64).as_str());
                text.append(": ");
                text.append(body.as_str());
                text
            },
            DialogError::InvalidJson(_) => "OpenRouter Antwort ist kein gueltiges JSON".to_owned(),
            DialogError::NoAnswer =>
                "OpenRouter Antwort enthaelt keinen Text in choices[0].message.content".to_owned(),
        }
    }
}

/// The messages of a request: the instructions, the conversation so far, the
/// question.
pub open spec fn request_messages(
    prompt: Seq<char>,
    history: Seq<(Seq<char>, Seq<char>)>,
    question: Seq<char>,
) -> Seq<(Seq<char>, Seq<char>)> {
    seq![("system"@, prompt)] + history + seq![("user"@, question)]
}

/// The value of the header that proves who asks.
pub open spec fn bearer(key: Seq<char>) -> Seq<char> {
    "Bearer "@ + key
}

/// The headers of a request.
pub open spec fn request_fields(cfg: DialogConfig) -> Map<Seq<char>, Seq<u8>> {
    let always = Map::<Seq<char>, Seq<u8>>::empty().insert(
        "authorization"@,
        encode_utf8(bearer(cfg.api_key@)),
    ).insert("content-type"@, encode_utf8("application/json"@));
    let with_site = match cfg.site_url {
        Some(url) => always.insert("http-referer"@, encode_utf8(url@)),
        None => always,
    };
    match cfg.site_name {
        Some(name) => with_site.insert("x-title"@, encode_utf8(name@)),
        None => with_site,
    }
}

/// What, if anything, keeps the settings from standing in the headers of a
/// request: the first of the key, the address of the site and its name that is no
/// header value.
pub open spec fn header_problem(cfg: DialogConfig) -> Option<DialogError> {
    if !header_text(bearer(cfg.api_key@)) {
        Some(DialogError::InvalidApiKey(header_refusal(bearer(cfg.api_key@))))
    } else if cfg.site_url matches Some(url) && !header_text(url@) {
        Some(DialogError::InvalidReferer(header_refusal(cfg.site_url->Some_0@)))
    } else if cfg.site_name matches Some(name) && !header_text(name@) {
        Some(DialogError::InvalidTitle(header_refusal(cfg.site_name->Some_0@)))
    } else {
        None
    }
}

/// Whether a request puts the question to the service as the settings say.
pub open spec fn is_request(
    request: ChatRequest,
    cfg: DialogConfig,
    history: Seq<(Seq<char>, Seq<char>)>,
    question: Seq<char>,
) -> bool {
    &&& request.url@ == cfg.base_url@
    &&& header_fields(request.headers) == request_fields(cfg)
    &&& request.model@ == cfg.model@
    &&& transcript(request.messages@) == request_messages(cfg.system_prompt@, history, question)
}

/// The headers of a request, unless one of the settings cannot stand in one.
fn request_headers(cfg: &DialogConfig) -> (headers: Result<HeaderMap, DialogError>)
    ensures
        match headers {
            Ok(map) => header_problem(*cfg) is None && header_fields(map) == request_fields(*cfg),
            Err(error) => header_problem(*cfg) == Some(error),
        },
{
    proof {
        reveal_strlit("authorization");
        reveal_strlit("content-type");
        reveal_strlit("http-referer");
        reveal_strlit("x-title");
        reveal_strlit("application/json");
    }
    let mut headers: HeaderMap = HeaderMap::new();
    let mut auth = "Bearer ".to_owned();
    auth.append(cfg.api_key.as_str());
    match HeaderValue::from_str(auth.as_str()) {
        Ok(value) => set_header(&mut headers, "authorization", value),
        Err(cause) => return Err(DialogError::InvalidApiKey(cause)),
    }
    set_header(&mut headers, "content-type", HeaderValue::from_static("application/json"));
    if let Some(site_url) = &cfg.site_url {
        match HeaderValue::from_str(site_url.as_str()) {
            Ok(value) => set_header(&mut headers, "http-referer", value),
            Err(cause) => return Err(DialogError::InvalidReferer(cause)),
        }
    }
    if let Some(site_name) = &cfg.site_name {
        match HeaderValue::from_str(site_name.as_str()) {
            Ok(value) => set_header(&mut headers, "x-title", value),
            Err(cause) => return Err(DialogError::InvalidTitle(cause)),
        }
    }
    Ok(headers)
}

/// Whether `request` is the request that puts the question to the service, or why there
/// is none.
pub open spec fn requests(
    request: Result<ChatRequest, DialogError>,
    cfg: DialogConfig,
    history: Seq<(Seq<char>, Seq<char>)>,
    question: Seq<char>,
) -> bool {
    match request {
        Ok(r) => header_problem(cfg) is None && is_request(r, cfg, history, question),
        Err(error) => header_problem(cfg) == Some(error),
    }
}

/// The request that puts a question to the service.
pub fn openrouter_request(
    cfg: &DialogConfig,
    history: &[ChatMessage],
    question: &str,
) -> (request: Result<ChatRequest, DialogError>)
    ensures
        requests(request, *cfg, transcript(history@), question@),
{
    let headers = match request_headers(cfg) {
        Ok(headers) => headers,
        Err(error) => return Err(error),
    };
    let mut messages: Vec<ChatMessage> = Vec::new();
    messages.push(
        ChatMessage { role: "system".to_owned(), content: cfg.system_prompt.clone() },
    );
    let ghost past = transcript(history@);
    let ghost first = ("system"@, cfg.system_prompt@);
    assert(transcript(messages@) =~= seq![first] + past.take(0));
    for i in 0..history.len()
        invariant
            past == transcript(history@),
            transcript(messages@) == seq![first] + past.take(i as int),
    {
        let ghost before = messages@;
        let next = ChatMessage {
            role: history[i].role.clone(),
            content: history[i].content.clone(),
        };
        messages.push(next);
        assert(transcript(messages@) =~= transcript(before).push(past[i as int]));
        assert(transcript(messages@) =~= seq![first] + past.take(i + 1));
    }
    let ghost before = messages@;
    messages.push(ChatMessage::user(question));
    assert(past.take(history@.len() as int) =~= past);
    assert(transcript(messages@) =~= transcript(before).push(("user"@, question@)));
    assert(transcript(messages@) =~= request_messages(cfg.system_prompt@, past, question@));
    Ok(
        ChatRequest {
            url: cfg.base_url.clone(),
            headers,
            model: cfg.model.clone(),
            messages,
        },
    )
}

/// Whether a status reports success.
pub open spec fn success_status(status: u16) -> bool {
    200 <= status < 300
}

/// The text in the first choice of a reply.
pub open spec fn reply_content(value: Value) -> Option<Seq<char>> {
    match json_member(value, "choices"@) {
        Some(choices) => match json_element(choices, 0) {
            Some(choice) => match json_member(choice, "message"@) {
                Some(message) => match json_member(message, "content"@) {
                    Some(content) => json_text(content),
                    None => None,
                },
                None => None,
            },
            None => None,
        },
        None => None,
    }
}

/// The text in the first choice of a reply that reports success and is JSON.
pub open spec fn parsed_reply(reply: ChatReply) -> Option<Seq<char>> {
    match reply {
        ChatReply::Received { status, body } => if success_status(status) {
            match parsed_json(body@) {
                Ok(value) => reply_content(value),
                Err(_) => None,
            }
        } else {
            None
        },
        _ => None,
    }
}

/// Whether `answer` is what follows from the text of a reply.
pub open spec fn follows_from_content(
    answer: Result<String, DialogError>,
    content: Option<Seq<char>>,
) -> bool {
    match content {
        Some(text) if trimmed(text).len() > 0 => answer matches Ok(a) && a@ == trimmed(text),
        _ => answer == Err::<String, DialogError>(DialogError::NoAnswer),
    }
}

/// Whether `answer` is what follows from a reply.
pub open spec fn follows_from_reply(
    answer: Result<String, DialogError>,
    reply: ChatReply,
) -> bool {
    match reply {
        ChatReply::NotSent { causes } => answer == Err::<String, DialogError>(
            DialogError::RequestFailed { causes },
        ),
        ChatReply::Unreadable { causes } => answer == Err::<String, DialogError>(
            DialogError::UnreadableReply { causes },
        ),
        ChatReply::Received { status, body } => if !success_status(status) {
            answer == Err::<String, DialogError>(DialogError::Status { status, body })
        } else {
            match parsed_json(body@) {
                Err(cause) => answer == Err::<String, DialogError>(
                    DialogError::InvalidJson(cause),
                ),
                Ok(value) => follows_from_content(answer, reply_content(value)),
            }
        },
    }
}

/// The text in the first choice of a reply.
fn content_of(value: &Value) -> (content: Option<&str>)
    ensures
        match content {
            Some(text) => reply_content(*value) == Some(text@),
            None => reply_content(*value) is None,
        },
{
    if let Some(choices) = member(value, "choices") {
        if let Some(choice) = element(choices, 0) {
            if let Some(message) = member(choice, "message") {
                if let Some(content) = member(message, "content") {
                    return content.as_str();
                }
            }
        }
    }
    None
}

/// The answer that the text of a reply gives: the text without the white space
/// around it, if anything is left.
pub fn answer_from_content(content: Option<&str>) -> (answer: Result<String, DialogError>)
    ensures
        follows_from_content(
            answer,
            match content {
                Some(text) => Some(text@),
                None => None,
            },
        ),
{
    match content {
        Some(text) => {
            let answer = trim(text);
            if answer.as_str().is_empty() {
                Err(DialogError::NoAnswer)
            } else {
                Ok(answer)
            }
        },
        None => Err(DialogError::NoAnswer),
    }
}

/// The answer that a reply gives.
pub fn openrouter_answer(reply: ChatReply) -> (answer: Result<String, DialogError>)
    ensures
        follows_from_reply(answer, reply),
{
    match reply {
        ChatReply::NotSent { causes } => Err(DialogError::RequestFailed { causes }),
        ChatReply::Unreadable { causes } => Err(DialogError::UnreadableReply { causes }),
        ChatReply::Received { status, body } => {
            if !(status >= 200 && status < 300) {
                return Err(DialogError::Status { status, body });
            }
            match parse_json(body.as_str()) {
                Ok(value) => answer_from_content(content_of(&value)),
                Err(cause) => Err(DialogError::InvalidJson(cause)),
            }
        },
    }
}

} // verus!
