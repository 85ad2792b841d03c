//! What holds of the requests to the chat service and of its replies.
use serde_json::Value;
use vstd::prelude::*;

use crate::chat::{
    bearer, error_text, follows_from_content, follows_from_reply, header_problem, is_request,
    reply_content, requests, transcript, ChatMessage, ChatReply, ChatRequest, DialogError,
};
use crate::dialog::DialogConfig;
use crate::headers::{header_char, header_fields, header_refusal, header_text};
use crate::json::{json_shape, parsed_json, JsonShape};
use crate::numbers::decimal_text;
use crate::text::trimmed;

verus! {

/// Whether a character is a control character other than the tab.
pub open spec fn control_char(c: char) -> bool {
    c < ' ' && c != '\t' || c == '\u{7f}'
}

/// Whether a text holds no control character other than the tab.
pub open spec fn sendable_text(s: Seq<char>) -> bool {
    forall|i: int| 0 <= i < s.len() ==> !control_char(#[trigger] s[i])
}

/// Whether the key and the names of the site can all be sent.
pub open spec fn sendable(cfg: DialogConfig) -> bool {
    &&& sendable_text(cfg.api_key@)
    &&& cfg.site_url matches Some(url) ==> sendable_text(url@)
    &&& cfg.site_name matches Some(name) ==> sendable_text(name@)
}

proof fn lemma_sendable_char(c: char)
    ensures
        header_char(c) <==> !control_char(c),
{
}

proof fn lemma_sendable_text(s: Seq<char>)
    ensures
        header_text(s) <==> sendable_text(s),
{
    if header_text(s) {
        assert forall|i: int| 0 <= i < s.len() implies !control_char(#[trigger] s[i]) by {
            lemma_sendable_char(s[i]);
        }
    }
    if sendable_text(s) {
        assert forall|i: int| 0 <= i < s.len() implies header_char(
            #[trigger] s[i],
        ) by {
            lemma_sendable_char(s[i]);
        }
    }
}

proof fn lemma_bearer(key: Seq<char>)
    ensures
        header_text(bearer(key)) <==> sendable_text(key),
{
    reveal_strlit("Bearer ");
    let lead = "Bearer "@;
    lemma_sendable_text(key);
    assert(lead.len() == 7);
    assert(header_text(lead));
    let whole = bearer(key);
    if header_text(key) {
        assert forall|i: int| 0 <= i < whole.len() implies header_char(
            #[trigger] whole[i],
        ) by {
            if i < 7 {
                assert(whole[i] == lead[i]);
            } else {
                assert(whole[i] == key[i - 7]);
            }
        }
    }
    if header_text(whole) {
        assert forall|i: int| 0 <= i < key.len() implies header_char(
            #[trigger] key[i],
        ) by {
            assert(whole[i + 7] == key[i]);
        }
    }
}

/// A question becomes a request exactly when the key and the names of the site hold no
/// control characters. Otherwise the first of them that holds one is reported: the key,
/// then the address of the site, then its name.
pub proof fn law_when_a_request_is_made(
    request: Result<ChatRequest, DialogError>,
    cfg: DialogConfig,
    history: Seq<(Seq<char>, Seq<char>)>,
    question: Seq<char>,
)
    requires
        requests(request, cfg, history, question),
    ensures
        request is Ok <==> sendable(cfg),
        request matches Ok(r) ==> is_request(r, cfg, history, question),
        !sendable_text(cfg.api_key@) ==> request == Err::<ChatRequest, DialogError>(
            DialogError::InvalidApiKey(header_refusal("Bearer "@ + cfg.api_key@)),
        ),
        sendable_text(cfg.api_key@) ==> (cfg.site_url matches Some(url) ==> !sendable_text(url@)
            ==> request == Err::<ChatRequest, DialogError>(
            DialogError::InvalidReferer(header_refusal(url@)),
        )),
        sendable_text(cfg.api_key@) && (cfg.site_url matches Some(url) ==> sendable_text(url@))
            ==> (cfg.site_name matches Some(name) ==> !sendable_text(name@) ==> request == Err::<
            ChatRequest,
            DialogError,
        >(DialogError::InvalidTitle(header_refusal(name@)))),
{
    lemma_header_problem(cfg);
    lemma_bearer(cfg.api_key@);
    if let Some(url) = cfg.site_url {
        lemma_sendable_text(url@);
    }
    if let Some(name) = cfg.site_name {
        lemma_sendable_text(name@);
    }
}

/// The settings can be sent exactly when nothing is wrong with them.
pub proof fn lemma_header_problem(cfg: DialogConfig)
    ensures
        header_problem(cfg) is None <==> sendable(cfg),
{
    lemma_bearer(cfg.api_key@);
    if let Some(url) = cfg.site_url {
        lemma_sendable_text(url@);
    }
    if let Some(name) = cfg.site_name {
        lemma_sendable_text(name@);
    }
}

/// A request goes to the address and to the model of the settings. Its messages are the
/// instructions, all of the conversation so far and the question, each with who says it,
/// word for word.
pub proof fn law_what_is_requested(
    request: ChatRequest,
    cfg: DialogConfig,
    history: Seq<ChatMessage>,
    question: Seq<char>,
)
    requires
        is_request(request, cfg, transcript(history), question),
    ensures
        request.url@ == cfg.base_url@,
        request.model@ == cfg.model@,
        request.messages@.len() == history.len() + 2,
        request.messages@[0].role@ == "system"@,
        request.messages@[0].content@ == cfg.system_prompt@,
        forall|i: int|
            0 <= i < history.len() ==> (#[trigger] request.messages@[i + 1]).role@
                == history[i].role@ && request.messages@[i + 1].content@ == history[i].content@,
        request.messages@.last().role@ == "user"@,
        request.messages@.last().content@ == question,
{
    let sent = transcript(request.messages@);
    let past = transcript(history);
    assert(sent.len() == request.messages@.len());
    assert(past.len() == history.len());
    assert(sent[0] == (request.messages@[0].role@, request.messages@[0].content@));
    assert forall|i: int| 0 <= i < history.len() implies (
    #[trigger] request.messages@[i + 1]).role@ == history[i].role@ && request.messages@[i
        + 1].content@ == history[i].content@ by {
        assert(sent[i + 1] == past[i]);
        assert(sent[i + 1] == (request.messages@[i + 1].role@, request.messages@[i + 1].content@));
    }
    let last = history.len() + 1;
    assert(sent[last as int] == ("user"@, question));
    assert(sent[last as int] == (
        request.messages@[last as int].role@,
        request.messages@[last as int].content@,
    ));
}

/// A request has no other headers than those for the key, the kind of content, the address
/// of the site and its name.
pub proof fn law_no_other_headers(
    request: ChatRequest,
    cfg: DialogConfig,
    history: Seq<(Seq<char>, Seq<char>)>,
    question: Seq<char>,
    name: Seq<char>,
)
    requires
        is_request(request, cfg, history, question),
        header_fields(request.headers).contains_key(name),
    ensures
        name == "authorization"@ || name == "content-type"@ || name == "http-referer"@ || name
            == "x-title"@,
{
}

/// Whether a JSON value is an object with "choices", a list whose first element is an
/// object with a "message", an object whose "content" is this text.
pub open spec fn first_choice_says(value: Value, text: Seq<char>) -> bool {
    &&& json_shape(value) matches JsonShape::Object(reply)
    &&& reply.contains_key("choices"@)
    &&& json_shape(reply["choices"@]) matches JsonShape::Array(choices)
    &&& choices.len() > 0
    &&& json_shape(choices[0]) matches JsonShape::Object(choice)
    &&& choice.contains_key("message"@)
    &&& json_shape(choice["message"@]) matches JsonShape::Object(message)
    &&& message.contains_key("content"@)
    &&& json_shape(message["content"@]) == JsonShape::Text(text)
}

/// A reply that reports success and whose first choice holds a text gives that text as the
/// answer, without the white space around it, however long it is.
pub proof fn law_text_is_the_answer(
    answer: Result<String, DialogError>,
    status: u16,
    body: String,
    value: Value,
    text: Seq<char>,
)
    requires
        follows_from_reply(answer, ChatReply::Received { status, body }),
        200 <= status <= 299,
        parsed_json(body@) == Ok::<Value, serde_json::Error>(value),
        first_choice_says(value, text),
        trimmed(text).len() > 0,
    ensures
        answer matches Ok(a) && a@ == trimmed(text),
{
}

/// There is an answer only where a reply reports success, is JSON, and holds a text that
/// is more than white space in its first choice.
pub proof fn law_where_answers_come_from(answer: Result<String, DialogError>, reply: ChatReply)
    requires
        follows_from_reply(answer, reply),
        answer is Ok,
    ensures
        reply is Received,
        200 <= reply->status <= 299,
        parsed_json(reply->body@) is Ok,
        exists|text: Seq<char>|
            {
                &&& #[trigger] first_choice_says(parsed_json(reply->body@)->Ok_0, text)
                &&& trimmed(text).len() > 0
                &&& answer->Ok_0@ == trimmed(text)
            },
{
    let value = parsed_json(reply->body@)->Ok_0;
    let text = reply_content(value)->Some_0;
    assert(first_choice_says(value, text));
}

/// Each way in which a reply gives no answer is reported as what it is.
pub proof fn law_failed_replies(
    answer: Result<String, DialogError>,
    causes: Vec<String>,
    status: u16,
    body: String,
)
    ensures
        follows_from_reply(answer, ChatReply::NotSent { causes }) ==> answer == Err::<
            String,
            DialogError,
        >(DialogError::RequestFailed { causes }),
        follows_from_reply(answer, ChatReply::Unreadable { causes }) ==> answer == Err::<
            String,
            DialogError,
        >(DialogError::UnreadableReply { causes }),
        follows_from_reply(answer, ChatReply::Received { status, body }) ==> {
            &&& !(200 <= status <= 299) ==> answer == Err::<String, DialogError>(
                DialogError::Status { status, body },
            )
            &&& 200 <= status <= 299 ==> {
                &&& parsed_json(body@) matches Err(cause) ==> answer == Err::<String, DialogError>(
                    DialogError::InvalidJson(cause),
                )
                &&& parsed_json(body@) is Ok ==> answer is Ok || answer == Err::<
                    String,
                    DialogError,
                >(DialogError::NoAnswer)
            }
        },
{
}

/// A text that is more than white space is an answer, and nothing else is.
pub proof fn law_content(answer: Result<String, DialogError>, content: Option<Seq<char>>)
    requires
        follows_from_content(answer, content),
    ensures
        content matches Some(text) ==> trimmed(text).len() > 0 ==> (answer matches Ok(a) && a@
            == trimmed(text)),
        content matches Some(text) ==> trimmed(text).len() == 0 ==> answer == Err::<
            String,
            DialogError,
        >(DialogError::NoAnswer),
        content is None ==> answer == Err::<String, DialogError>(DialogError::NoAnswer),
{
}

/// The report of a failed request names its status and quotes the whole reply.
pub proof fn law_reported_status(status: u16, body: String)
    ensures
        error_text(DialogError::Status { status, body }) == "OpenRouter API Status "@
            + decimal_text(status as nat) + ": "@ + body@,
{
}

} // verus!
