//! What a polish request sends to a provider, and how a provider's reply, or its refusal,
//! becomes the polished text or an error.

use vstd::prelude::*;
use crate::json::{
    error_reply_document, json_reply_strings, message_reply_document, read_reply_strings,
    text_reply_document,
};
use crate::prompt::{
    build_messages, build_selected_text_mode_prompt, build_selected_text_prompt,
    build_transcribe_prompt, dictionary_words, is_user_message, selected_text_mode_prompt,
    selected_text_prompt, transcribe_prompt, AppType, ChatMessage, SELECTED_TEXT_MODE_HEADING,
    USER_ROLE,
};
use crate::status::{status_display, status_text};
use crate::prompt::{language_name_of, DICTIONARY_ITEM_CLOSE, DICTIONARY_ITEM_OPEN, TRANSCRIBE_TRANSLATE_LEAD, TRANSLATE_TAIL};
use crate::prompt_laws::{
    law_selected_text_mode_prompt_contents, law_selected_text_prompt_contents,
    law_transcribe_prompt_contents, law_transcribe_prompt_quotes_each_term,
    law_transcribe_prompt_requests_translation,
};
use crate::text::{
    contains, is_blank, lemma_chars_starting_below, lemma_trim_empty_iff_blank, utf8_len,
    chars_starting_below, count_starting_below, has_prefix, is_blank_str, starts_with_at, str_chars,
    string_from_chars, trim,
};

verus! {

/// What the user dictated, and how it should be polished.
pub struct PolishRequest {
    pub raw_text: String,
    pub app_type: AppType,
    pub dictionary: Vec<String>,
    pub translate_enabled: bool,
    pub target_lang: String,
    pub selected_text: Option<String>,
}

/// The polished text.
pub struct PolishResponse {
    pub polished_text: String,
}

/// The service a request goes to: an OpenAI-compatible endpoint, or the hosted proxy.
#[derive(Clone, Copy, Debug, PartialEq, Eq, Structural)]
pub enum Provider {
    OpenAi,
    Cloud,
}

/// Why a polish request failed.
#[derive(Debug)]
pub enum PolishError {
    /// The hosted proxy was called without a session token.
    MissingSessionToken,
    /// The hosted proxy refused the request for lack of quota.
    QuotaExceeded { message: String },
    /// The provider answered with an unsuccessful status.
    Api { provider: Provider, status: String, detail: String },
    /// A whole (non-streamed) reply was not JSON.
    InvalidResponse,
}

/// The request to send: where, with which authorization, which messages, and whether to
/// stream the reply and switch on the thinking mode of GLM models.
pub struct RequestPlan {
    pub url: String,
    pub authorization: String,
    pub messages: Vec<ChatMessage>,
    pub stream: bool,
    pub thinking_mode: bool,
}

pub const CHAT_COMPLETIONS_PATH: &'static str = "/chat/completions";
pub const CLOUD_PROXY_PATH: &'static str = "/api/proxy/llm";
pub const BEARER_PREFIX: &'static str = "Bearer ";
pub const GLM_MODEL_PREFIX: &'static str = "glm-";
pub const SELECTED_TEXT_LABEL: &'static str = "[Selected Text]\n";
pub const MISSING_SESSION_TOKEN: &'static str = "Cloud LLM: session token is missing. Please sign in first.";
pub const QUOTA_EXCEEDED: &'static str = "LLM quota exceeded";
pub const CLOUD_ERROR_LEAD: &'static str = "Cloud LLM error (";
pub const CLOUD_ERROR_SEPARATOR: &'static str = "): ";
pub const API_ERROR_LEAD: &'static str = "LLM API error ";
pub const API_ERROR_SEPARATOR: &'static str = ": ";
pub const INVALID_RESPONSE: &'static str = "error decoding response body";
pub const FORBIDDEN: u16 = 403;
pub const ERROR_EXCERPT_BYTES: usize = 200;

/// The selected text of `req`, unless it is absent or blank.
pub open spec fn selected_text_of(req: PolishRequest) -> Option<Seq<char>> {
    match req.selected_text {
        Some(s) => if trim(s@).len() > 0 {
            Some(s@)
        } else {
            None
        },
        None => None,
    }
}

/// The transcription prompt for `req`.
pub open spec fn request_transcribe_prompt(req: PolishRequest) -> Seq<char> {
    transcribe_prompt(
        req.raw_text@,
        req.app_type,
        dictionary_words(req.dictionary@),
        req.translate_enabled,
        req.target_lang@,
    )
}

/// The user prompt an OpenAI-compatible provider gets: the selected-text prompt, with the
/// dictation as the instruction, when there is selected text; the transcription prompt
/// otherwise.
pub open spec fn openai_prompt(req: PolishRequest) -> Seq<char> {
    match selected_text_of(req) {
        Some(selected) => selected_text_prompt(
            selected,
            req.raw_text@,
            req.app_type,
            dictionary_words(req.dictionary@),
            req.translate_enabled,
            req.target_lang@,
        ),
        None => request_transcribe_prompt(req),
    }
}

/// The selected-text mode prompt for `req`, with the dictation as the instruction.
pub open spec fn request_selected_text_mode_prompt(req: PolishRequest) -> Seq<char> {
    selected_text_mode_prompt(
        req.raw_text@,
        req.app_type,
        dictionary_words(req.dictionary@),
        req.translate_enabled,
        req.target_lang@,
    )
}

/// The contents of the user messages the hosted proxy gets: with a selected text, the
/// labelled selected text and then the selected-text mode prompt; otherwise the
/// transcription prompt alone.
pub open spec fn cloud_message_contents(req: PolishRequest) -> Seq<Seq<char>> {
    match selected_text_of(req) {
        Some(selected) => seq![
            SELECTED_TEXT_LABEL@ + selected,
            request_selected_text_mode_prompt(req),
        ],
        None => seq![request_transcribe_prompt(req)],
    }
}

/// `messages` are user messages with these contents, in this order.
pub open spec fn user_messages(messages: Seq<ChatMessage>, contents: Seq<Seq<char>>) -> bool {
    &&& messages.len() == contents.len()
    &&& forall|i: int| 0 <= i < messages.len() ==> is_user_message(#[trigger] messages[i], contents[i])
}

/// The models whose thinking mode is switched on.
pub open spec fn is_thinking_model(model: Seq<char>) -> bool {
    has_prefix(model, GLM_MODEL_PREFIX@)
}

/// The head of an error body kept in an error: the characters that start before its
/// 200th byte.
pub open spec fn error_excerpt(body: Seq<char>) -> Seq<char> {
    chars_starting_below(body, ERROR_EXCERPT_BYTES as int)
}

/// The error for an unsuccessful status `code` with body `body`.
pub open spec fn failure_is(provider: Provider, code: u16, body: Seq<char>, e: PolishError) -> bool {
    if provider == Provider::Cloud && code == FORBIDDEN {
        e matches PolishError::QuotaExceeded { message } && message@ == match json_reply_strings(
            body,
        ) {
            Some(fields) => match fields.4 {
                Some(m) => m,
                None => QUOTA_EXCEEDED@,
            },
            None => QUOTA_EXCEEDED@,
        }
    } else {
        e matches PolishError::Api { provider: p, status, detail } && p == provider && status@
            == status_display(code) && detail@ == error_excerpt(body)
    }
}

/// The polished text a whole JSON reply carries, or `None` when the reply is not JSON. The
/// hosted proxy answers with `text` or with `choices[0].message.content`; an
/// OpenAI-compatible provider with `choices[0].message.content`; missing, it is empty.
pub open spec fn reply_text(provider: Provider, body: Seq<char>) -> Option<Seq<char>> {
    match json_reply_strings(body) {
        None => None,
        Some(fields) => Some(
            if provider == Provider::Cloud && fields.0 is Some {
                fields.0->0
            } else {
                match fields.1 {
                    Some(content) => content,
                    None => Seq::empty(),
                }
            },
        ),
    }
}

/// The message of an error.
pub open spec fn error_message(e: PolishError) -> Seq<char> {
    match e {
        PolishError::MissingSessionToken => MISSING_SESSION_TOKEN@,
        PolishError::QuotaExceeded { message } => message@,
        PolishError::Api { provider, status, detail } => if provider == Provider::Cloud {
            CLOUD_ERROR_LEAD@ + status@ + CLOUD_ERROR_SEPARATOR@ + detail@
        } else {
            API_ERROR_LEAD@ + status@ + API_ERROR_SEPARATOR@ + detail@
        },
        PolishError::InvalidResponse => INVALID_RESPONSE@,
    }
}

impl PolishError {
    /// The message that describes the error.
    pub fn message(&self) -> (m: String)
        ensures
            m@ == error_message(*self),
    {
        match self {
            PolishError::MissingSessionToken => MISSING_SESSION_TOKEN.to_string(),
            PolishError::QuotaExceeded { message } => message.as_str().to_string(),
            PolishError::Api { provider, status, detail } => {
                let mut m = String::new();
                match provider {
                    Provider::Cloud => {
                        m.append(CLOUD_ERROR_LEAD);
                        m.append(status.as_str());
                        m.append(CLOUD_ERROR_SEPARATOR);
                    },
                    Provider::OpenAi => {
                        m.append(API_ERROR_LEAD);
                        m.append(status.as_str());
                        m.append(API_ERROR_SEPARATOR);
                    },
                }
                m.append(detail.as_str());
                m
            },
            PolishError::InvalidResponse => INVALID_RESPONSE.to_string(),
        }
    }
}

/// `prefix` followed by `s`.
fn prefixed(prefix: &str, s: &str) -> (r: String)
    ensures
        r@ == prefix@ + s@,
{
    let mut r = prefix.to_string();
    r.append(s);
    r
}

/// The value of an `Authorization` header that carries `api_key` as a bearer token.
pub fn bearer_authorization(api_key: &str) -> (r: String)
    ensures
        r@ == BEARER_PREFIX@ + api_key@,
{
    prefixed(BEARER_PREFIX, api_key)
}

/// The selected text of `req`, unless it is absent or blank.
pub fn selected_text(req: &PolishRequest) -> (r: Option<&str>)
    ensures
        r.deep_view() == selected_text_of(*req),
{
    match &req.selected_text {
        Some(s) => if is_blank_str(s.as_str()) {
            None
        } else {
            Some(s.as_str())
        },
        None => None,
    }
}

/// The user prompt for an OpenAI-compatible provider.
pub fn openai_user_prompt(req: &PolishRequest) -> (prompt: String)
    ensures
        prompt@ == openai_prompt(*req),
{
    match selected_text(req) {
        Some(selected) => build_selected_text_prompt(
            selected,
            req.raw_text.as_str(),
            req.app_type,
            req.dictionary.as_slice(),
            req.translate_enabled,
            req.target_lang.as_str(),
        ),
        None => build_transcribe_prompt(
            req.raw_text.as_str(),
            req.app_type,
            req.dictionary.as_slice(),
            req.translate_enabled,
            req.target_lang.as_str(),
        ),
    }
}

/// The user messages for the hosted proxy.
pub fn cloud_messages(req: &PolishRequest) -> (messages: Vec<ChatMessage>)
    ensures
        user_messages(messages@, cloud_message_contents(*req)),
{
    match selected_text(req) {
        Some(selected) => {
            let prompt = build_selected_text_mode_prompt(
                req.raw_text.as_str(),
                req.app_type,
                req.dictionary.as_slice(),
                req.translate_enabled,
                req.target_lang.as_str(),
            );
            let mut messages: Vec<ChatMessage> = Vec::new();
            messages.push(
                ChatMessage {
                    role: USER_ROLE.to_string(),
                    content: prefixed(SELECTED_TEXT_LABEL, selected),
                },
            );
            messages.push(ChatMessage { role: USER_ROLE.to_string(), content: prompt });
            messages
        },
        None => build_messages(
            build_transcribe_prompt(
                req.raw_text.as_str(),
                req.app_type,
                req.dictionary.as_slice(),
                req.translate_enabled,
                req.target_lang.as_str(),
            ),
        ),
    }
}

/// Whether `model` gets its thinking mode switched on.
pub fn uses_thinking_mode(model: &str) -> (b: bool)
    ensures
        b == is_thinking_model(model@),
{
    let m = str_chars(model);
    let p = str_chars(GLM_MODEL_PREFIX);
    let b = starts_with_at(&m, 0, m.len(), &p);
    assert(m@.subrange(0, m.len() as int) =~= m@);
    b
}

/// The request for an OpenAI-compatible provider at `base_url`.
pub fn plan_openai_request(
    base_url: &str,
    api_key: &str,
    model: &str,
    req: &PolishRequest,
    stream: bool,
) -> (plan: RequestPlan)
    ensures
        plan.url@ == base_url@ + CHAT_COMPLETIONS_PATH@,
        plan.authorization@ == BEARER_PREFIX@ + api_key@,
        user_messages(plan.messages@, seq![openai_prompt(*req)]),
        plan.stream == stream,
        plan.thinking_mode == is_thinking_model(model@),
{
    let mut url = base_url.to_string();
    url.append(CHAT_COMPLETIONS_PATH);
    let messages = build_messages(openai_user_prompt(req));
    RequestPlan {
        url,
        authorization: bearer_authorization(api_key),
        messages,
        stream,
        thinking_mode: uses_thinking_mode(model),
    }
}

/// The request for the hosted proxy at `api_base_url`, authorized by `session_token`; refused
/// when there is no token.
pub fn plan_cloud_request(
    api_base_url: &str,
    session_token: &str,
    req: &PolishRequest,
    stream: bool,
) -> (r: Result<RequestPlan, PolishError>)
    ensures
        session_token@.len() == 0 <==> r matches Err(PolishError::MissingSessionToken),
        r is Err ==> r matches Err(PolishError::MissingSessionToken),
        r matches Ok(plan) ==> {
            &&& plan.url@ == api_base_url@ + CLOUD_PROXY_PATH@
            &&& plan.authorization@ == BEARER_PREFIX@ + session_token@
            &&& user_messages(plan.messages@, cloud_message_contents(*req))
            &&& plan.stream == stream
            &&& !plan.thinking_mode
        },
{
    if session_token.is_empty() {
        return Err(PolishError::MissingSessionToken);
    }
    let mut url = api_base_url.to_string();
    url.append(CLOUD_PROXY_PATH);
    Ok(
        RequestPlan {
            url,
            authorization: bearer_authorization(session_token),
            messages: cloud_messages(req),
            stream,
            thinking_mode: false,
        },
    )
}

/// Whether a reply with status `code` is a success (2xx).
pub fn accepts_status(code: u16) -> (b: bool)
    ensures
        b == (200 <= code < 300),
{
    200 <= code && code < 300
}

/// The head of an error body: the characters that start before its 200th byte.
pub fn sanitize_error_body(body: &str) -> (r: String)
    ensures
        r@ == error_excerpt(body@),
{
    let v = str_chars(body);
    let n = count_starting_below(&v, ERROR_EXCERPT_BYTES);
    string_from_chars(&v, 0, n)
}

/// The error for a reply with the unsuccessful status `code` and body `body`.
pub fn failure_error(provider: Provider, code: u16, body: &str) -> (e: PolishError)
    requires
        100 <= code <= 999,
    ensures
        failure_is(provider, code, body@, e),
        provider == Provider::Cloud && code == FORBIDDEN ==> forall|m: Seq<char>|
            #[trigger] error_reply_document(m) == body@ ==> (e matches PolishError::QuotaExceeded {
                message,
            } && message@ == m),
{
    if provider == Provider::Cloud && code == FORBIDDEN {
        let message = match read_reply_strings(body) {
            Some(fields) => match fields.4 {
                Some(m) => m,
                None => QUOTA_EXCEEDED.to_string(),
            },
            None => QUOTA_EXCEEDED.to_string(),
        };
        PolishError::QuotaExceeded { message }
    } else {
        PolishError::Api {
            provider,
            status: status_text(code),
            detail: sanitize_error_body(body),
        }
    }
}

/// The polished text of a whole (non-streamed) reply.
pub fn completion_text(provider: Provider, body: &str) -> (r: Result<String, PolishError>)
    ensures
        reply_text(provider, body@) is None <==> r is Err,
        r is Err ==> r matches Err(PolishError::InvalidResponse),
        r matches Ok(text) ==> reply_text(provider, body@) == Some(text@),
        forall|c: Seq<char>|
            #[trigger] message_reply_document(c) == body@ ==> (r matches Ok(text) && text@ == c),
        provider == Provider::Cloud ==> forall|c: Seq<char>|
            #[trigger] text_reply_document(c) == body@ ==> (r matches Ok(text) && text@ == c),
{
    match read_reply_strings(body) {
        None => Err(PolishError::InvalidResponse),
        Some(fields) => {
            let (text, content, _, _, _) = fields;
            if provider == Provider::Cloud && text.is_some() {
                match text {
                    Some(t) => Ok(t),
                    None => Ok(String::new()),
                }
            } else {
                match content {
                    Some(c) => Ok(c),
                    None => Ok(String::new()),
                }
            }
        },
    }
}

/// A selected text that is all white space counts as none: an OpenAI-compatible provider
/// gets the transcription prompt, and the hosted proxy only that prompt.
pub proof fn law_blank_selected_text_is_ignored(req: PolishRequest)
    requires
        req.selected_text matches Some(s) && is_blank(s@),
    ensures
        selected_text_of(req) is None,
        openai_prompt(req) == request_transcribe_prompt(req),
        cloud_message_contents(req) == seq![request_transcribe_prompt(req)],
{
    lemma_trim_empty_iff_blank(req.selected_text.unwrap()@);
}

/// A request without a selected text sends, to either provider, one prompt: the
/// transcription prompt of its own dictation, application, dictionary and translation
/// settings. It holds the dictation, every custom term in quotes, and, when translation is
/// on and the target language names a language, the request to translate into it.
pub proof fn law_unselected_request_sends_its_transcription_prompt(req: PolishRequest)
    requires
        req.selected_text is None,
    ensures
        ({
            let p = transcribe_prompt(
                req.raw_text@,
                req.app_type,
                dictionary_words(req.dictionary@),
                req.translate_enabled,
                req.target_lang@,
            );
            &&& openai_prompt(req) == p
            &&& cloud_message_contents(req) == seq![p]
            &&& contains(p, req.raw_text@)
            &&& forall|k: int|
                0 <= k < req.dictionary.len() ==> #[trigger] contains(
                    p,
                    DICTIONARY_ITEM_OPEN@ + req.dictionary[k]@ + DICTIONARY_ITEM_CLOSE@,
                )
            &&& forall|name: Seq<char>|
                req.translate_enabled && language_name_of(req.target_lang@) == Some(name)
                    ==> #[trigger] contains(p, TRANSCRIBE_TRANSLATE_LEAD@ + name + TRANSLATE_TAIL@)
        }),
{
    let words = dictionary_words(req.dictionary@);
    let p = transcribe_prompt(
        req.raw_text@,
        req.app_type,
        words,
        req.translate_enabled,
        req.target_lang@,
    );
    law_transcribe_prompt_contents(
        req.raw_text@,
        req.app_type,
        words,
        req.translate_enabled,
        req.target_lang@,
    );
    assert forall|k: int| 0 <= k < req.dictionary.len() implies #[trigger] contains(
        p,
        DICTIONARY_ITEM_OPEN@ + req.dictionary[k]@ + DICTIONARY_ITEM_CLOSE@,
    ) by {
        law_transcribe_prompt_quotes_each_term(
            req.raw_text@,
            req.app_type,
            words,
            req.translate_enabled,
            req.target_lang@,
            k,
        );
        assert(words[k] == req.dictionary[k]@);
    }
    assert forall|name: Seq<char>|
        req.translate_enabled && language_name_of(req.target_lang@) == Some(name) implies #[trigger] contains(
        p,
        TRANSCRIBE_TRANSLATE_LEAD@ + name + TRANSLATE_TAIL@,
    ) by {
        law_transcribe_prompt_requests_translation(
            req.raw_text@,
            req.app_type,
            words,
            req.target_lang@,
            name,
        );
    }
}

/// A selected text with something besides white space reaches an OpenAI-compatible
/// provider, with the dictation as the instruction, in the selected-text prompt.
pub proof fn law_selected_text_is_sent(req: PolishRequest)
    requires
        req.selected_text matches Some(s) && !is_blank(s@),
    ensures
        selected_text_of(req) == Some(req.selected_text.unwrap()@),
        contains(openai_prompt(req), req.selected_text.unwrap()@),
        contains(openai_prompt(req), req.raw_text@),
{
    let selected = req.selected_text.unwrap()@;
    lemma_trim_empty_iff_blank(selected);
    assert(selected_text_of(req) == Some(selected));
    let p = selected_text_prompt(
        selected,
        req.raw_text@,
        req.app_type,
        dictionary_words(req.dictionary@),
        req.translate_enabled,
        req.target_lang@,
    );
    assert(openai_prompt(req) == p);
    law_selected_text_prompt_contents(
        selected,
        req.raw_text@,
        req.app_type,
        dictionary_words(req.dictionary@),
        req.translate_enabled,
        req.target_lang@,
    );
    assert(contains(p, selected));
    assert(contains(p, req.raw_text@));
}

/// A selected text with something besides white space reaches the hosted proxy, labelled,
/// in a message of its own; the message after it is the selected-text mode prompt, which
/// holds the mode rule and the dictation.
pub proof fn law_selected_text_gets_its_own_cloud_message(req: PolishRequest)
    requires
        req.selected_text matches Some(s) && !is_blank(s@),
    ensures
        cloud_message_contents(req) == seq![
            SELECTED_TEXT_LABEL@ + req.selected_text.unwrap()@,
            request_selected_text_mode_prompt(req),
        ],
        contains(cloud_message_contents(req)[1], SELECTED_TEXT_MODE_HEADING@),
        contains(cloud_message_contents(req)[1], req.raw_text@),
{
    let selected = req.selected_text.unwrap()@;
    lemma_trim_empty_iff_blank(selected);
    assert(selected_text_of(req) == Some(selected));
    law_selected_text_mode_prompt_contents(
        req.raw_text@,
        req.app_type,
        dictionary_words(req.dictionary@),
        req.translate_enabled,
        req.target_lang@,
    );
}

/// The excerpt of an error body kept in an error is a prefix of the body; it takes at most
/// 203 bytes of UTF-8, and it is the whole body when the body takes at most 200 bytes.
pub proof fn law_error_excerpt_is_a_bounded_prefix(body: Seq<char>)
    ensures
        error_excerpt(body) == body.take(error_excerpt(body).len() as int),
        utf8_len(error_excerpt(body)) <= ERROR_EXCERPT_BYTES + 3,
        utf8_len(body) <= ERROR_EXCERPT_BYTES ==> error_excerpt(body) == body,
{
    lemma_chars_starting_below(body, ERROR_EXCERPT_BYTES as int);
}

} // verus!
