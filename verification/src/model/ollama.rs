//! The Ollama backend: where requests go, which model they name, and what
//! a reply yields.
use vstd::prelude::*;
use crate::text::owned;

verus! {

broadcast use vstd::string::group_string_axioms;

/// The endpoint and model the Ollama backend uses.
#[derive(Debug)]
pub struct OllamaSettings {
    pub endpoint: String,
    pub model: String,
}

impl OllamaSettings {
    /// The settings found in the environment, with the local Ollama server
    /// and `llama3` as defaults.
    pub fn from_settings(endpoint: Option<String>, model: Option<String>) -> (r: Self)
        ensures
            r.endpoint@ == match endpoint {
                Some(e) => e@,
                None => "http://localhost:11434/api/generate"@,
            },
            r.model@ == match model {
                Some(m) => m@,
                None => "llama3"@,
            },
    {
        OllamaSettings {
            endpoint: match endpoint {
                Some(e) => e,
                None => owned("http://localhost:11434/api/generate"),
            },
            model: match model {
                Some(m) => m,
                None => owned("llama3"),
            },
        }
    }
}

/// The body of an Ollama generate request.
#[derive(Debug)]
pub struct OllamaGenerateRequest {
    pub model: String,
    pub prompt: String,
    pub stream: bool,
}

/// The request the backend sends for a prompt: a `POST` to
/// `settings.endpoint` with the configured model, the prompt, and streaming
/// turned off.
pub fn generate_request(settings: &OllamaSettings, prompt: &str) -> (r: OllamaGenerateRequest)
    ensures
        r.model@ == settings.model@,
        r.prompt@ == prompt@,
        r.stream == false,
{
    OllamaGenerateRequest { model: owned(settings.model.as_str()), prompt: owned(prompt), stream: false }
}

/// The text of an Ollama reply: its `response` field, or nothing.
pub fn reply_text(response: Option<String>) -> (r: String)
    ensures
        r@ == match response {
            Some(x) => x@,
            None => Seq::<char>::empty(),
        },
{
    match response {
        Some(x) => x,
        None => String::new(),
    }
}

/// A connection hook kept for callers that expect one; the Ollama backend
/// sends one request per prompt and keeps no connection.
pub fn connect() -> (r: Result<(), String>)
    ensures
        r is Ok,
{
    Ok(())
}

/// The field of an Ollama answer that carries the generated text.
pub const RESPONSE_FIELD: &'static str = "response";

/// What field `field` of a JSON object body holds as an optional string
/// (none when the field is absent or null), or why the body is not such an
/// object.
pub uninterp spec fn json_object_string_field(body: Seq<char>, field: Seq<char>) -> Result<Option<Seq<char>>, Seq<char>>;

/// Reads field `field` of a JSON object body with `serde_json`: the body as
/// a JSON object, then the field as an optional string.
#[verifier::external_body]
fn object_string_field(body: &str, field: &str) -> (r: Result<Option<String>, String>)
    ensures
        match r {
            Ok(Some(x)) => json_object_string_field(body@, field@) == Ok::<Option<Seq<char>>, Seq<char>>(Some(x@)),
            Ok(None) => json_object_string_field(body@, field@) == Ok::<Option<Seq<char>>, Seq<char>>(None),
            Err(e) => json_object_string_field(body@, field@) == Err::<Option<Seq<char>>, Seq<char>>(e@),
        },
{
    match serde_json::from_str::<serde_json::Map<String, serde_json::Value>>(body) {
        Ok(object) => match object.get(field) {
            Some(value) => match serde_json::from_value::<Option<String>>(value.clone()) {
                Ok(text) => Ok(text),
                Err(error) => Err(error.to_string()),
            },
            None => Ok(None),
        },
        Err(error) => Err(error.to_string()),
    }
}

/// The reply an Ollama answer body gives: its `response` text (empty when
/// there is none), or a decoding error when the body is not such an object.
pub fn decode_reply(body: &str) -> (r: Result<String, String>)
    ensures
        match json_object_string_field(body@, RESPONSE_FIELD@) {
            Ok(Some(x)) => r matches Ok(t) && t@ == x,
            Ok(None) => r matches Ok(t) && t@ == Seq::<char>::empty(),
            Err(_) => r matches Err(m) && m@ == crate::model::ghostos::DECODE_ERROR@,
        },
{
    match object_string_field(body, RESPONSE_FIELD) {
        Ok(text) => Ok(reply_text(text)),
        Err(_) => Err(owned(crate::model::ghostos::DECODE_ERROR)),
    }
}

} // verus!
