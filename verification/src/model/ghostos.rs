//! The GhostOS backend: its configuration, the retry plan for inference
//! requests, and the placeholder backend that answers with a stub.
use vstd::prelude::*;
use super::ModelBackend;
use crate::text::{concat2, concat3, owned, str_eq};

verus! {

broadcast use vstd::string::group_string_axioms;

/// The GhostOS placeholder backend: it answers every prompt with a stub.
#[derive(Debug, Default, Clone, Copy)]
pub struct GhostOsBackend;

/// The stub answer of the GhostOS backend.
pub open spec fn ghostos_stub(prompt: Seq<char>) -> Seq<char> {
    "[ghostos stub] "@ + prompt
}

impl ModelBackend for GhostOsBackend {
    open spec fn generates(&self, prompt: Seq<char>, reply: Result<Seq<char>, Seq<char>>) -> bool {
        reply == Ok::<Seq<char>, Seq<char>>(ghostos_stub(prompt))
    }

    fn generate(&self, prompt: &str) -> (r: Result<String, String>) {
        Ok(concat2("[ghostos stub] ", prompt))
    }
}

/// Where GhostOS inference requests go and which model they ask for.
#[derive(Debug)]
pub struct GhostOsConfig {
    pub ghostos_endpoint: String,
    pub ghostos_model: String,
}

impl Default for GhostOsConfig {
    fn default() -> (r: Self)
        ensures
            r.ghostos_endpoint@ == "http://localhost:9000/infer"@,
            r.ghostos_model@ == "ghost-1"@,
    {
        GhostOsConfig {
            ghostos_endpoint: owned("http://localhost:9000/infer"),
            ghostos_model: owned("ghost-1"),
        }
    }
}

/// The message for a configuration key that does not exist.
pub open spec fn unknown_key_message(key: Seq<char>) -> Seq<char> {
    "unknown config key: "@ + key + " (supported: ghostos_endpoint, ghostos_model)"@
}

impl GhostOsConfig {
    /// Sets `ghostos_endpoint` or `ghostos_model` to `value`; any other key
    /// is refused and nothing changes.
    pub fn set_key(&mut self, key: &str, value: &str) -> (r: Result<(), String>)
        ensures
            key@ == "ghostos_endpoint"@ ==> r is Ok && final(self).ghostos_endpoint@ == value@
                && final(self).ghostos_model == old(self).ghostos_model,
            key@ == "ghostos_model"@ ==> r is Ok && final(self).ghostos_model@ == value@
                && final(self).ghostos_endpoint == old(self).ghostos_endpoint,
            key@ != "ghostos_endpoint"@ && key@ != "ghostos_model"@ ==> r == Err::<(), String>(
                r->Err_0,
            ) && r->Err_0@ == unknown_key_message(key@) && *final(self) == *old(self),
    {
        proof {
            reveal_strlit("ghostos_endpoint");
            reveal_strlit("ghostos_model");
            assert("ghostos_endpoint"@.len() == 16);
            assert("ghostos_model"@.len() == 13);
        }
        if str_eq(key, "ghostos_endpoint") {
            self.ghostos_endpoint = owned(value);
            Ok(())
        } else if str_eq(key, "ghostos_model") {
            self.ghostos_model = owned(value);
            Ok(())
        } else {
            Err(concat3("unknown config key: ", key, " (supported: ghostos_endpoint, ghostos_model)"))
        }
    }

    /// Applies the values set in the environment, which take precedence
    /// over the configuration file.
    pub fn apply_overrides(&mut self, endpoint: Option<String>, model: Option<String>)
        ensures
            final(self).ghostos_endpoint == match endpoint {
                Some(e) => e,
                None => old(self).ghostos_endpoint,
            },
            final(self).ghostos_model == match model {
                Some(m) => m,
                None => old(self).ghostos_model,
            },
    {
        match endpoint {
            Some(e) => {
                self.ghostos_endpoint = e;
            },
            None => {},
        }
        match model {
            Some(m) => {
                self.ghostos_model = m;
            },
            None => {},
        }
    }
}

/// The body of a GhostOS inference request.
#[derive(Debug)]
pub struct GhostOsInferBody {
    pub model: String,
    pub prompt: String,
}

/// The request every attempt sends for a prompt: a `POST` to
/// `config.ghostos_endpoint` with the configured model and the prompt.
pub fn infer_request(config: &GhostOsConfig, prompt: &str) -> (r: GhostOsInferBody)
    ensures
        r.model@ == config.ghostos_model@,
        r.prompt@ == prompt@,
{
    GhostOsInferBody { model: owned(config.ghostos_model.as_str()), prompt: owned(prompt) }
}

/// How many times an inference request is tried.
pub const MAX_ATTEMPTS: u64 = 3;

/// The wait before retrying after the given (failed) attempt:
/// 100 ms doubled for each earlier attempt.
pub open spec fn backoff_for(attempt: nat) -> nat
    decreases attempt,
{
    if attempt <= 1 {
        100
    } else {
        2 * backoff_for((attempt - 1) as nat)
    }
}

/// The wait in milliseconds before the attempt after `attempt`.
pub fn backoff_ms(attempt: u64) -> (r: u64)
    requires
        1 <= attempt < MAX_ATTEMPTS,
    ensures
        r == backoff_for(attempt as nat),
{
    if attempt == 1 {
        100
    } else {
        assert(backoff_for(2) == 200) by {
            assert(backoff_for(1) == 100);
        }
        200
    }
}

/// What one attempt produced: the `output` text of the reply, or why there
/// is none.
pub fn attempt_outcome(endpoint: &str, reply: Result<Option<String>, String>) -> (r: Result<
    String,
    String,
>)
    ensures
        match reply {
            Ok(Some(out)) => r == Ok::<String, String>(out),
            Ok(None) => r is Err && r->Err_0@
                == "ghostos response missing output field from "@ + endpoint@,
            Err(e) => r == Err::<String, String>(e),
        },
{
    match reply {
        Ok(Some(out)) => Ok(out),
        Ok(None) => Err(concat2("ghostos response missing output field from ", endpoint)),
        Err(e) => Err(e),
    }
}

/// The next step of an inference request after an attempt.
#[derive(Debug)]
pub enum InferStep {
    /// The request succeeded with this output.
    Done(String),
    /// Wait this many milliseconds, then try again.
    Retry(u64),
    /// Every attempt failed; this is the last failure.
    Fail(String),
}

/// After attempt `attempt` with the given outcome: a success ends the
/// request; a failure is retried after the backoff until the last attempt,
/// whose failure is the request's failure.
pub fn next_step(attempt: u64, outcome: Result<String, String>) -> (r: InferStep)
    requires
        1 <= attempt <= MAX_ATTEMPTS,
    ensures
        match outcome {
            Ok(out) => r == InferStep::Done(out),
            Err(e) => if attempt < MAX_ATTEMPTS {
                r == InferStep::Retry(backoff_for(attempt as nat) as u64)
            } else {
                r == InferStep::Fail(e)
            },
        },
{
    match outcome {
        Ok(out) => InferStep::Done(out),
        Err(e) => {
            if attempt < MAX_ATTEMPTS {
                InferStep::Retry(backoff_ms(attempt))
            } else {
                InferStep::Fail(e)
            }
        },
    }
}

/// A connection hook kept for callers that expect one; the GhostOS backend
/// keeps no connection.
pub fn connect() -> (r: Result<(), String>)
    ensures
        r is Ok,
{
    Ok(())
}

/// The field of a GhostOS answer that carries the generated text.
pub const OUTPUT_FIELD: &'static str = "output";

/// What field `field` of a JSON body holds when it is a string (none when
/// the field is absent or not a string), or why the body is not JSON.
pub uninterp spec fn json_string_field(body: Seq<char>, field: Seq<char>) -> Result<Option<Seq<char>>, Seq<char>>;

/// Reads field `field` of a JSON body with `serde_json`: the body's parse
/// as a JSON value, then the field when it is a string.
#[verifier::external_body]
fn string_field(body: &str, field: &str) -> (r: Result<Option<String>, String>)
    ensures
        match r {
            Ok(Some(out)) => json_string_field(body@, field@) == Ok::<Option<Seq<char>>, Seq<char>>(Some(out@)),
            Ok(None) => json_string_field(body@, field@) == Ok::<Option<Seq<char>>, Seq<char>>(None),
            Err(e) => json_string_field(body@, field@) == Err::<Option<Seq<char>>, Seq<char>>(e@),
        },
{
    match serde_json::from_str::<serde_json::Value>(body) {
        Ok(value) => match value.get(field) {
            Some(serde_json::Value::String(out)) => Ok(Some(out.clone())),
            _ => Ok(None),
        },
        Err(error) => Err(error.to_string()),
    }
}

/// How a body that is not JSON is reported, as the HTTP client reports a
/// body it cannot decode.
pub const DECODE_ERROR: &'static str = "error decoding response body";

/// What one attempt's successful HTTP answer yields: the `output` text of
/// its body, or why there is none (a body that is not JSON is a decoding
/// error).
pub fn decode_attempt(endpoint: &str, body: &str) -> (r: Result<String, String>)
    ensures
        match json_string_field(body@, OUTPUT_FIELD@) {
            Ok(Some(out)) => r matches Ok(o) && o@ == out,
            Ok(None) => r matches Err(m) && m@ == "ghostos response missing output field from "@ + endpoint@,
            Err(_) => r matches Err(m) && m@ == DECODE_ERROR@,
        },
{
    match string_field(body, OUTPUT_FIELD) {
        Ok(field) => attempt_outcome(endpoint, Ok(field)),
        Err(_) => Err(owned(DECODE_ERROR)),
    }
}

} // verus!
