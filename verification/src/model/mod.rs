//! Model backends: which backend a name selects, the interface a backend
//! offers, and the GhostOS placeholder backend.
use vstd::prelude::*;
use crate::text::{ascii_lower_seq, concat2, to_ascii_lowercase, trim, trim_seq, str_eq};

pub mod ghostos;
pub mod llamacpp;
pub mod ollama;

verus! {

broadcast use vstd::string::group_string_axioms;

/// The characters of a backend's answer or failure.
pub open spec fn result_view(r: Result<String, String>) -> Result<Seq<char>, Seq<char>> {
    match r {
        Ok(x) => Ok(x@),
        Err(e) => Err(e@),
    }
}

/// A text-generation backend.
pub trait ModelBackend {
    /// `reply` is an answer the backend may give to `prompt`.  A backend
    /// that says nothing of its answers keeps the default.
    open spec fn generates(&self, prompt: Seq<char>, reply: Result<Seq<char>, Seq<char>>) -> bool {
        true
    }

    /// Generates text for a prompt.
    fn generate(&self, prompt: &str) -> (r: Result<String, String>)
        ensures
            self.generates(prompt@, result_view(r)),
    ;
}

/// The backends a name can select.
#[derive(Debug, Clone, Copy, PartialEq, Eq, Structural)]
pub enum BackendKind {
    Ollama,
    LlamaCpp,
    GhostOS,
}

/// The backend a name selects, after trimming it and folding ASCII case.
pub open spec fn backend_kind_of(name: Seq<char>) -> Option<BackendKind> {
    let n = ascii_lower_seq(trim_seq(name));
    if n == "ollama"@ {
        Some(BackendKind::Ollama)
    } else if n == "llamacpp"@ || n == "llama.cpp"@ || n == "llama_cpp"@ {
        Some(BackendKind::LlamaCpp)
    } else if n == "ghostos"@ {
        Some(BackendKind::GhostOS)
    } else {
        None
    }
}

impl BackendKind {
    /// The backend named by `value`; the error names the normalized value.
    pub fn parse(value: &str) -> (r: Result<BackendKind, String>)
        ensures
            r matches Ok(k) ==> backend_kind_of(value@) == Some(k),
            r is Err <==> backend_kind_of(value@) is None,
            r matches Err(e) ==> e@ == "unknown backend kind: "@ + ascii_lower_seq(trim_seq(value@)),
    {
        let t = trim(value);
        let n = to_ascii_lowercase(t.as_str());
        if str_eq(n.as_str(), "ollama") {
            Ok(BackendKind::Ollama)
        } else if str_eq(n.as_str(), "llamacpp") || str_eq(n.as_str(), "llama.cpp") || str_eq(
            n.as_str(),
            "llama_cpp",
        ) {
            Ok(BackendKind::LlamaCpp)
        } else if str_eq(n.as_str(), "ghostos") {
            Ok(BackendKind::GhostOS)
        } else {
            Err(concat2("unknown backend kind: ", n.as_str()))
        }
    }
}

/// A backend with what it runs with: the Ollama endpoint and model, the
/// llama.cpp binary and arguments, or the GhostOS placeholder.
#[derive(Debug)]
pub enum Backend {
    Ollama(ollama::OllamaSettings),
    LlamaCpp(llamacpp::LlamaCppBackend),
    GhostOS(ghostos::GhostOsBackend),
}

/// The backend of the given kind, set up with the given settings.
pub fn backend_for(
    kind: BackendKind,
    ollama_settings: ollama::OllamaSettings,
    llamacpp_settings: llamacpp::LlamaCppBackend,
) -> (r: Backend)
    ensures
        kind == BackendKind::Ollama ==> r == Backend::Ollama(ollama_settings),
        kind == BackendKind::LlamaCpp ==> r == Backend::LlamaCpp(llamacpp_settings),
        kind == BackendKind::GhostOS ==> r == Backend::GhostOS(ghostos::GhostOsBackend),
{
    match kind {
        BackendKind::Ollama => Backend::Ollama(ollama_settings),
        BackendKind::LlamaCpp => Backend::LlamaCpp(llamacpp_settings),
        BackendKind::GhostOS => Backend::GhostOS(ghostos::GhostOsBackend),
    }
}

} // verus!
