//! The llama.cpp backend: which binary runs with which arguments, and what a
//! finished run yields.
use vstd::prelude::*;
use crate::konnect::strings_view;
use crate::text::{concat2, owned, trim, trim_seq};

verus! {

broadcast use vstd::string::group_string_axioms;

/// The list of strings a JSON text denotes (`serde_json::from_str` into
/// `Vec<String>`), or `None` when it denotes none.
pub uninterp spec fn json_string_list(text: Seq<char>) -> Option<Seq<Seq<char>>>;

/// Parses a JSON array of strings with `serde_json::from_str`.
#[verifier::external_body]
fn parse_string_list(text: &str) -> (r: Option<Vec<String>>)
    ensures
        match r {
            Some(v) => json_string_list(text@) == Some(strings_view(v@)),
            None => json_string_list(text@) is None,
        },
{
    serde_json::from_str::<Vec<String>>(text).ok()
}

/// How the llama.cpp binary is run.
#[derive(Debug)]
pub struct LlamaCppBackend {
    binary: String,
    args: Vec<String>,
}

impl LlamaCppBackend {
    pub closed spec fn binary_view(&self) -> Seq<char> {
        self.binary@
    }

    pub closed spec fn args_view(&self) -> Seq<Seq<char>> {
        strings_view(self.args@)
    }

    /// The backend configured by the settings found in the environment: the
    /// binary (default `llama-cli`) and a JSON array of its arguments
    /// (none when absent or not such an array).
    pub fn from_settings(binary: Option<String>, args_json: Option<String>) -> (r: Self)
        ensures
            r.binary_view() == match binary {
                Some(b) => b@,
                None => "llama-cli"@,
            },
            r.args_view() == match args_json {
                Some(text) => match json_string_list(text@) {
                    Some(list) => list,
                    None => Seq::empty(),
                },
                None => Seq::<Seq<char>>::empty(),
            },
    {
        let args = match args_json {
            Some(text) => parse_string_list(text.as_str()),
            None => None,
        };
        Self::from_parts(binary, args)
    }

    /// The backend for the given binary (default `llama-cli`) and the
    /// arguments a JSON text was parsed into (none when it gave no list).
    pub fn from_parts(binary: Option<String>, args: Option<Vec<String>>) -> (r: Self)
        ensures
            r.binary_view() == match binary {
                Some(b) => b@,
                None => "llama-cli"@,
            },
            r.args_view() == match args {
                Some(v) => strings_view(v@),
                None => Seq::<Seq<char>>::empty(),
            },
    {
        let binary = match binary {
            Some(b) => b,
            None => owned("llama-cli"),
        };
        let args = match args {
            Some(v) => v,
            None => {
                let v: Vec<String> = Vec::new();
                assert(strings_view(v@) =~= Seq::<Seq<char>>::empty());
                v
            },
        };
        LlamaCppBackend { binary, args }
    }

    /// The binary to run.
    pub fn binary(&self) -> (r: &str)
        ensures
            r@ == self.binary_view(),
    {
        self.binary.as_str()
    }

    /// The arguments to run it with.
    pub fn args(&self) -> (r: &Vec<String>)
        ensures
            strings_view(r@) == self.args_view(),
    {
        &self.args
    }
}

/// What a finished run of the binary yields: its trimmed output when it
/// succeeded, otherwise a failure naming the exit status and the trimmed
/// error output.
pub fn generation_result(success: bool, status: &str, stdout: &str, stderr: &str) -> (r: Result<
    String,
    String,
>)
    ensures
        success ==> r is Ok && r->Ok_0@ == trim_seq(stdout@),
        !success ==> r is Err && r->Err_0@ == "llama.cpp exited with status "@ + status@ + ": "@
            + trim_seq(stderr@),
{
    if success {
        Ok(trim(stdout))
    } else {
        let mut e = concat2("llama.cpp exited with status ", status);
        e.append(": ");
        let t = trim(stderr);
        e.append(t.as_str());
        Err(e)
    }
}

/// A connection hook kept for callers that expect one; the llama.cpp
/// backend starts a process per prompt and keeps no connection.
pub fn connect() -> (r: Result<(), String>)
    ensures
        r is Ok,
{
    Ok(())
}

} // verus!
