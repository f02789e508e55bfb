//! Role prompts: the text that tells an agent what its role is.
use vstd::prelude::*;
use crate::text::concat2;

verus! {

broadcast use vstd::string::group_string_axioms;

/// Prepares the roles; prompts are read on demand, so there is nothing to do.
pub fn load_roles() -> (r: Result<(), String>)
    ensures
        r is Ok,
{
    Ok(())
}

/// The prompt of a role from what reading its file at `path` gave: the
/// file's text, or an error naming the file.
pub fn load_role_prompt(path: &str, read: Result<String, String>) -> (r: Result<String, String>)
    ensures
        read is Ok ==> r == read,
        read is Err ==> (r matches Err(m) && m@ == "failed to read role prompt at "@ + path@),
{
    match read {
        Ok(prompt) => Ok(prompt),
        Err(_) => Err(concat2("failed to read role prompt at ", path)),
    }
}

} // verus!
