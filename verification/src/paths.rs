//! Where the workspace keeps its files: the database and role prompts at
//! its top, the API keys, the GhostOS configuration and agent logs in its
//! `.ghostteam` state directory.
use vstd::prelude::*;
use crate::text::{concat2, concat3, owned};

verus! {

broadcast use vstd::string::group_string_axioms;

/// The workspace directory when none is configured.
pub const WORKSPACE_DIR: &'static str = ".ghostteam";

/// The environment variable that configures the workspace directory.
pub const WORKSPACE_DIR_ENV: &'static str = "GHOSTTEAM_WORKSPACE_DIR";

/// The database file inside the workspace.
pub const DATABASE_FILE: &'static str = "ghostteam.db";

/// The API keys file inside the workspace.
pub const API_KEYS_FILE: &'static str = "api_keys.yaml";

/// The GhostOS configuration file inside the workspace.
pub const CONFIG_FILE: &'static str = "config.yaml";

/// The directory inside the workspace that holds the API keys, the GhostOS
/// configuration and the agent logs.
pub const STATE_DIR: &'static str = ".ghostteam";

/// The directory inside the state directory that agent logs are written to.
pub const LOGS_DIR: &'static str = "logs";

/// `base` joined with `name` as `Path::join` does on Unix: an absolute
/// `name` replaces `base`; otherwise a `/` separates them unless `base` is
/// empty or already ends with one.
pub open spec fn joined(base: Seq<char>, name: Seq<char>) -> Seq<char> {
    if name.len() > 0 && name[0] == '/' {
        name
    } else if base.len() == 0 {
        name
    } else if base.last() == '/' {
        base + name
    } else {
        base + "/"@ + name
    }
}

/// `base` joined with `name` (see `joined`).
pub fn path_join(base: &str, name: &str) -> (r: String)
    ensures
        r@ == joined(base@, name@),
{
    if name.unicode_len() > 0 && name.get_char(0) == '/' {
        return owned(name);
    }
    let n = base.unicode_len();
    if n == 0 {
        owned(name)
    } else if base.get_char(n - 1) == '/' {
        concat2(base, name)
    } else {
        concat3(base, "/", name)
    }
}

/// The workspace directory: the configured one, else `.ghostteam`.
pub fn workspace_dir(configured: Option<String>) -> (r: String)
    ensures
        r@ == match configured {
            Some(d) => d@,
            None => WORKSPACE_DIR@,
        },
{
    match configured {
        Some(d) => d,
        None => owned(WORKSPACE_DIR),
    }
}

/// The database file of a workspace.
pub fn database_path(workspace: &str) -> (r: String)
    ensures
        r@ == joined(workspace@, DATABASE_FILE@),
{
    path_join(workspace, DATABASE_FILE)
}

/// The state directory of a workspace: `.ghostteam` inside it.
pub fn state_dir(workspace: &str) -> (r: String)
    ensures
        r@ == joined(workspace@, STATE_DIR@),
{
    path_join(workspace, STATE_DIR)
}

/// The API keys file of a workspace, in its state directory.
pub fn api_keys_path(workspace: &str) -> (r: String)
    ensures
        r@ == joined(joined(workspace@, STATE_DIR@), API_KEYS_FILE@),
{
    let dir = state_dir(workspace);
    path_join(dir.as_str(), API_KEYS_FILE)
}

/// The prompt file of a role: `roles/<role>.md` in the workspace.
pub fn role_prompt_path(workspace: &str, role: &str) -> (r: String)
    ensures
        r@ == joined(joined(workspace@, "roles"@), role@ + ".md"@),
{
    let roles = path_join(workspace, "roles");
    let file = concat2(role, ".md");
    path_join(roles.as_str(), file.as_str())
}

/// The log file of an agent: `<agent>.log` in the `logs` directory of the
/// workspace's state directory.
pub fn log_file_path(workspace: &str, agent: &str) -> (r: String)
    ensures
        r@ == joined(joined(joined(workspace@, STATE_DIR@), LOGS_DIR@), agent@ + ".log"@),
{
    let dir = state_dir(workspace);
    let logs = path_join(dir.as_str(), LOGS_DIR);
    let file = concat2(agent, ".log");
    path_join(logs.as_str(), file.as_str())
}

/// The GhostOS configuration file of a workspace, in its state directory.
pub fn config_path(workspace: &str) -> (r: String)
    ensures
        r@ == joined(joined(workspace@, STATE_DIR@), CONFIG_FILE@),
{
    let dir = state_dir(workspace);
    path_join(dir.as_str(), CONFIG_FILE)
}

} // verus!
