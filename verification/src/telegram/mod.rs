//! The Telegram command hub: which command a chat message asks for, how
//! replies are worded and split into Telegram-sized chunks, and how the
//! bridge reports what the GhostTeam API answered.
use vstd::prelude::*;
use crate::db::opt_view;
use crate::konnect::{strip_trailing_slashes, trim_end_slashes};
use crate::text::{
    chars_of, concat2, concat3, decimal, decimal_int, format_i64, format_u64, is_white_space,
    is_prefix, is_whitespace, owned, push_char, starts_with, str_eq, string_of, string_of_range, trim, trim_seq,
    trim_start_seq,
};

pub mod reply;

verus! {

broadcast use vstd::string::group_string_axioms;

/// How long a `getUpdates` call waits for updates, in seconds.
pub const TELEGRAM_LONG_POLL_SECONDS: u64 = 25;

/// The most bytes one Telegram message carries.
pub const TELEGRAM_MESSAGE_CHUNK_LIMIT: usize = 3500;

/// Where the GhostTeam API is reached when no address is configured.
pub const DEFAULT_API_BASE_URL: &'static str = "http://127.0.0.1:8080";

/// Where the Telegram Bot API is reached.
pub const TELEGRAM_API_BASE_URL: &'static str = "https://api.telegram.org";

// ---------------------------------------------------------------------------
// Commands
// ---------------------------------------------------------------------------
/// `s` up to its first white-space character.
pub open spec fn word(s: Seq<char>) -> Seq<char>
    decreases s.len(),
{
    if s.len() == 0 || is_white_space(s[0]) {
        Seq::empty()
    } else {
        seq![s[0]] + word(s.drop_first())
    }
}

/// `s` up to its first `@`.
pub open spec fn before_at(s: Seq<char>) -> Seq<char>
    decreases s.len(),
{
    if s.len() == 0 || s[0] == '@' {
        Seq::empty()
    } else {
        seq![s[0]] + before_at(s.drop_first())
    }
}

/// The first white-space separated word of `s`, if any.
pub open spec fn first_word(s: Seq<char>) -> Option<Seq<char>> {
    let t = trim_start_seq(s);
    if t.len() == 0 {
        None
    } else {
        Some(word(t))
    }
}

/// What follows the first word of `s`, trimmed.
pub open spec fn after_first_word(s: Seq<char>) -> Seq<char> {
    let t = trim_start_seq(s);
    trim_seq(t.skip(word(t).len() as int))
}

/// The command a chat message names: its first word up to any `@botname`
/// suffix (the whole text up to `@` when it has no word).
pub open spec fn command_name(text: Seq<char>) -> Seq<char> {
    match first_word(text) {
        Some(w) => before_at(w),
        None => before_at(text),
    }
}

proof fn lemma_word_index(s: Seq<char>, i: int)
    requires
        0 <= i <= s.len(),
        forall|k: int| 0 <= k < i ==> !is_white_space(#[trigger] s[k]),
        i == s.len() || is_white_space(s[i]),
    ensures
        word(s) == s.take(i),
    decreases s.len(),
{
    if s.len() > 0 && i > 0 {
        lemma_word_index(s.drop_first(), i - 1);
        assert(s.take(i) =~= seq![s[0]] + s.drop_first().take(i - 1));
    } else if s.len() > 0 {
        assert(s.take(i) =~= Seq::<char>::empty());
    }
}

proof fn lemma_before_at_index(s: Seq<char>, i: int)
    requires
        0 <= i <= s.len(),
        forall|k: int| 0 <= k < i ==> #[trigger] s[k] != '@',
        i == s.len() || s[i] == '@',
    ensures
        before_at(s) == s.take(i),
    decreases s.len(),
{
    if s.len() > 0 && i > 0 {
        lemma_before_at_index(s.drop_first(), i - 1);
        assert(s.take(i) =~= seq![s[0]] + s.drop_first().take(i - 1));
    } else if s.len() > 0 {
        assert(s.take(i) =~= Seq::<char>::empty());
    }
}

/// Index of the first white-space character of `v` from `from` on.
fn word_end(v: &Vec<char>, from: usize) -> (j: usize)
    requires
        from <= v.len(),
    ensures
        from <= j <= v.len(),
        word(v@.skip(from as int)) == v@.subrange(from as int, j as int),
{
    let mut j = from;
    while j < v.len() && !is_whitespace(v[j])
        invariant
            from <= j <= v.len(),
            forall|k: int| from <= k < j ==> !is_white_space(#[trigger] v@[k]),
        decreases v.len() - j,
    {
        j = j + 1;
    }
    proof {
        let t = v@.skip(from as int);
        assert forall|k: int| 0 <= k < j - from implies !is_white_space(#[trigger] t[k]) by {
            assert(t[k] == v@[from + k]);
        }
        if j < v.len() {
            assert(t[j - from] == v@[j as int]);
        }
        lemma_word_index(t, j - from);
        assert(t.take(j - from) =~= v@.subrange(from as int, j as int));
    }
    j
}

/// The text of `v[from..to]` up to its first `@`.
fn string_before_at(v: &Vec<char>, from: usize, to: usize) -> (r: String)
    requires
        from <= to <= v.len(),
    ensures
        r@ == before_at(v@.subrange(from as int, to as int)),
{
    let mut j = from;
    while j < to && v[j] != '@'
        invariant
            from <= j <= to <= v.len(),
            forall|k: int| from <= k < j ==> v@[k] != '@',
        decreases to - j,
    {
        j = j + 1;
    }
    proof {
        let t = v@.subrange(from as int, to as int);
        assert forall|k: int| 0 <= k < j - from implies #[trigger] t[k] != '@' by {
            assert(t[k] == v@[from + k]);
        }
        if j < to {
            assert(t[j - from] == v@[j as int]);
        }
        lemma_before_at_index(t, j - from);
        assert(t.take(j - from) =~= v@.subrange(from as int, j as int));
    }
    string_of_range(v, from, j)
}

/// Where the first word of `v` starts and ends (equal when there is none).
fn first_word_bounds(v: &Vec<char>) -> (r: (usize, usize))
    ensures
        r.0 <= r.1 <= v.len(),
        trim_start_seq(v@) == v@.skip(r.0 as int),
        r.0 == v.len() <==> first_word(v@) is None,
        r.0 < v.len() ==> first_word(v@) == Some(v@.subrange(r.0 as int, r.1 as int)),
        r.0 < v.len() ==> word(trim_start_seq(v@)).len() == r.1 - r.0,
{
    let mut i: usize = 0;
    assert(v@.skip(0) =~= v@);
    while i < v.len() && is_whitespace(v[i])
        invariant
            i <= v.len(),
            trim_start_seq(v@) == trim_start_seq(v@.skip(i as int)),
        decreases v.len() - i,
    {
        assert(v@.skip(i as int).drop_first() =~= v@.skip(i + 1));
        i = i + 1;
    }
    let j = word_end(v, i);
    (i, j)
}

/// The command a chat message names (`/status` for `/status@ghostbot now`).
pub fn normalize_command(text: &str) -> (r: String)
    ensures
        r@ == command_name(text@),
{
    let v = chars_of(text);
    let (i, j) = first_word_bounds(&v);
    if i == v.len() {
        assert(v@.subrange(0, v@.len() as int) =~= v@);
        string_before_at(&v, 0, v.len())
    } else {
        string_before_at(&v, i, j)
    }
}

/// The first word of a text and what follows it, trimmed.
pub fn split_first_word(text: &str) -> (r: (Option<String>, String))
    ensures
        match r.0 {
            Some(w) => first_word(text@) == Some(w@),
            None => first_word(text@) is None,
        },
        r.1@ == after_first_word(text@),
{
    let v = chars_of(text);
    let (i, j) = first_word_bounds(&v);
    let rest_raw = string_of_range(&v, j, v.len());
    let rest = trim(rest_raw.as_str());
    proof {
        let t = trim_start_seq(v@);
        if i < v.len() {
            assert(t.skip(word(t).len() as int) =~= v@.subrange(j as int, v@.len() as int));
        } else {
            assert(t.len() == 0);
            assert(word(t) =~= Seq::<char>::empty());
            assert(t.skip(0) =~= v@.subrange(j as int, v@.len() as int));
        }
    }
    if i == v.len() {
        (None, rest)
    } else {
        (Some(string_of_range(&v, i, j)), rest)
    }
}

/// `s` without one pair of surrounding double quotes.
pub open spec fn unquote(s: Seq<char>) -> Seq<char> {
    if s.len() >= 2 && s[0] == '"' && s.last() == '"' {
        s.subrange(1, s.len() - 1)
    } else {
        s
    }
}

/// `s` without one pair of surrounding double quotes.
pub fn strip_quotes(s: &str) -> (r: String)
    ensures
        r@ == unquote(s@),
{
    let v = chars_of(s);
    if v.len() >= 2 && v[0] == '"' && v[v.len() - 1] == '"' {
        string_of_range(&v, 1, v.len() - 1)
    } else {
        string_of(&v)
    }
}

/// What a chat message asks the bridge for.
#[derive(Debug)]
pub enum BridgeCommand {
    /// `/help`: the list of commands.
    Help,
    /// `/status`: a summary of the API.
    Status,
    /// `/status <agent>`: one agent's details.
    AgentStatus(String),
    /// `/agents`: the registered agents.
    Agents,
    /// `/tasks`: the tasks.
    Tasks,
    /// `/assign <agent> "<task>"`: a new task for the agent.
    Assign { agent: String, description: String },
    /// `/handoff <agent> "<task>"`: a task handed over to the agent.
    Handoff { agent: String, description: String },
    /// `/logs <agent>`: the agent's recent log lines.
    Logs(String),
    /// A known command without the arguments it needs; holds its usage.
    Usage(String),
    /// Anything else.
    Unknown,
}

/// The usage line of the commands that take arguments.
pub open spec fn usage_of(name: Seq<char>) -> Seq<char> {
    if name == "/assign"@ {
        "Usage: /assign <agent> \"<task>\""@
    } else if name == "/handoff"@ {
        "Usage: /handoff <agent> \"<task>\""@
    } else {
        "Usage: /logs <agent>"@
    }
}

/// The command a (trimmed) chat message asks for.
pub open spec fn command_of(text: Seq<char>) -> BridgeCommandView {
    let name = command_name(text);
    let args = after_first_word(text);
    let agent = first_word(args);
    let desc = unquote(after_first_word(args));
    if name == "/help"@ {
        BridgeCommandView::Help
    } else if name == "/status"@ {
        match agent {
            Some(a) => BridgeCommandView::AgentStatus(a),
            None => BridgeCommandView::Status,
        }
    } else if name == "/agents"@ {
        BridgeCommandView::Agents
    } else if name == "/tasks"@ {
        BridgeCommandView::Tasks
    } else if name == "/assign"@ || name == "/handoff"@ {
        match agent {
            Some(a) => if desc.len() > 0 {
                if name == "/assign"@ {
                    BridgeCommandView::Assign(a, desc)
                } else {
                    BridgeCommandView::Handoff(a, desc)
                }
            } else {
                BridgeCommandView::Usage(usage_of(name))
            },
            None => BridgeCommandView::Usage(usage_of(name)),
        }
    } else if name == "/logs"@ {
        match agent {
            Some(a) => BridgeCommandView::Logs(a),
            None => BridgeCommandView::Usage(usage_of(name)),
        }
    } else {
        BridgeCommandView::Unknown
    }
}

/// A command in terms of characters.
pub enum BridgeCommandView {
    Help,
    Status,
    AgentStatus(Seq<char>),
    Agents,
    Tasks,
    Assign(Seq<char>, Seq<char>),
    Handoff(Seq<char>, Seq<char>),
    Logs(Seq<char>),
    Usage(Seq<char>),
    Unknown,
}

impl BridgeCommand {
    pub open spec fn view(&self) -> BridgeCommandView {
        match self {
            BridgeCommand::Help => BridgeCommandView::Help,
            BridgeCommand::Status => BridgeCommandView::Status,
            BridgeCommand::AgentStatus(a) => BridgeCommandView::AgentStatus(a@),
            BridgeCommand::Agents => BridgeCommandView::Agents,
            BridgeCommand::Tasks => BridgeCommandView::Tasks,
            BridgeCommand::Assign { agent, description } => BridgeCommandView::Assign(
                agent@,
                description@,
            ),
            BridgeCommand::Handoff { agent, description } => BridgeCommandView::Handoff(
                agent@,
                description@,
            ),
            BridgeCommand::Logs(a) => BridgeCommandView::Logs(a@),
            BridgeCommand::Usage(u) => BridgeCommandView::Usage(u@),
            BridgeCommand::Unknown => BridgeCommandView::Unknown,
        }
    }
}

fn usage_for(name: &str) -> (r: String)
    ensures
        r@ == usage_of(name@),
{
    if str_eq(name, "/assign") {
        owned("Usage: /assign <agent> \"<task>\"")
    } else if str_eq(name, "/handoff") {
        owned("Usage: /handoff <agent> \"<task>\"")
    } else {
        owned("Usage: /logs <agent>")
    }
}

/// The command a (trimmed) chat message asks for.
pub fn parse_command(text: &str) -> (r: BridgeCommand)
    ensures
        r.view() == command_of(text@),
{
    let name = normalize_command(text);
    let (_, args) = split_first_word(text);
    let (agent, rest) = split_first_word(args.as_str());
    let desc = strip_quotes(rest.as_str());
    let n = name.as_str();
    if str_eq(n, "/help") {
        BridgeCommand::Help
    } else if str_eq(n, "/status") {
        match agent {
            Some(a) => BridgeCommand::AgentStatus(a),
            None => BridgeCommand::Status,
        }
    } else if str_eq(n, "/agents") {
        BridgeCommand::Agents
    } else if str_eq(n, "/tasks") {
        BridgeCommand::Tasks
    } else if str_eq(n, "/assign") || str_eq(n, "/handoff") {
        match agent {
            Some(a) => {
                if desc.as_str().is_empty() {
                    BridgeCommand::Usage(usage_for(n))
                } else if str_eq(n, "/assign") {
                    BridgeCommand::Assign { agent: a, description: desc }
                } else {
                    BridgeCommand::Handoff { agent: a, description: desc }
                }
            },
            None => BridgeCommand::Usage(usage_for(n)),
        }
    } else if str_eq(n, "/logs") {
        match agent {
            Some(a) => BridgeCommand::Logs(a),
            None => BridgeCommand::Usage(usage_for(n)),
        }
    } else {
        BridgeCommand::Unknown
    }
}

// ---------------------------------------------------------------------------
// Chunking
// ---------------------------------------------------------------------------
/// The number of bytes `c` takes in UTF-8.
pub open spec fn utf8_len(c: char) -> nat {
    let u = c as u32;
    if u < 0x80 {
        1
    } else if u < 0x800 {
        2
    } else if u < 0x10000 {
        3
    } else {
        4
    }
}

/// The number of bytes `s` takes in UTF-8 (`str::len`).
pub open spec fn byte_len(s: Seq<char>) -> nat
    decreases s.len(),
{
    if s.len() == 0 {
        0
    } else {
        byte_len(s.drop_last()) + utf8_len(s.last())
    }
}

/// All the pieces, one after the other.
pub open spec fn concat_all(pieces: Seq<Seq<char>>) -> Seq<char>
    decreases pieces.len(),
{
    if pieces.len() == 0 {
        Seq::empty()
    } else {
        concat_all(pieces.drop_last()) + pieces.last()
    }
}

/// `chunks` split `text` greedily into pieces of at most `limit` bytes:
/// together they are the text; none is empty; each fits the limit unless it
/// is a single character; and each but the last is full, as the next one's
/// first character would not have fit.
pub open spec fn greedy_chunks(chunks: Seq<Seq<char>>, text: Seq<char>, limit: nat) -> bool {
    &&& concat_all(chunks) == text
    &&& forall|i: int| 0 <= i < chunks.len() ==> (#[trigger] chunks[i]).len() > 0
    &&& forall|i: int|
        0 <= i < chunks.len() ==> byte_len(#[trigger] chunks[i]) <= limit || chunks[i].len() == 1
    &&& forall|i: int|
        0 <= i < chunks.len() - 1 ==> byte_len(#[trigger] chunks[i]) + utf8_len(chunks[i + 1][0])
            > limit
}

/// The bytes one character takes in UTF-8.
fn char_len(c: char) -> (n: usize)
    ensures
        n == utf8_len(c),
{
    let u = c as u32;
    if u < 0x80 {
        1
    } else if u < 0x800 {
        2
    } else if u < 0x10000 {
        3
    } else {
        4
    }
}

pub proof fn lemma_byte_len_push(s: Seq<char>, c: char)
    ensures
        byte_len(s.push(c)) == byte_len(s) + utf8_len(c),
{
    assert(s.push(c).drop_last() =~= s);
}

pub proof fn lemma_byte_len_bound(s: Seq<char>)
    ensures
        byte_len(s) <= 4 * s.len(),
        byte_len(s) >= s.len(),
    decreases s.len(),
{
    if s.len() > 0 {
        lemma_byte_len_bound(s.drop_last());
    }
}

/// The characters of a string, in strings of at most `limit` bytes (see
/// `greedy_chunks`); a text that fits is one chunk.
pub fn chunk_message(text: &str, limit: usize) -> (r: Vec<String>)
    ensures
        byte_len(text@) <= limit ==> r@.len() == 1 && r@[0]@ == text@,
        byte_len(text@) > limit ==> greedy_chunks(
            r@.map_values(|s: String| s@),
            text@,
            limit as nat,
        ),
{
    let v = chars_of(text);
    // the byte length of the whole text, counted without overflow
    let mut total: usize = 0;
    let mut k: usize = 0;
    let mut fits = true;
    while k < v.len()
        invariant
            k <= v@.len(),
            fits ==> total == byte_len(v@.take(k as int)) && total <= limit,
            !fits ==> byte_len(v@) > limit,
        decreases v.len() - k,
    {
        if fits {
            let n = char_len(v[k]);
            proof {
                lemma_byte_len_push(v@.take(k as int), v@[k as int]);
                assert(v@.take(k as int).push(v@[k as int]) =~= v@.take(k + 1));
            }
            if n > limit - total {
                fits = false;
                proof {
                    lemma_byte_len_prefix(v@, k + 1);
                }
            } else {
                total = total + n;
            }
        }
        k = k + 1;
    }
    if fits {
        assert(v@.take(v@.len() as int) =~= v@);
        let mut r: Vec<String> = Vec::new();
        r.push(owned(text));
        return r;
    }
    let mut chunks: Vec<String> = Vec::new();
    let mut current = String::new();
    let mut current_len: usize = 0;
    let mut i: usize = 0;
    while i < v.len()
        invariant
            i <= v@.len(),
            current_len == byte_len(current@),
            current_len <= limit || current@.len() == 1,
            concat_all(chunks@.map_values(|s: String| s@)) + current@ == v@.take(i as int),
            forall|j: int| 0 <= j < chunks@.len() ==> (#[trigger] chunks@[j])@.len() > 0,
            forall|j: int|
                0 <= j < chunks@.len() ==> byte_len((#[trigger] chunks@[j])@) <= limit
                    || chunks@[j]@.len() == 1,
            forall|j: int|
                0 <= j < chunks@.len() - 1 ==> byte_len((#[trigger] chunks@[j])@) + utf8_len(
                    chunks@[j + 1]@[0],
                ) > limit,
            chunks@.len() > 0 && current@.len() > 0 ==> byte_len(chunks@.last()@) + utf8_len(
                current@[0],
            ) > limit,
            chunks@.len() > 0 ==> current@.len() > 0 || i == 0,
            i > 0 ==> current@.len() > 0,
        decreases v.len() - i,
    {
        let ch = v[i];
        let n = char_len(ch);
        let ghost before = chunks@.map_values(|s: String| s@);
        if current_len > 0 && n > limit || current_len > 0 && current_len > limit - n {
            proof {
                lemma_byte_len_bound(current@);
            }
            let ghost cur = current@;
            chunks.push(current);
            current = String::new();
            current_len = 0;
            proof {
                let after = chunks@.map_values(|s: String| s@);
                assert(after =~= before.push(cur));
                assert(after.drop_last() =~= before);
                assert(concat_all(after) == concat_all(before) + cur);
            }
        }
        let ghost prev = current@;
        push_char(&mut current, ch);
        proof {
            lemma_byte_len_push(prev, ch);
            lemma_byte_len_bound(prev);
            assert(v@.take(i + 1) =~= v@.take(i as int).push(ch));
            let m = chunks@.map_values(|s: String| s@);
            assert(concat_all(m) + current@ =~= (concat_all(m) + prev).push(ch));
            if prev.len() > 0 {
                assert(current@[0] == prev[0]);
            }
        }
        current_len = current_len + n;
        i = i + 1;
    }
    let ghost before = chunks@.map_values(|s: String| s@);
    let ghost cur = current@;
    chunks.push(current);
    proof {
        let after = chunks@.map_values(|s: String| s@);
        assert(after =~= before.push(cur));
        assert(after.drop_last() =~= before);
        assert(v@.take(v@.len() as int) =~= v@);
        assert forall|j: int| 0 <= j < after.len() - 1 implies byte_len(#[trigger] after[j])
            + utf8_len(after[j + 1][0]) > limit by {
            assert(after[j] == chunks@[j]@);
            assert(after[j + 1] == chunks@[j + 1]@);
        }
        assert forall|j: int| 0 <= j < after.len() implies (#[trigger] after[j]).len() > 0 by {
            assert(after[j] == chunks@[j]@);
        }
        assert forall|j: int| 0 <= j < after.len() implies byte_len(#[trigger] after[j]) <= limit
            || after[j].len() == 1 by {
            assert(after[j] == chunks@[j]@);
        }
    }
    chunks
}

/// The byte length of a prefix never exceeds that of the whole.
pub proof fn lemma_byte_len_prefix(s: Seq<char>, k: int)
    requires
        0 <= k <= s.len(),
    ensures
        byte_len(s.take(k)) <= byte_len(s),
    decreases s.len() - k,
{
    if k < s.len() {
        lemma_byte_len_prefix(s, k + 1);
        lemma_byte_len_push(s.take(k), s[k]);
        assert(s.take(k).push(s[k]) =~= s.take(k + 1));
    } else {
        assert(s.take(k) =~= s);
    }
}

/// The offset the next `getUpdates` call asks for after handling an update.
pub fn next_offset(update_id: i64) -> (r: i64)
    requires
        update_id < i64::MAX,
    ensures
        r == update_id + 1,
{
    update_id + 1
}


// ---------------------------------------------------------------------------
// Configuration
// ---------------------------------------------------------------------------
/// What the bridge needs to run.
#[derive(Debug)]
pub struct BridgeConfig {
    pub telegram_bot_token: String,
    pub telegram_base_url: String,
    pub api_base_url: String,
    pub api_key: Option<String>,
    pub log_level: String,
}

/// The configured API key: trimmed, and none when that leaves nothing.
pub open spec fn key_of(value: Option<String>) -> Option<Seq<char>> {
    match value {
        Some(v) => if trim_seq(v@).len() > 0 {
            Some(trim_seq(v@))
        } else {
            None
        },
        None => None,
    }
}

impl BridgeConfig {
    /// The configuration from the values of `TELEGRAM_BOT_TOKEN`,
    /// `GHOSTTEAM_API_URL`, `GHOSTTEAM_API_KEY` and `LOG_LEVEL`; the token is
    /// required.
    pub fn from_values(
        telegram_bot_token: Option<String>,
        api_url: Option<String>,
        api_key: Option<String>,
        log_level: Option<String>,
    ) -> (r: Result<BridgeConfig, String>)
        ensures
            telegram_bot_token is None <==> r is Err,
            r matches Err(m) ==> m@ == "TELEGRAM_BOT_TOKEN is required for the Telegram bridge"@,
            r matches Ok(c) ==> {
                &&& c.telegram_bot_token@ == telegram_bot_token->0@
                &&& c.telegram_base_url@ == TELEGRAM_API_BASE_URL@
                &&& c.api_base_url@ == trim_end_slashes(
                    match api_url {
                        Some(u) => u@,
                        None => DEFAULT_API_BASE_URL@,
                    },
                )
                &&& opt_view(c.api_key) == key_of(api_key)
                &&& c.log_level@ == match log_level {
                    Some(l) => l@,
                    None => "info"@,
                }
            },
    {
        let token = match telegram_bot_token {
            Some(t) => t,
            None => {
                return Err(owned("TELEGRAM_BOT_TOKEN is required for the Telegram bridge"));
            },
        };
        let api_base_url = match &api_url {
            Some(u) => strip_trailing_slashes(u.as_str()),
            None => strip_trailing_slashes(DEFAULT_API_BASE_URL),
        };
        let key = match &api_key {
            Some(v) => {
                let t = trim(v.as_str());
                if t.as_str().is_empty() {
                    None
                } else {
                    Some(t)
                }
            },
            None => None,
        };
        let level = match log_level {
            Some(l) => l,
            None => owned("info"),
        };
        Ok(
            BridgeConfig {
                telegram_bot_token: token,
                telegram_base_url: owned(TELEGRAM_API_BASE_URL),
                api_base_url,
                api_key: key,
                log_level: level,
            },
        )
    }

    /// A configuration that talks to the given Telegram and API addresses.
    pub fn for_test(
        telegram_bot_token: &str,
        telegram_base_url: String,
        api_base_url: String,
        api_key: Option<String>,
    ) -> (r: BridgeConfig)
        ensures
            r.telegram_bot_token@ == telegram_bot_token@,
            r.telegram_base_url@ == trim_end_slashes(telegram_base_url@),
            r.api_base_url@ == trim_end_slashes(api_base_url@),
            r.api_key == api_key,
            r.log_level@ == "info"@,
    {
        BridgeConfig {
            telegram_bot_token: owned(telegram_bot_token),
            telegram_base_url: strip_trailing_slashes(telegram_base_url.as_str()),
            api_base_url: strip_trailing_slashes(api_base_url.as_str()),
            api_key,
            log_level: owned("info"),
        }
    }

    /// The address of a Bot API method.
    pub fn telegram_method_url(&self, method: &str) -> (r: String)
        ensures
            r@ == self.telegram_base_url@ + "/bot"@ + self.telegram_bot_token@ + "/"@ + method@,
    {
        let head = concat3(self.telegram_base_url.as_str(), "/bot", self.telegram_bot_token.as_str());
        concat3(head.as_str(), "/", method)
    }

    /// The address of a GhostTeam API path.
    pub fn api_url(&self, path: &str) -> (r: String)
        ensures
            r@ == self.api_base_url@ + path@,
    {
        concat2(self.api_base_url.as_str(), path)
    }

    /// The websocket address of an agent's log stream on the API.
    pub fn logs_stream_url(&self, agent: &str) -> (r: String)
        ensures
            r@ == websocket_form(self.api_base_url@) + "/logs/"@ + agent@ + "/stream"@,
    {
        let base = websocket_url(self.api_base_url.as_str());
        let head = concat3(base.as_str(), "/logs/", agent);
        concat2(head.as_str(), "/stream")
    }
}

/// An HTTP address in its websocket form: `http://` becomes `ws://` and
/// `https://` becomes `wss://`; any other address is kept.
pub open spec fn websocket_form(url: Seq<char>) -> Seq<char> {
    if is_prefix("https://"@, url) {
        "wss://"@ + url.skip(8)
    } else if is_prefix("http://"@, url) {
        "ws://"@ + url.skip(7)
    } else {
        url
    }
}

/// An HTTP address in its websocket form (see `websocket_form`).
pub fn websocket_url(url: &str) -> (r: String)
    ensures
        r@ == websocket_form(url@),
{
    proof {
        reveal_strlit("https://");
        reveal_strlit("http://");
    }
    let v = chars_of(url);
    if starts_with(url, "https://") {
        let rest = string_of_range(&v, 8, v.len());
        assert(v@.subrange(8, v@.len() as int) =~= url@.skip(8));
        concat2("wss://", rest.as_str())
    } else if starts_with(url, "http://") {
        let rest = string_of_range(&v, 7, v.len());
        assert(v@.subrange(7, v@.len() as int) =~= url@.skip(7));
        concat2("ws://", rest.as_str())
    } else {
        owned(url)
    }
}

// ---------------------------------------------------------------------------
// Updates
// ---------------------------------------------------------------------------
/// A chat.
#[derive(Debug)]
pub struct TelegramChat {
    pub id: i64,
}

/// A chat message.
#[derive(Debug)]
pub struct TelegramMessage {
    pub message_id: i64,
    pub chat: TelegramChat,
    pub text: Option<String>,
}

/// One update from `getUpdates`.
#[derive(Debug)]
pub struct TelegramUpdate {
    pub update_id: i64,
    pub message: Option<TelegramMessage>,
}

/// The bot's own account.
#[derive(Debug)]
pub struct TelegramUser {
    pub username: Option<String>,
}

/// The chat to answer and the command asked for, for an update with a text
/// message; nothing for any other update.
pub fn command_for_update(update: &TelegramUpdate) -> (r: Option<(i64, BridgeCommand)>)
    ensures
        match update.message {
            Some(m) => match m.text {
                Some(t) => r matches Some((chat, c)) && chat == m.chat.id && c.view() == command_of(
                    trim_seq(t@),
                ),
                None => r is None,
            },
            None => r is None,
        },
{
    match &update.message {
        Some(m) => match &m.text {
            Some(t) => {
                let text = trim(t.as_str());
                Some((m.chat.id, parse_command(text.as_str())))
            },
            None => None,
        },
        None => None,
    }
}

/// The query of a `getUpdates` call from `offset` on.
pub fn poll_query(offset: i64) -> (r: Vec<(String, String)>)
    ensures
        r@.len() == 2,
        r@[0].0@ == "timeout"@,
        r@[0].1@ == decimal(TELEGRAM_LONG_POLL_SECONDS as nat),
        r@[1].0@ == "offset"@,
        r@[1].1@ == decimal_int(offset as int),
{
    let mut q: Vec<(String, String)> = Vec::new();
    q.push((owned("timeout"), format_u64(TELEGRAM_LONG_POLL_SECONDS)));
    q.push((owned("offset"), format_i64(offset)));
    q
}

} // verus!
