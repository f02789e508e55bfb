//! Who may use the API: the key a request carries and whether it is one of
//! the configured keys.
use vstd::prelude::*;
use crate::text::{chars_of, concat2, concat3, str_eq, string_of_range};

verus! {

broadcast use vstd::string::group_string_axioms;

/// The header that carries the API key.
pub const HEADER_NAME: &'static str = "x-ghostteam-key";

/// `s` up to its first `c`.
pub open spec fn before_char(s: Seq<char>, c: char) -> Seq<char>
    decreases s.len(),
{
    if s.len() == 0 || s[0] == c {
        Seq::empty()
    } else {
        seq![s[0]] + before_char(s.drop_first(), c)
    }
}

/// The value of the first `key=value` pair of a `&`-separated query whose
/// name is `key` (pairs without `=` are passed over).
pub open spec fn query_value(query: Seq<char>, key: Seq<char>) -> Option<Seq<char>>
    decreases query.len(),
{
    let pair = before_char(query, '&');
    let name = before_char(pair, '=');
    if name.len() < pair.len() && name == key {
        Some(pair.skip(name.len() as int + 1))
    } else if pair.len() < query.len() {
        query_value(query.skip(pair.len() as int + 1), key)
    } else {
        None
    }
}

proof fn lemma_before_char_index(s: Seq<char>, c: char, i: int)
    requires
        0 <= i <= s.len(),
        forall|k: int| 0 <= k < i ==> #[trigger] s[k] != c,
        i == s.len() || s[i] == c,
    ensures
        before_char(s, c) == s.take(i),
    decreases s.len(),
{
    if s.len() > 0 && i > 0 {
        lemma_before_char_index(s.drop_first(), c, i - 1);
        assert(s.take(i) =~= seq![s[0]] + s.drop_first().take(i - 1));
    } else if s.len() > 0 {
        assert(s.take(i) =~= Seq::<char>::empty());
    }
}

/// Where the first `c` of `v[from..to]` is, or `to`.
fn find_char(v: &Vec<char>, from: usize, to: usize, c: char) -> (j: usize)
    requires
        from <= to <= v.len(),
    ensures
        from <= j <= to,
        before_char(v@.subrange(from as int, to as int), c) == v@.subrange(from as int, j as int),
{
    let mut j = from;
    while j < to && v[j] != c
        invariant
            from <= j <= to <= v.len(),
            forall|k: int| from <= k < j ==> v@[k] != c,
        decreases to - j,
    {
        j = j + 1;
    }
    proof {
        let t = v@.subrange(from as int, to as int);
        assert forall|k: int| 0 <= k < j - from implies #[trigger] t[k] != c by {
            assert(t[k] == v@[from + k]);
        }
        if j < to {
            assert(t[j - from] == v@[j as int]);
        }
        lemma_before_char_index(t, c, j - from);
        assert(t.take(j - from) =~= v@.subrange(from as int, j as int));
    }
    j
}

/// The value of parameter `key` in a request's query string, if any.
pub fn query_param(query: Option<&str>, key: &str) -> (r: Option<String>)
    ensures
        match query {
            None => r is None,
            Some(q) => match query_value(q@, key@) {
                Some(v) => r matches Some(s) && s@ == v,
                None => r is None,
            },
        },
{
    let q = match query {
        Some(q) => q,
        None => {
            return None;
        },
    };
    let v = chars_of(q);
    let mut i: usize = 0;
    assert(v@.skip(0) =~= v@);
    loop
        invariant
            i <= v@.len(),
            v@ == q@,
            query == Some(q),
            query_value(v@, key@) == query_value(v@.skip(i as int), key@),
        decreases v@.len() - i,
    {
        let j = find_char(&v, i, v.len(), '&');
        let e = find_char(&v, i, j, '=');
        let ghost s = v@.skip(i as int);
        proof {
            assert(s =~= v@.subrange(i as int, v@.len() as int));
            let pair = before_char(s, '&');
            assert(pair == v@.subrange(i as int, j as int));
            assert(before_char(pair, '=') == v@.subrange(i as int, e as int));
        }
        if e < j {
            let name = string_of_range(&v, i, e);
            if str_eq(name.as_str(), key) {
                let value = string_of_range(&v, e + 1, j);
                proof {
                    let pair = before_char(s, '&');
                    let nm = before_char(pair, '=');
                    assert(nm == name@);
                    assert(nm.len() < pair.len());
                    assert(pair.skip(nm.len() as int + 1) =~= v@.subrange(e + 1, j as int));
                    assert(query_value(s, key@) == Some(value@));
                }
                return Some(value);
            }
        }
        if j == v.len() {
            proof {
                let pair = before_char(s, '&');
                assert(pair.len() == s.len());
                assert(query_value(s, key@) is None);
            }
            return None;
        }
        proof {
            assert(s.skip(j - i + 1) =~= v@.skip(j + 1));
        }
        i = j + 1;
    }
}

/// The key a request carries: the `x-ghostteam-key` header, else the
/// `api_key` query parameter, else the `key` one.
pub open spec fn provided_key_of(header: Option<Seq<char>>, query: Option<Seq<char>>) -> Option<
    Seq<char>,
> {
    match header {
        Some(h) => Some(h),
        None => match query {
            None => None,
            Some(q) => match query_value(q, "api_key"@) {
                Some(v) => Some(v),
                None => query_value(q, "key"@),
            },
        },
    }
}

/// The key a request carries, from its header value (when it is text) and
/// its query string.
pub fn provided_key(header: Option<String>, query: Option<&str>) -> (r: Option<String>)
    ensures
        crate::db::opt_view(r) == provided_key_of(
            crate::db::opt_view(header),
            match query {
                Some(q) => Some(q@),
                None => None,
            },
        ),
{
    match header {
        Some(h) => Some(h),
        None => match query_param(query, "api_key") {
            Some(v) => Some(v),
            None => query_param(query, "key"),
        },
    }
}

/// Whether a request is let through: it carries a key, the key file could
/// be read, and the key is one of those listed.
pub open spec fn is_authorized(provided: Option<Seq<char>>, keys: Option<Seq<Seq<char>>>) -> bool {
    &&& provided is Some
    &&& keys is Some
    &&& keys->0.contains(provided->0)
}

/// Whether a request carrying `provided` is let through, given the keys the
/// key file lists (or why it could not be read).
pub fn authorize(provided: &Option<String>, keys: &Result<Vec<String>, String>) -> (ok: bool)
    ensures
        ok == is_authorized(
            crate::db::opt_view(*provided),
            match keys {
                Ok(k) => Some(crate::konnect::strings_view(k@)),
                Err(_) => None,
            },
        ),
{
    let p = match provided {
        Some(p) => p,
        None => {
            return false;
        },
    };
    let list = match keys {
        Ok(k) => k,
        Err(_) => {
            return false;
        },
    };
    let ghost view = crate::konnect::strings_view(list@);
    let mut i: usize = 0;
    while i < list.len()
        invariant
            i <= list@.len(),
            view == crate::konnect::strings_view(list@),
            *provided == Some(*p),
            *keys == Ok::<Vec<String>, String>(*list),
            forall|k: int| 0 <= k < i ==> view[k] != p@,
        decreases list.len() - i,
    {
        if str_eq(list[i].as_str(), p.as_str()) {
            assert(view[i as int] == p@);
            assert(view.contains(p@));
            return true;
        }
        i = i + 1;
    }
    assert(!view.contains(p@));
    false
}

/// The field of an API keys file that lists the keys.
pub const KEYS_FIELD: &'static str = "keys";

/// What field `field` of a YAML document holds as a list of strings (none
/// when there is no such field), or why the text is not such a document.
pub uninterp spec fn yaml_string_list_field(text: Seq<char>, field: Seq<char>) -> Result<Option<Seq<Seq<char>>>, Seq<char>>;

/// Reads field `field` of a YAML document with `serde_yaml`: the text as a
/// YAML value, then the field as a list of strings.
#[verifier::external_body]
fn string_list_field(text: &str, field: &str) -> (r: Result<Option<Vec<String>>, String>)
    ensures
        match r {
            Ok(Some(v)) => yaml_string_list_field(text@, field@) == Ok::<Option<Seq<Seq<char>>>, Seq<char>>(
                Some(crate::konnect::strings_view(v@)),
            ),
            Ok(None) => yaml_string_list_field(text@, field@) == Ok::<Option<Seq<Seq<char>>>, Seq<char>>(None),
            Err(e) => yaml_string_list_field(text@, field@) == Err::<Option<Seq<Seq<char>>>, Seq<char>>(e@),
        },
{
    match serde_yaml::from_str::<serde_yaml::Value>(text) {
        Ok(document) => match document.get(field) {
            Some(list) => match serde_yaml::from_value::<Vec<String>>(list.clone()) {
                Ok(list) => Ok(Some(list)),
                Err(error) => Err(error.to_string()),
            },
            None => Ok(None),
        },
        Err(error) => Err(error.to_string()),
    }
}

/// The keys of the API keys file at `path`, from what reading it gave, or
/// why there are none.
pub fn api_keys_from_file(path: &str, read: Result<String, String>) -> (r: Result<Vec<String>, String>)
    ensures
        match read {
            Err(e) => r matches Err(m) && m@ == "failed to read API keys file at "@ + path@ + ": "@ + e@,
            Ok(text) => match yaml_string_list_field(text@, KEYS_FIELD@) {
                Ok(Some(keys)) => r matches Ok(v) && crate::konnect::strings_view(v@) == keys,
                Ok(None) => r matches Err(m) && m@ == "failed to parse API keys file at "@ + path@
                    + ": "@ + "missing field `keys`"@,
                Err(e) => r matches Err(m) && m@ == "failed to parse API keys file at "@ + path@
                    + ": "@ + e,
            },
        },
{
    match read {
        Err(error) => {
            let head = concat3("failed to read API keys file at ", path, ": ");
            Err(concat2(head.as_str(), error.as_str()))
        },
        Ok(text) => match string_list_field(text.as_str(), KEYS_FIELD) {
            Ok(Some(keys)) => Ok(keys),
            Ok(None) => {
                let head = concat3("failed to parse API keys file at ", path, ": ");
                Err(concat2(head.as_str(), "missing field `keys`"))
            },
            Err(error) => {
                let head = concat3("failed to parse API keys file at ", path, ": ");
                Err(concat2(head.as_str(), error.as_str()))
            },
        },
    }
}

} // verus!
