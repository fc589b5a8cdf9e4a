//! Checking a live endpoint: the settings read from the environment (and from an env file),
//! the request URL, and how the reply or the refusal is reported.

use vstd::prelude::*;
use crate::json::{json_reply_strings, message_reply_document, read_reply_strings};
use crate::status::{status_display, status_text};
use crate::text::{
    find_char, find_char_in, lemma_find_char_bounds, str_chars, string_from_chars, trim,
    trim_bounds,
};

verus! {

pub const DEFAULT_PROBE_BASE_URL: &'static str = "https://generativelanguage.googleapis.com/v1beta/openai";
pub const DEFAULT_PROBE_MODEL: &'static str = "models/gemini-3.1-flash-lite-preview";
pub const PROBE_PATH: &'static str = "/chat/completions";
pub const HTTP_ERROR_LEAD: &'static str = "HTTP ";
pub const HTTP_ERROR_SEPARATOR: &'static str = ": ";
pub const NO_CONTENT: &'static str = "No content in response";
pub const NOT_JSON: &'static str = "error decoding response body";

/// The endpoint, key and model to check.
pub struct ProbeSettings {
    pub api_key: String,
    pub base_url: String,
    pub model: String,
}

/// Why a checked endpoint gave no text.
#[derive(Debug)]
pub enum ProbeError {
    /// The reply was not JSON.
    NotJson,
    /// The reply held no `choices[0].message.content` string.
    NoContent,
}

/// The assignment one line of an env file makes: none for a blank line, a comment (a line
/// that starts with `#`) or a line without `=`; otherwise the trimmed text before the first
/// `=` and the trimmed text after it.
pub open spec fn env_line_assignment(line: Seq<char>) -> Seq<(Seq<char>, Seq<char>)> {
    if trim(line).len() == 0 || line[0] == '#' {
        Seq::empty()
    } else {
        match find_char(line, '=') {
            Some(i) => seq![
                (trim(line.subrange(0, i)), trim(line.subrange(i + 1, line.len() as int))),
            ],
            None => Seq::empty(),
        }
    }
}

/// The assignments of an env file, line by line (lines end at line feeds).
pub open spec fn env_assignments(content: Seq<char>) -> Seq<(Seq<char>, Seq<char>)>
    decreases content.len(),
{
    proof {
        lemma_find_char_bounds(content, '\n');
    }
    match find_char(content, '\n') {
        None => env_line_assignment(content),
        Some(i) => env_line_assignment(content.subrange(0, i)) + env_assignments(
            content.subrange(i + 1, content.len() as int),
        ),
    }
}

/// `s` without its trailing `c`s.
pub open spec fn trim_end_char(s: Seq<char>, c: char) -> Seq<char>
    decreases s.len(),
{
    if s.len() > 0 && s.last() == c {
        trim_end_char(s.drop_last(), c)
    } else {
        s
    }
}

/// The settings to check with: none without a key (or with an empty one); the default
/// endpoint and model stand in for missing ones.
pub open spec fn probe_settings_of(
    api_key: Option<Seq<char>>,
    base_url: Option<Seq<char>>,
    model: Option<Seq<char>>,
) -> Option<(Seq<char>, Seq<char>, Seq<char>)> {
    match api_key {
        None => None,
        Some(key) => if key.len() == 0 {
            None
        } else {
            Some(
                (
                    key,
                    match base_url {
                        Some(u) => u,
                        None => DEFAULT_PROBE_BASE_URL@,
                    },
                    match model {
                        Some(m) => m,
                        None => DEFAULT_PROBE_MODEL@,
                    },
                ),
            )
        },
    }
}

/// The text of a checked endpoint's whole reply.
pub open spec fn probe_reply(body: Seq<char>) -> Result<Seq<char>, ProbeError> {
    match json_reply_strings(body) {
        None => Err(ProbeError::NotJson),
        Some(fields) => match fields.1 {
            Some(content) => Ok(content),
            None => Err(ProbeError::NoContent),
        },
    }
}

/// The message of a probe error.
pub open spec fn probe_error_message(e: ProbeError) -> Seq<char> {
    match e {
        ProbeError::NotJson => NOT_JSON@,
        ProbeError::NoContent => NO_CONTENT@,
    }
}

proof fn lemma_trim_end_char_take(s: Seq<char>, c: char, j: int)
    requires
        0 <= j <= s.len(),
        forall|k: int| j <= k < s.len() ==> #[trigger] s[k] == c,
    ensures
        trim_end_char(s, c) == trim_end_char(s.subrange(0, j), c),
    decreases s.len() - j,
{
    if j < s.len() {
        let t = s.drop_last();
        assert forall|k: int| j <= k < t.len() implies #[trigger] t[k] == c by {
            assert(t[k] == s[k]);
        }
        lemma_trim_end_char_take(t, c, j);
        assert(t.subrange(0, j) =~= s.subrange(0, j));
    } else {
        assert(s.subrange(0, j) =~= s);
    }
}

impl ProbeError {
    /// The message that describes the error.
    pub fn message(&self) -> (m: String)
        ensures
            m@ == probe_error_message(*self),
    {
        match self {
            ProbeError::NotJson => NOT_JSON.to_string(),
            ProbeError::NoContent => NO_CONTENT.to_string(),
        }
    }
}

/// The assignments an env file makes, in order.
pub fn parse_env_assignments(content: &str) -> (r: Vec<(String, String)>)
    ensures
        r@.map_values(|p: (String, String)| (p.0@, p.1@)) == env_assignments(content@),
{
    let v = str_chars(content);
    let n = v.len();
    let mut out: Vec<(String, String)> = Vec::new();
    let mut pos: usize = 0;
    assert(v@.subrange(0, n as int) =~= v@);
    loop
        invariant_except_break
            env_assignments(content@) == out@.map_values(|p: (String, String)| (p.0@, p.1@))
                + env_assignments(v@.subrange(pos as int, n as int)),
        invariant
            pos <= n == v.len(),
            v@ == content@,
        ensures
            env_assignments(content@) == out@.map_values(|p: (String, String)| (p.0@, p.1@)),
        decreases n - pos,
    {
        let ghost cur = v@.subrange(pos as int, n as int);
        let k = find_char_in(&v, pos, n, '\n');
        let ghost line = v@.subrange(pos as int, k as int);
        assert(cur.subrange(0, k - pos) =~= line);
        let ghost before = out@.map_values(|p: (String, String)| (p.0@, p.1@));
        let (a, b) = trim_bounds(&v, pos, k);
        if a < b && v[pos] != '#' {
            let e = find_char_in(&v, pos, k, '=');
            if e < k {
                let (ka, kb) = trim_bounds(&v, pos, e);
                let (va, vb) = trim_bounds(&v, e + 1, k);
                assert(line.subrange(0, e - pos) =~= v@.subrange(pos as int, e as int));
                assert(line.subrange(e - pos + 1, line.len() as int) =~= v@.subrange(
                    e + 1,
                    k as int,
                ));
                let key = string_from_chars(&v, ka, kb);
                let value = string_from_chars(&v, va, vb);
                out.push((key, value));
                assert(out@.map_values(|p: (String, String)| (p.0@, p.1@)) =~= before
                    + env_line_assignment(line));
            } else {
                assert(before + env_line_assignment(line) =~= before);
            }
        } else {
            proof {
                if line.len() > 0 {
                    assert(line[0] == v@[pos as int]);
                }
            }
            assert(before + env_line_assignment(line) =~= before);
        }
        if k == n {
            assert(cur =~= line);
            assert(env_assignments(cur) == env_line_assignment(line));
            break;
        }
        assert(cur.subrange(k - pos + 1, cur.len() as int) =~= v@.subrange(k + 1, n as int));
        assert(env_assignments(cur) == env_line_assignment(line) + env_assignments(
            v@.subrange(k + 1, n as int),
        ));
        pos = k + 1;
    }
    out
}

/// The settings to check with, from the key, endpoint and model found in the environment.
pub fn probe_settings(
    api_key: Option<String>,
    base_url: Option<String>,
    model: Option<String>,
) -> (r: Option<ProbeSettings>)
    ensures
        match probe_settings_of(api_key.deep_view(), base_url.deep_view(), model.deep_view()) {
            None => r is None,
            Some(s) => r matches Some(p) && p.api_key@ == s.0 && p.base_url@ == s.1
                && p.model@ == s.2,
        },
{
    let api_key = match api_key {
        Some(k) => k,
        None => return None,
    };
    if api_key.as_str().is_empty() {
        return None;
    }
    let base_url = match base_url {
        Some(u) => u,
        None => DEFAULT_PROBE_BASE_URL.to_string(),
    };
    let model = match model {
        Some(m) => m,
        None => DEFAULT_PROBE_MODEL.to_string(),
    };
    Some(ProbeSettings { api_key, base_url, model })
}

/// The URL to check: the endpoint without its trailing slashes, then `/chat/completions`.
pub fn probe_url(base_url: &str) -> (url: String)
    ensures
        url@ == trim_end_char(base_url@, '/') + PROBE_PATH@,
{
    let v = str_chars(base_url);
    let mut j = v.len();
    while j > 0 && v[j - 1] == '/'
        invariant
            j <= v.len(),
            forall|k: int| j <= k < v@.len() ==> #[trigger] v@[k] == '/',
        decreases j,
    {
        j = j - 1;
    }
    proof {
        lemma_trim_end_char_take(v@, '/', j as int);
    }
    let mut url = string_from_chars(&v, 0, j);
    url.append(PROBE_PATH);
    url
}

/// The report of an unsuccessful status: `HTTP `, the status, `: ` and the body.
pub fn probe_http_error(code: u16, body: &str) -> (m: String)
    requires
        100 <= code <= 999,
    ensures
        m@ == HTTP_ERROR_LEAD@ + status_display(code) + HTTP_ERROR_SEPARATOR@ + body@,
{
    let mut m = HTTP_ERROR_LEAD.to_string();
    let status = status_text(code);
    m.append(status.as_str());
    m.append(HTTP_ERROR_SEPARATOR);
    m.append(body);
    m
}

/// The text of a checked endpoint's whole reply: `choices[0].message.content`.
pub fn probe_reply_content(body: &str) -> (r: Result<String, ProbeError>)
    ensures
        match probe_reply(body@) {
            Ok(c) => r matches Ok(t) && t@ == c,
            Err(e) => r matches Err(f) && f == e,
        },
        forall|c: Seq<char>|
            #[trigger] message_reply_document(c) == body@ ==> (r matches Ok(t) && t@ == c),
{
    match read_reply_strings(body) {
        None => Err(ProbeError::NotJson),
        Some(fields) => {
            let (_, content, _, _, _) = fields;
            match content {
                Some(c) => Ok(c),
                None => Err(ProbeError::NoContent),
            }
        },
    }
}

} // verus!
