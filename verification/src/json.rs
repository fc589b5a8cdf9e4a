//! The strings that the pipeline reads out of a provider's JSON replies.

use vstd::prelude::*;

verus! {

/// The strings a JSON reply holds at the places the pipeline reads, in this order:
/// `text`, `choices[0].message.content`, `choices[0].delta.content`,
/// `choices[0].delta.reasoning_content`, `error`.
pub type ReplyStrings = (
    Option<Seq<char>>,
    Option<Seq<char>>,
    Option<Seq<char>>,
    Option<Seq<char>>,
    Option<Seq<char>>,
);

/// What `serde_json` reads from `text`: `None` when `text` is not a JSON document, otherwise
/// for each place of `ReplyStrings` the string found there (`None` where the place is
/// missing or holds no string).
pub uninterp spec fn json_reply_strings(text: Seq<char>) -> Option<ReplyStrings>;

/// The hexadecimal digit of `n` (`0 <= n < 16`).
pub open spec fn hex_digit(n: int) -> char {
    seq!['0', '1', '2', '3', '4', '5', '6', '7', '8', '9', 'a', 'b', 'c', 'd', 'e', 'f'][n]
}

/// How a JSON string literal writes `c`: a quote or a backslash behind a backslash, a
/// control character as a `\u00XX` escape, any other character as itself.
pub open spec fn json_escape_char(c: char) -> Seq<char> {
    if c == '"' {
        seq!['\\', '"']
    } else if c == '\\' {
        seq!['\\', '\\']
    } else if (c as u32) < 0x20 {
        seq![
            '\\',
            'u',
            '0',
            '0',
            hex_digit(((c as u32) / 16) as int),
            hex_digit(((c as u32) % 16) as int),
        ]
    } else {
        seq![c]
    }
}

/// The characters of `s`, each written as a JSON string literal writes it.
pub open spec fn json_escaped(s: Seq<char>) -> Seq<char>
    decreases s.len(),
{
    if s.len() == 0 {
        Seq::empty()
    } else {
        json_escape_char(s[0]) + json_escaped(s.drop_first())
    }
}

/// The JSON string literal whose value is `s`.
pub open spec fn json_string(s: Seq<char>) -> Seq<char> {
    seq!['"'] + json_escaped(s) + seq!['"']
}

/// A whole completion whose `choices[0].message.content` is `s`.
pub open spec fn message_reply_document(s: Seq<char>) -> Seq<char> {
    "{\"choices\":[{\"message\":{\"content\":"@ + json_string(s) + "}}]}"@
}

/// A whole reply of the hosted proxy whose `text` is `s`.
pub open spec fn text_reply_document(s: Seq<char>) -> Seq<char> {
    "{\"text\":"@ + json_string(s) + "}"@
}

/// A refusal whose `error` is `s`.
pub open spec fn error_reply_document(s: Seq<char>) -> Seq<char> {
    "{\"error\":"@ + json_string(s) + "}"@
}

/// A streamed event whose `choices[0].delta.content` is `s`.
pub open spec fn delta_content_document(s: Seq<char>) -> Seq<char> {
    "{\"choices\":[{\"delta\":{\"content\":"@ + json_string(s) + "}}]}"@
}

/// A streamed event whose `choices[0].delta.reasoning_content` is `s`.
pub open spec fn delta_reasoning_document(s: Seq<char>) -> Seq<char> {
    "{\"choices\":[{\"delta\":{\"reasoning_content\":"@ + json_string(s) + "}}]}"@
}

/// A one-line JSON object: it starts with `{`, ends with `}` and holds no line feed.
pub open spec fn is_one_line_object(doc: Seq<char>) -> bool {
    &&& doc.len() > 0
    &&& doc[0] == '{'
    &&& doc.last() == '}'
    &&& forall|i: int| 0 <= i < doc.len() ==> #[trigger] doc[i] != '\n'
}

proof fn lemma_hex_digit(n: int)
    requires
        0 <= n < 16,
    ensures
        hex_digit(n) != '\n',
{
}

proof fn lemma_json_escaped_one_line(s: Seq<char>)
    ensures
        forall|i: int| 0 <= i < json_escaped(s).len() ==> #[trigger] json_escaped(s)[i] != '\n',
    decreases s.len(),
{
    if s.len() > 0 {
        let c = s[0];
        let e = json_escape_char(c);
        lemma_json_escaped_one_line(s.drop_first());
        let rest = json_escaped(s.drop_first());
        if (c as u32) < 0x20 && c != '"' && c != '\\' {
            lemma_hex_digit(((c as u32) / 16) as int);
            lemma_hex_digit(((c as u32) % 16) as int);
        }
        assert forall|i: int| 0 <= i < e.len() implies #[trigger] e[i] != '\n' by {}
        assert forall|i: int| 0 <= i < (e + rest).len() implies #[trigger] (e + rest)[i] != '\n' by {
            if i >= e.len() {
                assert((e + rest)[i] == rest[i - e.len()]);
            }
        }
    }
}

proof fn lemma_document_one_line(head: Seq<char>, c: Seq<char>, tail: Seq<char>)
    requires
        head.len() > 0,
        head[0] == '{',
        tail.len() > 0,
        tail.last() == '}',
        forall|i: int| 0 <= i < head.len() ==> #[trigger] head[i] != '\n',
        forall|i: int| 0 <= i < tail.len() ==> #[trigger] tail[i] != '\n',
    ensures
        is_one_line_object(head + json_string(c) + tail),
{
    lemma_json_escaped_one_line(c);
    let j = json_string(c);
    let e = json_escaped(c);
    assert forall|i: int| 0 <= i < j.len() implies #[trigger] j[i] != '\n' by {
        if 0 < i < j.len() - 1 {
            assert(j[i] == e[i - 1]);
        }
    }
    let d = head + j + tail;
    assert(d[0] == head[0]);
    assert(d.last() == tail.last());
    assert forall|i: int| 0 <= i < d.len() implies #[trigger] d[i] != '\n' by {
        if i < head.len() {
            assert(d[i] == head[i]);
        } else if i < head.len() + j.len() {
            assert(d[i] == j[i - head.len()]);
        } else {
            assert(d[i] == tail[i - head.len() - j.len()]);
        }
    }
}

/// Streamed text and reasoning events are one-line JSON objects.
pub proof fn lemma_delta_documents_one_line(c: Seq<char>)
    ensures
        is_one_line_object(delta_content_document(c)),
        is_one_line_object(delta_reasoning_document(c)),
{
    reveal_strlit("{\"choices\":[{\"delta\":{\"content\":");
    reveal_strlit("{\"choices\":[{\"delta\":{\"reasoning_content\":");
    reveal_strlit("}}]}");
    lemma_document_one_line("{\"choices\":[{\"delta\":{\"content\":"@, c, "}}]}"@);
    lemma_document_one_line("{\"choices\":[{\"delta\":{\"reasoning_content\":"@, c, "}}]}"@);
}

/// Parses `text` with `serde_json::from_str::<serde_json::Value>` and reads, with
/// `Value`'s indexing and `Value::as_str`, the strings at the places of `ReplyStrings`.
/// Trusted: the result is `json_reply_strings(text)`, a name for what `serde_json` gives.
/// Of the parse itself only this is claimed: a document of one of the five shapes above (a
/// JSON object whose one member path ends in a string literal, escaped as `json_string`
/// writes it; serde_json's `parse_escape` reads `\"`, `\\` and `\uXXXX` back) gives that
/// string, whole, at its place and nothing at the other four.
#[verifier::external_body]
pub(crate) fn read_reply_strings(
    text: &str,
) -> (r: Option<(Option<String>, Option<String>, Option<String>, Option<String>, Option<String>)>)
    ensures
        r.deep_view() == json_reply_strings(text@),
        forall|c: Seq<char>|
            #[trigger] message_reply_document(c) == text@ ==> r.deep_view() == Some(
                (None::<Seq<char>>, Some(c), None::<Seq<char>>, None::<Seq<char>>, None::<Seq<char>>),
            ),
        forall|c: Seq<char>|
            #[trigger] text_reply_document(c) == text@ ==> r.deep_view() == Some(
                (Some(c), None::<Seq<char>>, None::<Seq<char>>, None::<Seq<char>>, None::<Seq<char>>),
            ),
        forall|c: Seq<char>|
            #[trigger] error_reply_document(c) == text@ ==> r.deep_view() == Some(
                (None::<Seq<char>>, None::<Seq<char>>, None::<Seq<char>>, None::<Seq<char>>, Some(c)),
            ),
        forall|c: Seq<char>|
            #[trigger] delta_content_document(c) == text@ ==> r.deep_view() == Some(
                (None::<Seq<char>>, None::<Seq<char>>, Some(c), None::<Seq<char>>, None::<Seq<char>>),
            ),
        forall|c: Seq<char>|
            #[trigger] delta_reasoning_document(c) == text@ ==> r.deep_view() == Some(
                (None::<Seq<char>>, None::<Seq<char>>, None::<Seq<char>>, Some(c), None::<Seq<char>>),
            ),
{
    match serde_json::from_str::<serde_json::Value>(text) {
        Ok(v) => Some((
            v["text"].as_str().map(String::from),
            v["choices"][0]["message"]["content"].as_str().map(String::from),
            v["choices"][0]["delta"]["content"].as_str().map(String::from),
            v["choices"][0]["delta"]["reasoning_content"].as_str().map(String::from),
            v["error"].as_str().map(String::from),
        )),
        Err(_) => None,
    }
}

} // verus!
