//! Decoding of a streamed (server-sent events) reply: the chunks are split into lines, the
//! `data: ` lines are read as JSON deltas, and the text deltas are handed on as they come.

use vstd::prelude::*;
use vstd::utf8::{decode_utf8, valid_utf8};
use crate::json::{
    delta_content_document, delta_reasoning_document, is_one_line_object, json_reply_strings,
    lemma_delta_documents_one_line, read_reply_strings,
};
use crate::provider::Provider;
use crate::text::{
    equals_at, find_char_in, find_newline, has_prefix, lemma_find_char, lemma_find_char_bounds,
    starts_with_at, str_chars, string_from_chars, trim, trim_bounds,
};

verus! {

pub const SSE_DATA_PREFIX: &'static str = "data: ";
pub const SSE_DONE: &'static str = "[DONE]";

/// What `String::from_utf8_lossy` gives for `bytes`.
pub uninterp spec fn utf8_lossy(bytes: Seq<u8>) -> Seq<char>;

/// `String::from_utf8_lossy(bytes)`, owned. Trusted: the result is `utf8_lossy(bytes)`, and,
/// as the documentation says (only invalid sequences are replaced), the decoded text
/// when `bytes` are valid UTF-8.
#[verifier::external_body]
fn decode_utf8_lossy(bytes: &[u8]) -> (s: String)
    ensures
        s@ == utf8_lossy(bytes@),
        valid_utf8(bytes@) ==> s@ == decode_utf8(bytes@),
{
    String::from_utf8_lossy(bytes).into_owned()
}

/// The payload of an event-stream line: what follows `data: ` once the line is trimmed.
pub open spec fn data_payload(line: Seq<char>) -> Option<Seq<char>> {
    let t = trim(line);
    if has_prefix(t, SSE_DATA_PREFIX@) {
        Some(t.subrange(SSE_DATA_PREFIX@.len() as int, t.len() as int))
    } else {
        None
    }
}

/// Reads the complete lines of `buffer`: what stays buffered, and the payloads of the data
/// lines, in order. A `[DONE]` payload ends the reading, whatever follows it staying
/// buffered.
pub open spec fn drain_lines(buffer: Seq<char>) -> (Seq<char>, Seq<Seq<char>>)
    decreases buffer.len(),
{
    proof {
        lemma_find_char_bounds(buffer, '\n');
    }
    match find_newline(buffer) {
        None => (buffer, Seq::empty()),
        Some(i) => {
            let rest = buffer.subrange(i + 1, buffer.len() as int);
            match data_payload(buffer.subrange(0, i)) {
                Some(d) => if d == SSE_DONE@ {
                    (rest, Seq::empty())
                } else {
                    let r = drain_lines(rest);
                    (r.0, seq![d] + r.1)
                },
                None => drain_lines(rest),
            }
        },
    }
}

/// One event line that carries `payload`.
pub open spec fn data_event(payload: Seq<char>) -> Seq<char> {
    SSE_DATA_PREFIX@ + payload + seq!['\n']
}

/// One event line per payload, in order.
pub open spec fn data_events(payloads: Seq<Seq<char>>) -> Seq<char>
    decreases payloads.len(),
{
    if payloads.len() == 0 {
        Seq::empty()
    } else {
        data_event(payloads[0]) + data_events(payloads.drop_first())
    }
}

/// The events of a stream that carries the text deltas `pieces`.
pub open spec fn content_events(pieces: Seq<Seq<char>>) -> Seq<char> {
    data_events(pieces.map_values(|c: Seq<char>| delta_content_document(c)))
}

/// The events of a stream that carries the reasoning deltas `pieces`.
pub open spec fn reasoning_events(pieces: Seq<Seq<char>>) -> Seq<char> {
    data_events(pieces.map_values(|c: Seq<char>| delta_reasoning_document(c)))
}

/// The pieces that hold some text, in order.
pub open spec fn non_empty_pieces(pieces: Seq<Seq<char>>) -> Seq<Seq<char>>
    decreases pieces.len(),
{
    if pieces.len() == 0 {
        Seq::empty()
    } else if pieces.last().len() > 0 {
        non_empty_pieces(pieces.drop_last()).push(pieces.last())
    } else {
        non_empty_pieces(pieces.drop_last())
    }
}

proof fn lemma_drain_event(payload: Seq<char>, rest: Seq<char>)
    requires
        is_one_line_object(payload),
    ensures
        drain_lines(data_event(payload) + rest) == (
            drain_lines(rest).0,
            seq![payload] + drain_lines(rest).1,
        ),
{
    reveal_strlit("data: ");
    reveal_strlit("[DONE]");
    let line = SSE_DATA_PREFIX@ + payload;
    let buffer = data_event(payload) + rest;
    let k = line.len() as int;
    assert forall|j: int| 0 <= j < k implies buffer[j] != '\n' by {
        if j >= 6 {
            assert(buffer[j] == payload[j - 6]);
        }
    }
    lemma_find_char(buffer, '\n', k);
    assert(buffer.subrange(0, k) =~= line);
    assert(buffer.subrange(k + 1, buffer.len() as int) =~= rest);
    assert(trim(line) == line);
    assert(line.subrange(0, 6) =~= SSE_DATA_PREFIX@);
    assert(line.subrange(6, line.len() as int) =~= payload);
    assert(payload != SSE_DONE@) by {
        assert(payload[0] != SSE_DONE@[0]);
    }
}

proof fn lemma_drain_events(payloads: Seq<Seq<char>>, rest: Seq<char>)
    requires
        forall|i: int| 0 <= i < payloads.len() ==> is_one_line_object(#[trigger] payloads[i]),
    ensures
        drain_lines(data_events(payloads) + rest) == (
            drain_lines(rest).0,
            payloads + drain_lines(rest).1,
        ),
    decreases payloads.len(),
{
    if payloads.len() == 0 {
        assert(data_events(payloads) + rest =~= rest);
        assert(payloads + drain_lines(rest).1 =~= drain_lines(rest).1);
    } else {
        let tail = payloads.drop_first();
        assert forall|i: int| 0 <= i < tail.len() implies is_one_line_object(#[trigger] tail[i]) by {
            assert(tail[i] == payloads[i + 1]);
        }
        lemma_drain_events(tail, rest);
        assert(is_one_line_object(payloads[0]));
        lemma_drain_event(payloads[0], data_events(tail) + rest);
        assert(data_events(payloads) + rest =~= data_event(payloads[0]) + (data_events(tail)
            + rest));
        assert(seq![payloads[0]] + (tail + drain_lines(rest).1) =~= payloads + drain_lines(
            rest,
        ).1);
    }
}

proof fn lemma_non_empty_pieces_flatten(pieces: Seq<Seq<char>>)
    ensures
        non_empty_pieces(pieces).flatten() == pieces.flatten(),
    decreases pieces.len(),
{
    if pieces.len() > 0 {
        let init = pieces.drop_last();
        lemma_non_empty_pieces_flatten(init);
        assert(pieces =~= init.push(pieces.last()));
        lemma_flatten_push(init, pieces.last());
        if pieces.last().len() > 0 {
            lemma_flatten_push(non_empty_pieces(init), pieces.last());
        } else {
            assert(init.flatten() + pieces.last() =~= init.flatten());
        }
    } else {
        assert(non_empty_pieces(pieces) =~= Seq::<Seq<char>>::empty());
    }
}

/// What the text events of `cs` give when each is read as JSON with its own text.
proof fn lemma_content_events_pieces(cs: Seq<Seq<char>>)
    requires
        forall|i: int|
            0 <= i < cs.len() ==> json_reply_strings(#[trigger] delta_content_document(cs[i]))
                == Some(
                (None::<Seq<char>>, None::<Seq<char>>, Some(cs[i]), None::<Seq<char>>, None::<Seq<char>>),
            ),
    ensures
        content_pieces(cs.map_values(|c: Seq<char>| delta_content_document(c)))
            == non_empty_pieces(cs),
        reasoning_pieces(cs.map_values(|c: Seq<char>| delta_content_document(c))) == Seq::<
            Seq<char>,
        >::empty(),
    decreases cs.len(),
{
    let docs = cs.map_values(|c: Seq<char>| delta_content_document(c));
    if cs.len() > 0 {
        let init = cs.drop_last();
        assert forall|i: int| 0 <= i < init.len() implies json_reply_strings(
            #[trigger] delta_content_document(init[i]),
        ) == Some(
            (None::<Seq<char>>, None::<Seq<char>>, Some(init[i]), None::<Seq<char>>, None::<Seq<char>>),
        ) by {
            assert(init[i] == cs[i]);
        }
        lemma_content_events_pieces(init);
        assert(docs.drop_last() =~= init.map_values(|c: Seq<char>| delta_content_document(c)));
        assert(docs.last() == delta_content_document(cs[cs.len() - 1]));
    } else {
        assert(docs =~= Seq::<Seq<char>>::empty());
    }
}

/// What the reasoning events of `cs` give when each is read as JSON with its own text.
proof fn lemma_reasoning_events_pieces(cs: Seq<Seq<char>>)
    requires
        forall|i: int|
            0 <= i < cs.len() ==> json_reply_strings(#[trigger] delta_reasoning_document(cs[i]))
                == Some(
                (None::<Seq<char>>, None::<Seq<char>>, None::<Seq<char>>, Some(cs[i]), None::<Seq<char>>),
            ),
    ensures
        content_pieces(cs.map_values(|c: Seq<char>| delta_reasoning_document(c))) == Seq::<
            Seq<char>,
        >::empty(),
        reasoning_pieces(cs.map_values(|c: Seq<char>| delta_reasoning_document(c)))
            == non_empty_pieces(cs),
    decreases cs.len(),
{
    let docs = cs.map_values(|c: Seq<char>| delta_reasoning_document(c));
    if cs.len() > 0 {
        let init = cs.drop_last();
        assert forall|i: int| 0 <= i < init.len() implies json_reply_strings(
            #[trigger] delta_reasoning_document(init[i]),
        ) == Some(
            (None::<Seq<char>>, None::<Seq<char>>, None::<Seq<char>>, Some(init[i]), None::<Seq<char>>),
        ) by {
            assert(init[i] == cs[i]);
        }
        lemma_reasoning_events_pieces(init);
        assert(docs.drop_last() =~= init.map_values(|c: Seq<char>| delta_reasoning_document(c)));
        assert(docs.last() == delta_reasoning_document(cs[cs.len() - 1]));
    } else {
        assert(docs =~= Seq::<Seq<char>>::empty());
    }
}

/// Reading the events of `docs` from an empty buffer yields exactly `docs` as payloads.
proof fn lemma_drain_documents(docs: Seq<Seq<char>>)
    requires
        forall|i: int| 0 <= i < docs.len() ==> is_one_line_object(#[trigger] docs[i]),
    ensures
        drain_lines(data_events(docs)) == (Seq::<char>::empty(), docs),
{
    lemma_drain_events(docs, Seq::empty());
    assert(data_events(docs) + Seq::<char>::empty() =~= data_events(docs));
    assert(drain_lines(Seq::<char>::empty()) == (Seq::<char>::empty(), Seq::<Seq<char>>::empty()));
    assert(docs + Seq::<Seq<char>>::empty() =~= docs);
}

/// The text delta (`choices[0].delta.content`) of a data payload.
pub open spec fn delta_content(payload: Seq<char>) -> Option<Seq<char>> {
    match json_reply_strings(payload) {
        Some(fields) => fields.2,
        None => None,
    }
}

/// The reasoning delta (`choices[0].delta.reasoning_content`) of a data payload.
pub open spec fn delta_reasoning(payload: Seq<char>) -> Option<Seq<char>> {
    match json_reply_strings(payload) {
        Some(fields) => fields.3,
        None => None,
    }
}

/// The non-empty text deltas of the payloads, in order.
pub open spec fn content_pieces(payloads: Seq<Seq<char>>) -> Seq<Seq<char>>
    decreases payloads.len(),
{
    if payloads.len() == 0 {
        Seq::empty()
    } else {
        let earlier = content_pieces(payloads.drop_last());
        match delta_content(payloads.last()) {
            Some(c) => if c.len() > 0 {
                earlier.push(c)
            } else {
                earlier
            },
            None => earlier,
        }
    }
}

/// The non-empty reasoning deltas of the payloads, in order.
pub open spec fn reasoning_pieces(payloads: Seq<Seq<char>>) -> Seq<Seq<char>>
    decreases payloads.len(),
{
    if payloads.len() == 0 {
        Seq::empty()
    } else {
        let earlier = reasoning_pieces(payloads.drop_last());
        match delta_reasoning(payloads.last()) {
            Some(r) => if r.len() > 0 {
                earlier.push(r)
            } else {
                earlier
            },
            None => earlier,
        }
    }
}

/// The state of a stream decoder: the incomplete input, the text streamed so far, the
/// reasoning collected so far, and whether reasoning is collected.
pub struct DecoderState {
    pub buffer: Seq<char>,
    pub text: Seq<char>,
    pub reasoning: Seq<char>,
    pub keep_reasoning: bool,
}

/// A decoder that has read nothing.
pub open spec fn initial_state(keep_reasoning: bool) -> DecoderState {
    DecoderState {
        buffer: Seq::empty(),
        text: Seq::empty(),
        reasoning: Seq::empty(),
        keep_reasoning,
    }
}

/// Reading one chunk: the state after it, and the text pieces to hand on.
pub open spec fn feed_step(s: DecoderState, chunk: Seq<u8>) -> (DecoderState, Seq<Seq<char>>) {
    let drained = drain_lines(s.buffer + utf8_lossy(chunk));
    let pieces = content_pieces(drained.1);
    (
        DecoderState {
            buffer: drained.0,
            text: s.text + pieces.flatten(),
            reasoning: if s.keep_reasoning {
                s.reasoning + reasoning_pieces(drained.1).flatten()
            } else {
                s.reasoning
            },
            keep_reasoning: s.keep_reasoning,
        },
        pieces,
    )
}

/// The end of the stream: the polished text, and the piece still to hand on. When no text
/// was streamed but reasoning was collected, the reasoning is the text and is handed on.
pub open spec fn finish_step(s: DecoderState) -> (Seq<char>, Option<Seq<char>>) {
    if s.text.len() == 0 && s.reasoning.len() > 0 {
        (s.reasoning, Some(s.reasoning))
    } else {
        (s.text, None)
    }
}

/// Flattening after a push appends the pushed sequence.
proof fn lemma_flatten_push(ps: Seq<Seq<char>>, c: Seq<char>)
    ensures
        ps.push(c).flatten() == ps.flatten() + c,
{
    vstd::seq_lib::lemma_flatten_concat(ps, seq![c]);
    assert(ps.push(c) =~= ps + seq![c]);
    let one = seq![c];
    assert(one.drop_first() =~= Seq::<Seq<char>>::empty());
    assert(one.drop_first().flatten() =~= Seq::<char>::empty());
    assert(one.flatten() == one.first() + one.drop_first().flatten());
    assert(one.flatten() =~= c);
}

/// Reading the chunks one after another from `s`: the state after the last one, and all the
/// pieces handed on, in order.
pub open spec fn feed_all(s: DecoderState, chunks: Seq<Seq<u8>>) -> (DecoderState, Seq<Seq<char>>)
    decreases chunks.len(),
{
    if chunks.len() == 0 {
        (s, Seq::empty())
    } else {
        let first = feed_step(s, chunks[0]);
        let rest = feed_all(first.0, chunks.drop_first());
        (rest.0, first.1 + rest.1)
    }
}

/// All that a whole stream of `chunks` hands on, the piece handed on at its end included.
pub open spec fn handed_on(keep_reasoning: bool, chunks: Seq<Seq<u8>>) -> Seq<Seq<char>> {
    let fed = feed_all(initial_state(keep_reasoning), chunks);
    match finish_step(fed.0).1 {
        Some(extra) => fed.1.push(extra),
        None => fed.1,
    }
}

/// The text a stream ends with.
pub open spec fn polished_text(keep_reasoning: bool, chunks: Seq<Seq<u8>>) -> Seq<char> {
    finish_step(feed_all(initial_state(keep_reasoning), chunks).0).0
}

proof fn lemma_content_pieces_non_empty(payloads: Seq<Seq<char>>)
    ensures
        forall|i: int|
            0 <= i < content_pieces(payloads).len() ==> #[trigger] content_pieces(payloads)[i].len() > 0,
    decreases payloads.len(),
{
    if payloads.len() > 0 {
        let earlier = content_pieces(payloads.drop_last());
        lemma_content_pieces_non_empty(payloads.drop_last());
        if let Some(c) = delta_content(payloads.last()) {
            if c.len() > 0 {
                assert forall|i: int| 0 <= i < earlier.push(c).len() implies #[trigger] earlier.push(
                    c,
                )[i].len() > 0 by {
                    if i < earlier.len() {
                        assert(earlier.push(c)[i] == earlier[i]);
                    }
                }
            }
        }
    }
}

proof fn lemma_feed_all(s: DecoderState, chunks: Seq<Seq<u8>>)
    ensures
        feed_all(s, chunks).0.text == s.text + feed_all(s, chunks).1.flatten(),
        feed_all(s, chunks).0.keep_reasoning == s.keep_reasoning,
        !s.keep_reasoning ==> feed_all(s, chunks).0.reasoning == s.reasoning,
        forall|i: int|
            0 <= i < feed_all(s, chunks).1.len() ==> #[trigger] feed_all(s, chunks).1[i].len() > 0,
    decreases chunks.len(),
{
    if chunks.len() > 0 {
        let first = feed_step(s, chunks[0]);
        let drained = drain_lines(s.buffer + utf8_lossy(chunks[0]));
        lemma_content_pieces_non_empty(drained.1);
        lemma_feed_all(first.0, chunks.drop_first());
        let rest = feed_all(first.0, chunks.drop_first());
        vstd::seq_lib::lemma_flatten_concat(first.1, rest.1);
        assert(first.0.text == s.text + first.1.flatten());
        assert(s.text + (first.1 + rest.1).flatten() =~= s.text + first.1.flatten()
            + rest.1.flatten());
        assert forall|i: int| 0 <= i < (first.1 + rest.1).len() implies #[trigger] (first.1
            + rest.1)[i].len() > 0 by {
            if i >= first.1.len() {
                assert((first.1 + rest.1)[i] == rest.1[i - first.1.len()]);
            }
        }
    } else {
        assert(s.text + Seq::<Seq<char>>::empty().flatten() =~= s.text);
    }
}

/// The data payloads a decoder reads from `chunks`, in order, starting with `buffer` held
/// back: each chunk is decoded, appended to what was held back, and its complete lines read.
pub open spec fn stream_payloads(buffer: Seq<char>, chunks: Seq<Seq<u8>>) -> Seq<Seq<char>>
    decreases chunks.len(),
{
    if chunks.len() == 0 {
        Seq::empty()
    } else {
        let drained = drain_lines(buffer + utf8_lossy(chunks[0]));
        drained.1 + stream_payloads(drained.0, chunks.drop_first())
    }
}

proof fn lemma_content_pieces_concat(a: Seq<Seq<char>>, b: Seq<Seq<char>>)
    ensures
        content_pieces(a + b) == content_pieces(a) + content_pieces(b),
    decreases b.len(),
{
    if b.len() == 0 {
        assert(a + b =~= a);
        assert(content_pieces(a) + content_pieces(b) =~= content_pieces(a));
    } else {
        lemma_content_pieces_concat(a, b.drop_last());
        assert((a + b).drop_last() =~= a + b.drop_last());
        assert((a + b).last() == b.last());
        let x = content_pieces(a);
        let y = content_pieces(b.drop_last());
        match delta_content(b.last()) {
            Some(c) => if c.len() > 0 {
                assert((x + y).push(c) =~= x + y.push(c));
            },
            None => {},
        }
    }
}

proof fn lemma_reasoning_pieces_concat(a: Seq<Seq<char>>, b: Seq<Seq<char>>)
    ensures
        reasoning_pieces(a + b) == reasoning_pieces(a) + reasoning_pieces(b),
    decreases b.len(),
{
    if b.len() == 0 {
        assert(a + b =~= a);
        assert(reasoning_pieces(a) + reasoning_pieces(b) =~= reasoning_pieces(a));
    } else {
        lemma_reasoning_pieces_concat(a, b.drop_last());
        assert((a + b).drop_last() =~= a + b.drop_last());
        assert((a + b).last() == b.last());
        let x = reasoning_pieces(a);
        let y = reasoning_pieces(b.drop_last());
        match delta_reasoning(b.last()) {
            Some(r) => if r.len() > 0 {
                assert((x + y).push(r) =~= x + y.push(r));
            },
            None => {},
        }
    }
}

/// Over any run of chunks, a decoder hands on exactly the non-empty text deltas of every
/// data payload it reads, in order; its text grows by all of them; and, when it collects
/// reasoning, its reasoning grows by every non-empty reasoning delta of every payload of
/// every chunk: nothing collected earlier is lost.
pub proof fn law_stream_collects_every_delta(s: DecoderState, chunks: Seq<Seq<u8>>)
    ensures
        feed_all(s, chunks).1 == content_pieces(stream_payloads(s.buffer, chunks)),
        feed_all(s, chunks).0.text == s.text + content_pieces(
            stream_payloads(s.buffer, chunks),
        ).flatten(),
        s.keep_reasoning ==> feed_all(s, chunks).0.reasoning == s.reasoning + reasoning_pieces(
            stream_payloads(s.buffer, chunks),
        ).flatten(),
    decreases chunks.len(),
{
    if chunks.len() == 0 {
        assert(content_pieces(Seq::<Seq<char>>::empty()) =~= Seq::<Seq<char>>::empty());
        assert(reasoning_pieces(Seq::<Seq<char>>::empty()) =~= Seq::<Seq<char>>::empty());
        assert(s.text + Seq::<Seq<char>>::empty().flatten() =~= s.text);
        assert(s.reasoning + Seq::<Seq<char>>::empty().flatten() =~= s.reasoning);
    } else {
        let drained = drain_lines(s.buffer + utf8_lossy(chunks[0]));
        let first = feed_step(s, chunks[0]);
        let rest_chunks = chunks.drop_first();
        law_stream_collects_every_delta(first.0, rest_chunks);
        let later = stream_payloads(drained.0, rest_chunks);
        lemma_content_pieces_concat(drained.1, later);
        lemma_reasoning_pieces_concat(drained.1, later);
        let c1 = content_pieces(drained.1);
        let c2 = content_pieces(later);
        vstd::seq_lib::lemma_flatten_concat(c1, c2);
        assert(s.text + c1.flatten() + c2.flatten() =~= s.text + (c1 + c2).flatten());
        if s.keep_reasoning {
            let r1 = reasoning_pieces(drained.1);
            let r2 = reasoning_pieces(later);
            vstd::seq_lib::lemma_flatten_concat(r1, r2);
            assert(s.reasoning + r1.flatten() + r2.flatten() =~= s.reasoning + (r1
                + r2).flatten());
        }
    }
}

/// A stream that collects reasoning (an OpenAI-compatible one) and carries no text delta at
/// all ends with every reasoning delta of the whole stream, in order, as its text.
pub proof fn law_reasoning_stands_in_for_missing_text(chunks: Seq<Seq<u8>>)
    requires
        content_pieces(stream_payloads(Seq::empty(), chunks)).len() == 0,
    ensures
        polished_text(true, chunks) == reasoning_pieces(
            stream_payloads(Seq::empty(), chunks),
        ).flatten(),
{
    let s0 = initial_state(true);
    law_stream_collects_every_delta(s0, chunks);
    let ps = stream_payloads(Seq::empty(), chunks);
    assert(content_pieces(ps) =~= Seq::<Seq<char>>::empty());
    assert(Seq::<Seq<char>>::empty().flatten() =~= Seq::<char>::empty());
    assert(Seq::<char>::empty() + reasoning_pieces(ps).flatten() =~= reasoning_pieces(ps).flatten());
}

/// What a stream hands on, piece by piece, spells the text it ends with: the text delivered
/// as it streams is the polished text.
pub proof fn law_handed_on_pieces_spell_the_polished_text(
    keep_reasoning: bool,
    chunks: Seq<Seq<u8>>,
)
    ensures
        handed_on(keep_reasoning, chunks).flatten() == polished_text(keep_reasoning, chunks),
{
    let s0 = initial_state(keep_reasoning);
    lemma_feed_all(s0, chunks);
    let fed = feed_all(s0, chunks);
    assert(fed.0.text =~= fed.1.flatten());
    match finish_step(fed.0).1 {
        Some(extra) => {
            lemma_flatten_push(fed.1, extra);
            assert(fed.1.flatten().len() == 0);
            assert(fed.1.flatten() + extra =~= extra);
        },
        None => {},
    }
}

/// Every piece a stream hands on holds some text.
pub proof fn law_handed_on_pieces_are_not_empty(keep_reasoning: bool, chunks: Seq<Seq<u8>>)
    ensures
        forall|i: int|
            0 <= i < handed_on(keep_reasoning, chunks).len() ==> #[trigger] handed_on(
                keep_reasoning,
                chunks,
            )[i].len() > 0,
{
    let s0 = initial_state(keep_reasoning);
    lemma_feed_all(s0, chunks);
}

/// A stream that does not collect reasoning (the hosted proxy's) ends with exactly the text
/// it streamed, and hands nothing on at its end.
pub proof fn law_without_reasoning_the_streamed_text_is_final(chunks: Seq<Seq<u8>>)
    ensures
        finish_step(feed_all(initial_state(false), chunks).0) == (
            feed_all(initial_state(false), chunks).1.flatten(),
            None::<Seq<char>>,
        ),
{
    lemma_feed_all(initial_state(false), chunks);
    assert(Seq::<char>::empty() + feed_all(initial_state(false), chunks).1.flatten()
        =~= feed_all(initial_state(false), chunks).1.flatten());
}

/// Decodes a streamed reply chunk by chunk.
pub struct StreamDecoder {
    buffer: Vec<char>,
    text: String,
    reasoning: String,
    keep_reasoning: bool,
}

impl View for StreamDecoder {
    type V = DecoderState;

    closed spec fn view(&self) -> DecoderState {
        DecoderState {
            buffer: self.buffer@,
            text: self.text@,
            reasoning: self.reasoning@,
            keep_reasoning: self.keep_reasoning,
        }
    }
}

impl StreamDecoder {
    /// A decoder for a reply of `provider`; an OpenAI-compatible provider's reasoning deltas
    /// are collected, the hosted proxy's are not.
    pub fn new(provider: Provider) -> (d: StreamDecoder)
        ensures
            d@ == initial_state(provider == Provider::OpenAi),
    {
        StreamDecoder {
            buffer: Vec::new(),
            text: String::new(),
            reasoning: String::new(),
            keep_reasoning: provider == Provider::OpenAi,
        }
    }

    /// Reads one chunk of the reply and returns the text pieces, in order, to hand on.
    pub fn feed(&mut self, chunk: &[u8]) -> (pieces: Vec<String>)
        ensures
            final(self)@ == feed_step(old(self)@, chunk@).0,
            pieces@.map_values(|p: String| p@) == feed_step(old(self)@, chunk@).1,
            forall|cs: Seq<Seq<char>>|
                old(self)@.buffer.len() == 0 && valid_utf8(chunk@) && decode_utf8(chunk@)
                    == #[trigger] content_events(cs) ==> {
                    &&& pieces@.map_values(|p: String| p@) == non_empty_pieces(cs)
                    &&& final(self)@.text == old(self)@.text + cs.flatten()
                    &&& final(self)@.reasoning == old(self)@.reasoning
                    &&& final(self)@.buffer.len() == 0
                },
            forall|cs: Seq<Seq<char>>|
                old(self)@.buffer.len() == 0 && valid_utf8(chunk@) && decode_utf8(chunk@)
                    == #[trigger] reasoning_events(cs) ==> {
                    &&& pieces.len() == 0
                    &&& final(self)@.text == old(self)@.text
                    &&& final(self)@.reasoning == (if old(self)@.keep_reasoning {
                        old(self)@.reasoning + cs.flatten()
                    } else {
                        old(self)@.reasoning
                    })
                    &&& final(self)@.buffer.len() == 0
                },
    {
        let decoded = decode_utf8_lossy(chunk);
        let incoming = str_chars(decoded.as_str());
        let mut buf: Vec<char> = Vec::new();
        std::mem::swap(&mut buf, &mut self.buffer);
        let ghost start = buf@;
        let mut i: usize = 0;
        while i < incoming.len()
            invariant
                i <= incoming.len(),
                buf@ == start + incoming@.take(i as int),
            decreases incoming.len() - i,
        {
            buf.push(incoming[i]);
            i = i + 1;
            assert(buf@ =~= start + incoming@.take(i as int));
        }
        assert(incoming@.take(i as int) =~= incoming@);
        let ghost all = buf@;
        let ghost text0 = self.text@;
        let ghost reasoning0 = self.reasoning@;
        let data_prefix = str_chars(SSE_DATA_PREFIX);
        let done = str_chars(SSE_DONE);
        let n = buf.len();
        let mut pos: usize = 0;
        let mut pieces: Vec<String> = Vec::new();
        let ghost mut payloads: Seq<Seq<char>> = Seq::empty();
        assert(all.subrange(0, n as int) =~= all);
        loop
            invariant_except_break
                drain_lines(all) == (
                    drain_lines(all.subrange(pos as int, n as int)).0,
                    payloads + drain_lines(all.subrange(pos as int, n as int)).1,
                ),
            invariant
                pos <= n == buf.len(),
                buf@ == all,
                data_prefix@ == SSE_DATA_PREFIX@,
                done@ == SSE_DONE@,
                self.buffer@ == Seq::<char>::empty(),
                self.keep_reasoning == old(self).keep_reasoning,
                pieces@.map_values(|p: String| p@) == content_pieces(payloads),
                self.text@ == text0 + content_pieces(payloads).flatten(),
                self.reasoning@ == (if self.keep_reasoning {
                    reasoning0 + reasoning_pieces(payloads).flatten()
                } else {
                    reasoning0
                }),
                forall|i: int, c: Seq<char>|
                    #![trigger payloads[i], delta_content_document(c)]
                    0 <= i < payloads.len() && payloads[i] == delta_content_document(c)
                        ==> json_reply_strings(payloads[i]) == Some(
                        (None::<Seq<char>>, None::<Seq<char>>, Some(c), None::<Seq<char>>, None::<Seq<char>>),
                    ),
                forall|i: int, c: Seq<char>|
                    #![trigger payloads[i], delta_reasoning_document(c)]
                    0 <= i < payloads.len() && payloads[i] == delta_reasoning_document(c)
                        ==> json_reply_strings(payloads[i]) == Some(
                        (None::<Seq<char>>, None::<Seq<char>>, None::<Seq<char>>, Some(c), None::<Seq<char>>),
                    ),
            ensures
                drain_lines(all) == (all.subrange(pos as int, n as int), payloads),
                pos <= n == buf.len(),
            decreases n - pos,
        {
            let ghost cur = all.subrange(pos as int, n as int);
            let k = find_char_in(&buf, pos, n, '\n');
            if k == n {
                assert(drain_lines(cur) == (cur, Seq::<Seq<char>>::empty()));
                assert(payloads + Seq::<Seq<char>>::empty() =~= payloads);
                break;
            }
            let ghost line = cur.subrange(0, k - pos);
            let ghost rest = cur.subrange(k - pos + 1, cur.len() as int);
            assert(line =~= all.subrange(pos as int, k as int));
            assert(rest =~= all.subrange(k + 1, n as int));
            let (a, b) = trim_bounds(&buf, pos, k);
            if starts_with_at(&buf, a, b, &data_prefix) {
                let d_lo = a + data_prefix.len();
                let ghost trimmed = all.subrange(a as int, b as int);
                assert(trimmed.subrange(data_prefix@.len() as int, trimmed.len() as int)
                    =~= all.subrange(d_lo as int, b as int));
                let ghost payload = all.subrange(d_lo as int, b as int);
                assert(data_payload(line) == Some(payload));
                if equals_at(&buf, d_lo, b, &done) {
                    assert(drain_lines(cur) == (rest, Seq::<Seq<char>>::empty()));
                    assert(payloads + Seq::<Seq<char>>::empty() =~= payloads);
                    pos = k + 1;
                    break;
                }
                let payload_text = string_from_chars(&buf, d_lo, b);
                let fields = read_reply_strings(payload_text.as_str());
                let ghost read = fields.deep_view();
                let ghost next = payloads.push(payload);
                assert(next.drop_last() =~= payloads);
                match fields {
                    Some(f) => {
                        let (_, _, content, reasoning, _) = f;
                        match content {
                            Some(c) => {
                                if !c.as_str().is_empty() {
                                    proof {
                                        lemma_flatten_push(content_pieces(payloads), c@);
                                    }
                                    self.text.append(c.as_str());
                                    pieces.push(c);
                                    assert(pieces@.map_values(|p: String| p@) =~= content_pieces(
                                        payloads,
                                    ).push(c@));
                                }
                            },
                            None => {},
                        }
                        match reasoning {
                            Some(r) => {
                                if self.keep_reasoning && !r.as_str().is_empty() {
                                    proof {
                                        lemma_flatten_push(reasoning_pieces(payloads), r@);
                                    }
                                    self.reasoning.append(r.as_str());
                                }
                            },
                            None => {},
                        }
                    },
                    None => {},
                }
                proof {
                    let before = payloads;
                    payloads = next;
                    assert forall|i: int, c: Seq<char>|
                        0 <= i < payloads.len() && payloads[i] == delta_content_document(c)
                            implies json_reply_strings(payloads[i]) == Some(
                        (None::<Seq<char>>, None::<Seq<char>>, Some(c), None::<Seq<char>>, None::<Seq<char>>),
                    ) by {
                        if i < before.len() {
                            assert(payloads[i] == before[i]);
                        } else {
                            assert(payloads[i] == payload_text@);
                            assert(read == json_reply_strings(payload_text@));
                        }
                    }
                    assert forall|i: int, c: Seq<char>|
                        0 <= i < payloads.len() && payloads[i] == delta_reasoning_document(c)
                            implies json_reply_strings(payloads[i]) == Some(
                        (None::<Seq<char>>, None::<Seq<char>>, None::<Seq<char>>, Some(c), None::<Seq<char>>),
                    ) by {
                        if i < before.len() {
                            assert(payloads[i] == before[i]);
                        } else {
                            assert(payloads[i] == payload_text@);
                            assert(read == json_reply_strings(payload_text@));
                        }
                    }
                }
                assert(seq![payload] + drain_lines(rest).1 =~= seq![payload] + drain_lines(
                    rest,
                ).1);
                assert(payloads.drop_last() + (seq![payload] + drain_lines(rest).1)
                    =~= payloads + drain_lines(rest).1);
            } else {
                assert(data_payload(line) is None);
            }
            pos = k + 1;
        }
        let mut kept: Vec<char> = Vec::new();
        let mut j = pos;
        while j < n
            invariant
                pos <= j <= n == buf.len(),
                kept@ == buf@.subrange(pos as int, j as int),
            decreases n - j,
        {
            kept.push(buf[j]);
            j = j + 1;
            assert(kept@ =~= buf@.subrange(pos as int, j as int));
        }
        self.buffer = kept;
        proof {
            assert forall|cs: Seq<Seq<char>>|
                old(self)@.buffer.len() == 0 && valid_utf8(chunk@) && decode_utf8(chunk@)
                    == #[trigger] content_events(cs) implies {
                &&& pieces@.map_values(|p: String| p@) == non_empty_pieces(cs)
                &&& self@.text == old(self)@.text + cs.flatten()
                &&& self@.reasoning == old(self)@.reasoning
                &&& self@.buffer.len() == 0
            } by {
                let docs = cs.map_values(|c: Seq<char>| delta_content_document(c));
                assert forall|i: int| 0 <= i < docs.len() implies is_one_line_object(
                    #[trigger] docs[i],
                ) by {
                    lemma_delta_documents_one_line(cs[i]);
                }
                assert(all =~= content_events(cs));
                lemma_drain_documents(docs);
                assert forall|i: int| 0 <= i < cs.len() implies json_reply_strings(
                    #[trigger] delta_content_document(cs[i]),
                ) == Some(
                    (None::<Seq<char>>, None::<Seq<char>>, Some(cs[i]), None::<Seq<char>>, None::<Seq<char>>),
                ) by {
                    assert(payloads[i] == docs[i]);
                }
                lemma_content_events_pieces(cs);
                lemma_non_empty_pieces_flatten(cs);
                assert(reasoning0 + Seq::<Seq<char>>::empty().flatten() =~= reasoning0);
            }
            assert forall|cs: Seq<Seq<char>>|
                old(self)@.buffer.len() == 0 && valid_utf8(chunk@) && decode_utf8(chunk@)
                    == #[trigger] reasoning_events(cs) implies {
                &&& pieces.len() == 0
                &&& self@.text == old(self)@.text
                &&& self@.reasoning == (if old(self)@.keep_reasoning {
                    old(self)@.reasoning + cs.flatten()
                } else {
                    old(self)@.reasoning
                })
                &&& self@.buffer.len() == 0
            } by {
                let docs = cs.map_values(|c: Seq<char>| delta_reasoning_document(c));
                assert forall|i: int| 0 <= i < docs.len() implies is_one_line_object(
                    #[trigger] docs[i],
                ) by {
                    lemma_delta_documents_one_line(cs[i]);
                }
                assert(all =~= reasoning_events(cs));
                lemma_drain_documents(docs);
                assert forall|i: int| 0 <= i < cs.len() implies json_reply_strings(
                    #[trigger] delta_reasoning_document(cs[i]),
                ) == Some(
                    (None::<Seq<char>>, None::<Seq<char>>, None::<Seq<char>>, Some(cs[i]), None::<Seq<char>>),
                ) by {
                    assert(payloads[i] == docs[i]);
                }
                lemma_reasoning_events_pieces(cs);
                lemma_non_empty_pieces_flatten(cs);
                assert(text0 + Seq::<Seq<char>>::empty().flatten() =~= text0);
                assert(pieces@.map_values(|p: String| p@).len() == 0);
            }
        }
        pieces
    }

    /// Ends the stream: the polished text, and the piece still to hand on, if any.
    pub fn finish(self) -> (r: (String, Option<String>))
        ensures
            r.0@ == finish_step(self@).0,
            r.1.deep_view() == finish_step(self@).1,
    {
        if self.text.as_str().is_empty() && !self.reasoning.as_str().is_empty() {
            let reasoning = self.reasoning;
            let handed = reasoning.as_str().to_string();
            (reasoning, Some(handed))
        } else {
            (self.text, None)
        }
    }
}

} // verus!
