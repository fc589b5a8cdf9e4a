use opentypeless_llm::provider::Provider;
use opentypeless_llm::stream::StreamDecoder;

fn delta(content: &str) -> String {
    format!("data: {{\"choices\":[{{\"delta\":{{\"content\":\"{}\"}}}}]}}\n", content)
}

fn reasoning(text: &str) -> String {
    format!("data: {{\"choices\":[{{\"delta\":{{\"reasoning_content\":\"{}\"}}}}]}}\n", text)
}

#[test]
fn deltas_are_handed_on_in_order() {
    let mut d = StreamDecoder::new(Provider::Cloud);
    let chunk = format!("{}{}", delta("Hel"), delta("lo"));
    assert_eq!(d.feed(chunk.as_bytes()), vec!["Hel".to_string(), "lo".to_string()]);
    assert_eq!(d.finish(), ("Hello".to_string(), None));
}

#[test]
fn a_line_split_across_chunks_is_read_once_complete() {
    let mut d = StreamDecoder::new(Provider::OpenAi);
    let line = delta("你好");
    let bytes = line.as_bytes();
    let (a, b) = bytes.split_at(10);
    assert!(d.feed(a).is_empty());
    assert_eq!(d.feed(b), vec!["你好".to_string()]);
    assert_eq!(d.finish().0, "你好");
}

#[test]
fn other_lines_and_empty_deltas_are_skipped() {
    let mut d = StreamDecoder::new(Provider::OpenAi);
    let chunk = format!(
        ": comment\nevent: x\ndata: not json\n{}  {}\n",
        delta(""),
        delta("ok").trim_end()
    );
    assert_eq!(d.feed(chunk.as_bytes()), vec!["ok".to_string()]);
}

#[test]
fn done_stops_reading_the_chunk() {
    let mut d = StreamDecoder::new(Provider::Cloud);
    let chunk = format!("{}data: [DONE]\n{}", delta("a"), delta("b"));
    assert_eq!(d.feed(chunk.as_bytes()), vec!["a".to_string()]);
    // what followed the [DONE] line stays buffered and is read with the next chunk
    assert_eq!(d.feed(delta("c").as_bytes()), vec!["b".to_string(), "c".to_string()]);
    assert_eq!(d.finish().0, "abc");
}

#[test]
fn reasoning_stands_in_when_no_text_came() {
    let mut d = StreamDecoder::new(Provider::OpenAi);
    let chunk = format!("{}{}", reasoning("think"), reasoning("ing"));
    assert!(d.feed(chunk.as_bytes()).is_empty());
    assert_eq!(d.finish(), ("thinking".to_string(), Some("thinking".to_string())));
}

#[test]
fn reasoning_is_ignored_when_text_came() {
    let mut d = StreamDecoder::new(Provider::OpenAi);
    let chunk = format!("{}{}", reasoning("think"), delta("answer"));
    assert_eq!(d.feed(chunk.as_bytes()), vec!["answer".to_string()]);
    assert_eq!(d.finish(), ("answer".to_string(), None));
}

#[test]
fn the_proxy_never_falls_back_to_reasoning() {
    let mut d = StreamDecoder::new(Provider::Cloud);
    assert!(d.feed(reasoning("hidden").as_bytes()).is_empty());
    assert_eq!(d.finish(), (String::new(), None));
}

#[test]
fn a_char_split_across_chunks_is_replaced() {
    let mut d = StreamDecoder::new(Provider::Cloud);
    let line = delta("中");
    let bytes = line.as_bytes();
    let at = line.find('中').unwrap() + 1;
    let (a, b) = bytes.split_at(at);
    d.feed(a);
    let pieces = d.feed(b);
    assert_eq!(pieces.len(), 1);
    assert!(pieces[0].contains('\u{FFFD}'));
}

#[test]
fn handed_on_pieces_spell_the_polished_text() {
    let mut d = StreamDecoder::new(Provider::OpenAi);
    let mut handed = String::new();
    for chunk in [delta("one "), delta("two"), "data: [DONE]\n".to_string()] {
        for p in d.feed(chunk.as_bytes()) {
            assert!(!p.is_empty());
            handed.push_str(&p);
        }
    }
    let (text, extra) = d.finish();
    if let Some(e) = extra {
        handed.push_str(&e);
    }
    assert_eq!(handed, text);
    assert_eq!(text, "one two");
}
