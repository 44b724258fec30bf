use pocketdevos::sse::{stream_chunks, SseDecoder, SseEvent};

fn datas(v: &[SseEvent]) -> Vec<Option<String>> {
    v.iter()
        .map(|e| match e {
            SseEvent::Data(d) => Some(d.clone()),
            SseEvent::Done => None,
        })
        .collect()
}

#[test]
fn complete_lines_become_events() {
    let mut d = SseDecoder::new();
    let (ev, done) = d.feed_text("data: a\n\ndata: b\n: comment\nevent: x\n");
    assert_eq!(datas(&ev), vec![Some("a".to_string()), Some("b".to_string())]);
    assert!(!done);
}

#[test]
fn partial_line_waits_for_the_rest() {
    let mut d = SseDecoder::new();
    let (ev, done) = d.feed_text("data: hel");
    assert!(ev.is_empty() && !done);
    let (ev, done) = d.feed_text("lo\r\n");
    assert_eq!(datas(&ev), vec![Some("hello".to_string())]);
    assert!(!done);
}

#[test]
fn done_marker_ends_the_stream() {
    let mut d = SseDecoder::new();
    let (ev, done) = d.feed_text("data: x\ndata: [DONE]\ndata: y\n");
    assert_eq!(datas(&ev), vec![Some("x".to_string()), None]);
    assert!(done);
}

#[test]
fn leading_whitespace_is_trimmed() {
    let mut d = SseDecoder::new();
    let (ev, _) = d.feed_text("   data: z  \n");
    assert_eq!(datas(&ev), vec![Some("z".to_string())]);
    let (ev, _) = d.feed_text("data:nospace\n");
    assert!(ev.is_empty());
}

#[test]
fn feeding_in_pieces_matches_feeding_at_once() {
    let text = "data: one\ndata: two\n\ndata: thr";
    let mut whole = SseDecoder::new();
    let (all, _) = whole.feed_text(text);
    for cut in 0..text.len() {
        if !text.is_char_boundary(cut) {
            continue;
        }
        let mut d = SseDecoder::new();
        let (mut a, _) = d.feed_text(&text[..cut]);
        let (b, _) = d.feed_text(&text[cut..]);
        a.extend(b);
        assert_eq!(datas(&a), datas(&all), "cut at {}", cut);
    }
    let (rest, _) = whole.feed_text("ee\n");
    assert_eq!(datas(&rest), vec![Some("three".to_string())]);
}

#[test]
fn bytes_are_decoded_lossily() {
    let mut d = SseDecoder::new();
    let (ev, _) = d.feed(b"data: \xffok\n");
    assert_eq!(datas(&ev), vec![Some("\u{fffd}ok".to_string())]);
}

#[test]
fn chunks_from_model_events() {
    let events = vec![
        SseEvent::Data(r#"{"choices":[{"delta":{"content":"Hel"}}]}"#.to_string()),
        SseEvent::Data(r#"{"choices":[{"delta":{"role":"assistant"}}]}"#.to_string()),
        SseEvent::Data(r#"{"choices":[{"delta":{"content":""}}]}"#.to_string()),
        SseEvent::Data("not json".to_string()),
        SseEvent::Data(r#"{"choices":[{"delta":{"content":"lo"}}]}"#.to_string()),
        SseEvent::Done,
    ];
    assert_eq!(stream_chunks(events), vec!["Hel".to_string(), "lo".to_string(), String::new()]);
    assert!(stream_chunks(vec![]).is_empty());
}
