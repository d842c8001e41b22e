use deepseek_app_lib::deepseek::ToolCallDelta;
use deepseek_app_lib::sse::SseDecoder;
use deepseek_app_lib::toolcalls::ToolCallAccumulator;

fn frag(index: usize, id: Option<&str>, name: Option<&str>, args: Option<&str>) -> ToolCallDelta {
    ToolCallDelta {
        index,
        id: id.map(String::from),
        name: name.map(String::from),
        arguments: args.map(String::from),
    }
}

#[test]
fn payloads_come_out_as_blocks_complete() {
    let mut d = SseDecoder::new();
    d.push_text("data: {\"a\":1}\n");
    assert_eq!(d.next_payload(), None);
    d.push_text("\ndata: [DO");
    assert_eq!(d.next_payload().as_deref(), Some("{\"a\":1}"));
    assert_eq!(d.next_payload(), None);
    d.push_text("NE]\n\n");
    assert_eq!(d.next_payload().as_deref(), Some("[DONE]"));
    assert_eq!(d.finish(), None);
}

#[test]
fn blocks_without_data_are_skipped_and_fields_join() {
    let mut d = SseDecoder::new();
    d.push_text(": keep-alive\n\nevent: x\ndata: one\ndata:  two \n\n");
    assert_eq!(d.next_payload().as_deref(), Some("one\ntwo"));
    assert_eq!(d.next_payload(), None);
}

#[test]
fn frame_roundtrip() {
    // A server's frame of a one-line payload decodes to exactly that payload.
    let mut d = SseDecoder::new();
    d.push_text("data: hello\n\ndata: next\n\n");
    assert_eq!(d.next_payload().as_deref(), Some("hello"));
    assert_eq!(d.next_payload().as_deref(), Some("next"));
}

#[test]
fn unterminated_tail_is_flushed_at_end() {
    let mut d = SseDecoder::new();
    d.push_text("data: tail");
    assert_eq!(d.next_payload(), None);
    assert_eq!(d.finish().as_deref(), Some("tail"));
    assert_eq!(d.finish(), None);
}

#[test]
fn tool_call_fragments_accumulate_by_position() {
    let mut acc = ToolCallAccumulator::new();
    acc.absorb(&frag(1, Some("c2"), Some("list_dir"), Some("{}")));
    acc.absorb(&frag(0, Some("c1"), Some("read_file"), Some("{\"pa")));
    acc.absorb(&frag(0, None, None, Some("th\":\"a\"}")));
    acc.absorb(&frag(2, None, Some("bash"), Some("{}")));
    let calls = acc.completed();
    // Ordered by position; the fragment without an id is skipped.
    assert_eq!(calls.len(), 2);
    assert_eq!(calls[0].id, "c1");
    assert_eq!(calls[0].name, "read_file");
    assert_eq!(calls[0].arguments, "{\"path\":\"a\"}");
    assert_eq!(calls[1].id, "c2");
}

#[test]
fn later_ids_and_names_replace_earlier_ones() {
    let mut acc = ToolCallAccumulator::new();
    acc.absorb(&frag(0, Some("a"), Some("x"), None));
    acc.absorb(&frag(0, Some("b"), Some("y"), None));
    let calls = acc.completed();
    assert_eq!(calls.len(), 1);
    assert_eq!(calls[0].id, "b");
    assert_eq!(calls[0].name, "y");
    assert_eq!(calls[0].arguments, "");
}

fn payloads_fed_in(pieces: &[&str]) -> Vec<String> {
    let mut d = SseDecoder::new();
    let mut out = Vec::new();
    for p in pieces {
        d.push_text(p);
        while let Some(x) = d.next_payload() {
            out.push(x);
        }
    }
    out.extend(d.finish());
    out
}

#[test]
fn decoding_does_not_depend_on_how_text_arrives() {
    let text = ": ping\n\ndata: {\"a\":1}\n\ndata: x\ndata: y\n\ndata: [DONE]\n\n";
    let whole = payloads_fed_in(&[text]);
    assert_eq!(whole, vec!["{\"a\":1}", "x\ny", "[DONE]"]);
    let chars: Vec<String> = text.chars().map(|c| c.to_string()).collect();
    let singles: Vec<&str> = chars.iter().map(|s| s.as_str()).collect();
    assert_eq!(payloads_fed_in(&singles), whole);
    assert_eq!(payloads_fed_in(&[&text[..9], &text[9..20], &text[20..]]), whole);
}

#[test]
fn interleaving_of_calls_does_not_matter() {
    let a1 = frag(0, Some("c1"), Some("read_file"), Some("{\"path\":"));
    let a2 = frag(0, None, None, Some("\"x\"}"));
    let b1 = frag(1, Some("c2"), Some("list_dir"), Some("{}"));
    let mut one = ToolCallAccumulator::new();
    for f in [&a1, &a2, &b1] {
        one.absorb(f);
    }
    let mut two = ToolCallAccumulator::new();
    for f in [&b1, &a1, &a2] {
        two.absorb(f);
    }
    assert_eq!(one.completed(), two.completed());
}

#[test]
fn draining_yields_every_completed_payload() {
    let text = "data: a\n\n: ping\n\ndata: b\n\ndata: c";
    let mut whole = SseDecoder::new();
    whole.push_text(text);
    let all = whole.drain_payloads();
    assert_eq!(all, vec!["a".to_string(), "b".to_string()]);
    let mut pieces = SseDecoder::new();
    let mut got = Vec::new();
    for piece in ["da", "ta: a\n", "\n: ping\n\ndata", ": b\n\nda", "ta: c"] {
        pieces.push_text(piece);
        got.extend(pieces.drain_payloads());
    }
    assert_eq!(got, all);
    assert_eq!(whole.finish().as_deref(), Some("c"));
    assert_eq!(pieces.finish().as_deref(), Some("c"));
}
