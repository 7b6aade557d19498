use ai::decoder::{
    data_payload, decode_body, frame_item, FrameDecoder, NextRead, ReadStep, StreamItem,
};
use ai::error::AssistError;
use ai::message::{ChatChoiceDelta, OpenAIResponseStreamEvent, ResponseMessage, Role, Usage};
use ai::sink::{next_action, SinkAction};
use serde_json::Value;

fn text(value: &Value) -> Option<String> {
    value.as_str().map(|s| s.to_string())
}

fn optional_text(value: Option<&Value>) -> Result<Option<String>, String> {
    match value {
        None | Some(Value::Null) => Ok(None),
        Some(v) => text(v).map(Some).ok_or_else(|| "expected a string".to_string()),
    }
}

fn number(value: Option<&Value>) -> Result<u32, String> {
    value
        .and_then(|v| v.as_u64())
        .and_then(|n| u32::try_from(n).ok())
        .ok_or_else(|| "expected a number".to_string())
}

fn role(value: Option<&Value>) -> Result<Option<Role>, String> {
    match optional_text(value)?.as_deref() {
        None => Ok(None),
        Some("user") => Ok(Some(Role::User)),
        Some("assistant") => Ok(Some(Role::Assistant)),
        Some("system") => Ok(Some(Role::System)),
        Some(other) => Err(format!("unknown role {}", other)),
    }
}

fn choice(value: &Value) -> Result<ChatChoiceDelta, String> {
    let delta = value.get("delta").ok_or_else(|| "missing delta".to_string())?;
    Ok(ChatChoiceDelta {
        index: number(value.get("index"))?,
        delta: ResponseMessage {
            role: role(delta.get("role"))?,
            content: optional_text(delta.get("content"))?,
        },
        finish_reason: optional_text(value.get("finish_reason"))?,
    })
}

fn usage(value: Option<&Value>) -> Result<Option<Usage>, String> {
    match value {
        None | Some(Value::Null) => Ok(None),
        Some(v) => Ok(Some(Usage {
            prompt_tokens: number(v.get("prompt_tokens"))?,
            completion_tokens: number(v.get("completion_tokens"))?,
            total_tokens: number(v.get("total_tokens"))?,
        })),
    }
}

fn event(payload: &[u8]) -> Result<OpenAIResponseStreamEvent, String> {
    let value: Value = serde_json::from_slice(payload).map_err(|e| e.to_string())?;
    let choices = value
        .get("choices")
        .and_then(|c| c.as_array())
        .ok_or_else(|| "missing choices".to_string())?;
    let mut decoded = Vec::new();
    for c in choices {
        decoded.push(choice(c)?);
    }
    Ok(OpenAIResponseStreamEvent {
        id: optional_text(value.get("id"))?,
        object: value.get("object").and_then(text).ok_or_else(|| "missing object".to_string())?,
        created: number(value.get("created"))?,
        model: value.get("model").and_then(text).ok_or_else(|| "missing model".to_string())?,
        choices: decoded,
        usage: usage(value.get("usage"))?,
    })
}

fn item(payload: &[u8]) -> StreamItem {
    frame_item(event(payload))
}

fn frame(content: &str) -> String {
    format!(
        "data: {{\"id\":\"c1\",\"object\":\"chat.completion.chunk\",\"created\":1,\"model\":\"gpt-4\",\"choices\":[{{\"index\":0,\"delta\":{{\"content\":\"{}\"}},\"finish_reason\":null}}]}}\n",
        content
    )
}

#[test]
fn data_line_gives_its_payload() {
    assert_eq!(data_payload(b"data: {\"a\":1}"), Some(&b"{\"a\":1}"[..]));
}

#[test]
fn payload_is_taken_as_it_stands() {
    assert_eq!(data_payload(b"data:  x "), Some(&b" x "[..]));
    assert_eq!(data_payload(b"data: data: y"), Some(&b"data: y"[..]));
    assert_eq!(data_payload(b"data: [DONE]"), Some(&b"[DONE]"[..]));
}

#[test]
fn data_line_without_payload_gives_an_empty_one() {
    assert_eq!(data_payload(b"data: "), Some(&b""[..]));
}

#[test]
fn other_lines_give_no_payload() {
    assert_eq!(data_payload(b""), None);
    assert_eq!(data_payload(b":"), None);
    assert_eq!(data_payload(b": keep-alive"), None);
    assert_eq!(data_payload(b"data:"), None);
    assert_eq!(data_payload(b"data:{}"), None);
    assert_eq!(data_payload(b"data"), None);
    assert_eq!(data_payload(b"Data: {}"), None);
    assert_eq!(data_payload(b" data: {}"), None);
    assert_eq!(data_payload(b"event: ping"), None);
    assert_eq!(data_payload(b"datb: {}"), None);
    assert_eq!(data_payload(b"data; {}"), None);
    assert_eq!(data_payload(b"data:\t{}"), None);
}

#[test]
fn body_is_cut_at_line_feeds() {
    let frames = decode_body(b"data: one\ndata: two\n");
    assert_eq!(frames, vec![b"one".to_vec(), b"two".to_vec()]);
}

#[test]
fn carriage_return_belongs_to_the_terminator() {
    let frames = decode_body(b"data: one\r\ndata: two\r\n");
    assert_eq!(frames, vec![b"one".to_vec(), b"two".to_vec()]);
}

#[test]
fn only_one_carriage_return_is_dropped() {
    let frames = decode_body(b"data: one\r\r\n");
    assert_eq!(frames, vec![b"one\r".to_vec()]);
}

#[test]
fn carriage_return_inside_a_line_stays() {
    let frames = decode_body(b"data: a\rb\n");
    assert_eq!(frames, vec![b"a\rb".to_vec()]);
}

#[test]
fn line_that_is_only_prefix_and_carriage_return() {
    assert_eq!(decode_body(b"data: \r\n"), vec![Vec::<u8>::new()]);
    assert_eq!(decode_body(b"data:\r\n"), Vec::<Vec<u8>>::new());
}

#[test]
fn unfinished_last_line_is_dropped() {
    let frames = decode_body(b"data: one\ndata: two");
    assert_eq!(frames, vec![b"one".to_vec()]);
    assert_eq!(decode_body(b"data: only"), Vec::<Vec<u8>>::new());
}

#[test]
fn empty_body_gives_nothing() {
    assert_eq!(decode_body(b""), Vec::<Vec<u8>>::new());
}

#[test]
fn blank_and_comment_lines_leave_no_trace() {
    let frames = decode_body(b"\n\n:\n: ping\ndata: x\n\nevent: done\n");
    assert_eq!(frames, vec![b"x".to_vec()]);
}

#[test]
fn new_decoder_holds_nothing() {
    let decoder = FrameDecoder::new();
    assert_eq!(decoder.unfinished(), b"");
}

#[test]
fn line_split_over_pieces_is_put_together() {
    let mut decoder = FrameDecoder::new();
    assert_eq!(decoder.feed(b"da"), Vec::<Vec<u8>>::new());
    assert_eq!(decoder.unfinished(), b"da");
    assert_eq!(decoder.feed(b"ta: hel"), Vec::<Vec<u8>>::new());
    assert_eq!(decoder.unfinished(), b"data: hel");
    assert_eq!(decoder.feed(b"lo\ndata: wor"), vec![b"hello".to_vec()]);
    assert_eq!(decoder.unfinished(), b"data: wor");
    assert_eq!(decoder.feed(b"ld\n"), vec![b"world".to_vec()]);
    assert_eq!(decoder.unfinished(), b"");
}

#[test]
fn terminator_split_over_pieces() {
    let mut decoder = FrameDecoder::new();
    assert_eq!(decoder.feed(b"data: x\r"), Vec::<Vec<u8>>::new());
    assert_eq!(decoder.feed(b"\n"), vec![b"x".to_vec()]);
}

#[test]
fn empty_piece_changes_nothing() {
    let mut decoder = FrameDecoder::new();
    decoder.feed(b"data: x");
    assert_eq!(decoder.feed(b""), Vec::<Vec<u8>>::new());
    assert_eq!(decoder.unfinished(), b"data: x");
}

#[test]
fn pieces_of_any_size_give_the_same_frames() {
    let body = b"data: {\"a\":1}\r\n:\n\ndata: second\nnoise\ndata: third\ndata: cut";
    let whole = decode_body(body);
    assert_eq!(whole, vec![b"{\"a\":1}".to_vec(), b"second".to_vec(), b"third".to_vec()]);
    for size in 1..=body.len() {
        let mut decoder = FrameDecoder::new();
        let mut frames = Vec::new();
        for piece in body.chunks(size) {
            frames.extend(decoder.feed(piece));
        }
        assert_eq!(frames, whole);
        assert_eq!(decoder.unfinished(), b"data: cut");
    }
}

#[test]
fn malformed_frame_is_skipped_and_the_stream_goes_on() {
    let body = format!("{}:\ndata: {{malformed}}\n{}", frame("Hello"), frame(" world"));
    let frames = decode_body(body.as_bytes());
    assert_eq!(frames.len(), 3);

    let items: Vec<StreamItem> = frames.iter().map(|f| item(f)).collect();
    let mut events = Vec::new();
    let mut failures = 0;
    for it in &items {
        match it {
            StreamItem::Event(e) => events.push(e.clone()),
            StreamItem::Failure(AssistError::FrameDecode(_)) => failures += 1,
            StreamItem::Failure(other) => panic!("unexpected failure {:?}", other),
        }
    }
    assert_eq!(events.len(), 2);
    assert_eq!(failures, 1);
    assert_eq!(events[0].choices[0].delta.content.as_deref(), Some("Hello"));
    assert_eq!(events[1].choices[0].delta.content.as_deref(), Some(" world"));
    assert!(matches!(items[1], StreamItem::Failure(AssistError::FrameDecode(_))));

    let actions: Vec<SinkAction> = items.into_iter().map(next_action).collect();
    assert_eq!(actions[0], SinkAction::Insert("Hello".to_string()));
    assert!(matches!(actions[1], SinkAction::LogFailure(AssistError::FrameDecode(_))));
    assert_eq!(actions[2], SinkAction::Insert(" world".to_string()));
}

#[test]
fn terminal_marker_is_one_more_frame_that_does_not_decode() {
    let body = format!("{}data: [DONE]\n", frame("Hi"));
    let frames = decode_body(body.as_bytes());
    assert_eq!(frames.len(), 2);
    assert_eq!(frames[1], b"[DONE]".to_vec());
    assert!(matches!(item(&frames[1]), StreamItem::Failure(AssistError::FrameDecode(_))));
    assert!(matches!(next_action(item(&frames[1])), SinkAction::LogFailure(_)));
}

#[test]
fn frame_that_is_not_text_does_not_decode() {
    let frames = decode_body(b"data: \xff\xfe\n");
    assert_eq!(frames, vec![vec![0xffu8, 0xfe]]);
    assert!(matches!(item(&frames[0]), StreamItem::Failure(AssistError::FrameDecode(_))));
}

#[test]
fn decoded_frame_is_delivered_as_its_event() {
    let payload = frame("Hi");
    let decoded = event(&payload.as_bytes()[6..payload.len() - 1]).unwrap();
    assert_eq!(decoded.id.as_deref(), Some("c1"));
    assert_eq!(decoded.object, "chat.completion.chunk");
    assert_eq!(decoded.created, 1);
    assert_eq!(decoded.model, "gpt-4");
    assert_eq!(decoded.choices.len(), 1);
    assert_eq!(decoded.usage, None);
    assert_eq!(frame_item(Ok(decoded.clone())), StreamItem::Event(decoded));
}

#[test]
fn frame_that_does_not_decode_is_delivered_as_a_failure() {
    assert_eq!(
        frame_item(Err("expected value".to_string())),
        StreamItem::Failure(AssistError::FrameDecode("expected value".to_string()))
    );
}

#[test]
fn bytes_that_were_read_are_decoded_and_more_are_asked_for() {
    let mut decoder = FrameDecoder::new();
    assert_eq!(
        decoder.accept(Ok(b"data: a\ndata: b")),
        ReadStep { frames: vec![b"a".to_vec()], next: NextRead::Continue }
    );
    assert_eq!(
        decoder.accept(Ok(b"c\n")),
        ReadStep { frames: vec![b"bc".to_vec()], next: NextRead::Continue }
    );
}

#[test]
fn end_of_input_closes_the_stream_and_drops_the_open_line() {
    let mut decoder = FrameDecoder::new();
    decoder.accept(Ok(b"data: a\ndata: open"));
    assert_eq!(decoder.accept(Ok(b"")), ReadStep { frames: vec![], next: NextRead::Close });
    assert_eq!(decoder.unfinished(), b"data: open");
}

#[test]
fn failed_read_ends_the_stream_with_a_transport_failure() {
    let mut decoder = FrameDecoder::new();
    decoder.accept(Ok(b"data: a\ndata: open"));
    let step = decoder.accept(Err("connection reset".to_string()));
    assert_eq!(
        step,
        ReadStep {
            frames: vec![],
            next: NextRead::Fail(AssistError::Transport("connection reset".to_string())),
        }
    );
    assert_eq!(decoder.unfinished(), b"data: open");
    match step.next {
        NextRead::Fail(failure) => assert!(matches!(
            next_action(StreamItem::Failure(failure)),
            SinkAction::Abort(AssistError::Transport(_))
        )),
        other => panic!("unexpected step {:?}", other),
    }
}
