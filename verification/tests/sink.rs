use ai::decoder::StreamItem;
use ai::error::{AssistError, ServiceError};
use ai::message::{ChatChoiceDelta, OpenAIResponseStreamEvent, ResponseMessage, Role};
use ai::sink::{next_action, SinkAction};

fn choice(index: u32, content: Option<&str>) -> ChatChoiceDelta {
    ChatChoiceDelta {
        index,
        delta: ResponseMessage { role: None, content: content.map(|c| c.to_string()) },
        finish_reason: None,
    }
}

fn event(choices: Vec<ChatChoiceDelta>) -> StreamItem {
    StreamItem::Event(OpenAIResponseStreamEvent {
        id: Some("chatcmpl-1".to_string()),
        object: "chat.completion.chunk".to_string(),
        created: 1_700_000_000,
        model: "gpt-4".to_string(),
        choices,
        usage: None,
    })
}

/// Performs the actions on a text with an anchor in it, as a host would.
fn perform(text: &str, anchor: usize, actions: &[SinkAction]) -> (String, usize) {
    let mut chars: Vec<char> = text.chars().collect();
    let mut at = anchor;
    for action in actions {
        if let SinkAction::Insert(fragment) = action {
            let added: Vec<char> = fragment.chars().collect();
            let n = added.len();
            chars.splice(at..at, added);
            at += n;
        }
    }
    (chars.into_iter().collect(), at)
}

#[test]
fn text_of_the_only_choice_is_inserted() {
    let action = next_action(event(vec![choice(0, Some("Hello"))]));
    assert_eq!(action, SinkAction::Insert("Hello".to_string()));
}

#[test]
fn last_choice_wins() {
    let action = next_action(event(vec![choice(0, Some("A")), choice(1, Some("X"))]));
    assert_eq!(action, SinkAction::Insert("X".to_string()));
}

#[test]
fn last_choice_wins_whatever_its_index() {
    let action = next_action(event(vec![choice(1, Some("first")), choice(0, Some("second"))]));
    assert_eq!(action, SinkAction::Insert("second".to_string()));
}

#[test]
fn last_choice_without_content_hides_the_others() {
    let action = next_action(event(vec![choice(0, Some("A")), choice(1, None)]));
    assert_eq!(action, SinkAction::Nothing);
}

#[test]
fn absent_content_changes_nothing() {
    let action = next_action(event(vec![choice(0, None)]));
    assert_eq!(action, SinkAction::Nothing);
}

#[test]
fn delta_with_only_a_role_changes_nothing() {
    let mut c = choice(0, None);
    c.delta.role = Some(Role::Assistant);
    assert_eq!(next_action(event(vec![c])), SinkAction::Nothing);
}

#[test]
fn delta_with_only_a_finish_reason_changes_nothing() {
    let mut c = choice(0, None);
    c.finish_reason = Some("stop".to_string());
    assert_eq!(next_action(event(vec![c])), SinkAction::Nothing);
}

#[test]
fn event_without_choices_changes_nothing() {
    assert_eq!(next_action(event(vec![])), SinkAction::Nothing);
}

#[test]
fn empty_content_is_still_an_insertion() {
    let action = next_action(event(vec![choice(0, Some(""))]));
    assert_eq!(action, SinkAction::Insert(String::new()));
}

#[test]
fn frame_that_did_not_decode_is_logged() {
    let failure = AssistError::FrameDecode("expected value at line 1 column 2".to_string());
    let action = next_action(StreamItem::Failure(failure.clone()));
    assert_eq!(action, SinkAction::LogFailure(failure));
}

#[test]
fn transport_failure_ends_the_stream() {
    let failure = AssistError::Transport("connection reset".to_string());
    let action = next_action(StreamItem::Failure(failure.clone()));
    assert_eq!(action, SinkAction::Abort(failure));
}

#[test]
fn other_failures_end_the_stream() {
    for failure in [
        AssistError::Configuration,
        AssistError::Serialization("no".to_string()),
        AssistError::Service(ServiceError { status: 429, body: "rate limited".to_string() }),
    ] {
        assert_eq!(
            next_action(StreamItem::Failure(failure.clone())),
            SinkAction::Abort(failure)
        );
    }
}

#[test]
fn stream_without_text_leaves_the_document_untouched() {
    let actions: Vec<SinkAction> = vec![
        event(vec![choice(0, None)]),
        StreamItem::Failure(AssistError::FrameDecode("bad".to_string())),
        event(vec![]),
    ]
    .into_iter()
    .map(next_action)
    .collect();
    assert_eq!(perform("doc\n\n\n\n", 5, &actions), ("doc\n\n\n\n".to_string(), 5));
}

#[test]
fn fragments_land_at_the_anchor_in_order() {
    let prepared = ai::framing::prepare_prompt("ask", &vec![]).unwrap();
    let padded = format!("ask{}", prepared.suffix);
    let actions: Vec<SinkAction> = vec![
        event(vec![choice(0, None)]),
        event(vec![choice(0, Some("Hel"))]),
        event(vec![choice(0, Some("lo"))]),
        StreamItem::Failure(AssistError::FrameDecode("bad".to_string())),
        event(vec![choice(0, Some(", world"))]),
    ]
    .into_iter()
    .map(next_action)
    .collect();
    let (text, anchor) = perform(&padded, prepared.insertion_offset, &actions);
    assert_eq!(text, "ask\n\nHello, world\n\n");
    assert_eq!(anchor, 5 + 12);
    assert!(anchor < text.chars().count());
}
