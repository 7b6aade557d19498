//! Turns what the decoder delivers into edits of the document, one item at a
//! time and in the order of arrival.
//!
//! The document is the host's. It is modelled here as a text with an anchor in
//! it, to say what the edits amount to: text inserted at the anchor goes in
//! front of it, so the anchor moves behind what was inserted.

use crate::decoder::StreamItem;
use crate::error::{AssistError, Recovery};
use crate::message::OpenAIResponseStreamEvent;
use vstd::prelude::*;

verus! {

/// What the sink does for one item.
#[derive(Clone, Debug, PartialEq, Eq)]
pub enum SinkAction {
    /// Insert the text at the anchor, and go on.
    Insert(String),
    /// Leave the document as it is, and go on.
    Nothing,
    /// Log the failure, leave the document as it is, and go on.
    LogFailure(AssistError),
    /// Report the failure and stop. The document is left as it is.
    Abort(AssistError),
}

/// The text that an event brings: the content of its last choice. An event
/// without choices brings none, nor one whose last choice has no content,
/// whatever the choices before it hold.
pub open spec fn delta_text(event: OpenAIResponseStreamEvent) -> Option<String> {
    if event.choices@.len() == 0 {
        None
    } else {
        event.choices@.last().delta.content
    }
}

/// The action for an item: an event's text is inserted and an event without
/// text changes nothing. A failure that only costs its frame is logged; any
/// other ends the stream.
pub open spec fn action_for(item: StreamItem) -> SinkAction {
    match item {
        StreamItem::Event(event) => match delta_text(event) {
            Some(text) => SinkAction::Insert(text),
            None => SinkAction::Nothing,
        },
        StreamItem::Failure(failure) => if failure.spec_recovery() == Recovery::SkipFrame {
            SinkAction::LogFailure(failure)
        } else {
            SinkAction::Abort(failure)
        },
    }
}

/// Decides what to do for the next item of the stream. An empty text is still
/// inserted; an absent one is not.
pub fn next_action(item: StreamItem) -> (action: SinkAction)
    ensures
        action == action_for(item),
{
    match item {
        StreamItem::Event(event) => {
            let mut choices = event.choices;
            match choices.pop() {
                Some(choice) => match choice.delta.content {
                    Some(text) => SinkAction::Insert(text),
                    None => SinkAction::Nothing,
                },
                None => SinkAction::Nothing,
            }
        },
        StreamItem::Failure(failure) => match failure.recovery() {
            Recovery::SkipFrame => SinkAction::LogFailure(failure),
            Recovery::Decline => SinkAction::Abort(failure),
            Recovery::Abort => SinkAction::Abort(failure),
        },
    }
}

/// The host's document as the sink sees it: its text, and the offset at which
/// the anchor stands.
pub struct DocumentState {
    pub text: Seq<char>,
    pub anchor: int,
}

/// The document after one action. An insertion puts the text in front of the
/// anchor; no other action changes anything.
pub open spec fn performed(state: DocumentState, action: SinkAction) -> DocumentState {
    match action {
        SinkAction::Insert(text) => DocumentState {
            text: state.text.take(state.anchor) + text@ + state.text.skip(state.anchor),
            anchor: state.anchor + text@.len(),
        },
        SinkAction::Nothing => state,
        SinkAction::LogFailure(_) => state,
        SinkAction::Abort(_) => state,
    }
}

/// The document after a run of actions, performed in order.
pub open spec fn performed_all(state: DocumentState, actions: Seq<SinkAction>) -> DocumentState
    decreases actions.len(),
{
    if actions.len() == 0 {
        state
    } else {
        performed(performed_all(state, actions.drop_last()), actions.last())
    }
}

/// The texts that a run of actions inserts, one after the other.
pub open spec fn streamed_text(actions: Seq<SinkAction>) -> Seq<char>
    decreases actions.len(),
{
    if actions.len() == 0 {
        Seq::empty()
    } else {
        match actions.last() {
            SinkAction::Insert(text) => streamed_text(actions.drop_last()) + text@,
            SinkAction::Nothing => streamed_text(actions.drop_last()),
            SinkAction::LogFailure(_) => streamed_text(actions.drop_last()),
            SinkAction::Abort(_) => streamed_text(actions.drop_last()),
        }
    }
}

/// A run of actions puts the streamed text, whole and in the order of arrival,
/// where the anchor first stood. What was before the anchor stays before the
/// text, what was behind it stays behind the anchor, and no character of the
/// document is lost.
pub proof fn stream_lands_at_anchor(state: DocumentState, actions: Seq<SinkAction>)
    requires
        0 <= state.anchor <= state.text.len(),
    ensures
        performed_all(state, actions).text == state.text.take(state.anchor) + streamed_text(
            actions,
        ) + state.text.skip(state.anchor),
        performed_all(state, actions).anchor == state.anchor + streamed_text(actions).len(),
    decreases actions.len(),
{
    let before = state.text.take(state.anchor);
    let behind = state.text.skip(state.anchor);
    if actions.len() == 0 {
        assert(state.text =~= before + Seq::<char>::empty() + behind);
    } else {
        stream_lands_at_anchor(state, actions.drop_last());
        let earlier = performed_all(state, actions.drop_last());
        let so_far = streamed_text(actions.drop_last());
        assert(earlier.text.take(earlier.anchor) =~= before + so_far);
        assert(earlier.text.skip(earlier.anchor) =~= behind);
        match actions.last() {
            SinkAction::Insert(text) => {
                assert(before + so_far + text@ + behind =~= before + (so_far + text@) + behind);
            },
            SinkAction::Nothing => {},
            SinkAction::LogFailure(_) => {},
            SinkAction::Abort(_) => {},
        }
    }
}

} // verus!
