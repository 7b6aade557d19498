//! The request that is sent to the completion service and the events that come
//! back, as the service's schema has them.

use vstd::prelude::*;
use vstd::string::*;

verus! {

/// Who speaks in a message.
#[derive(Clone, Copy, Debug, PartialEq, Eq, Structural)]
pub enum Role {
    User,
    Assistant,
    System,
}

/// One message of the request. It is not changed once it is made.
#[derive(Clone, Debug, PartialEq, Eq)]
pub struct RequestMessage {
    pub role: Role,
    pub content: String,
}

/// The request for a completion.
#[derive(Clone, Debug, PartialEq, Eq)]
pub struct OpenAIRequest {
    pub model: String,
    pub messages: Vec<RequestMessage>,
    pub stream: bool,
}

/// The fragment of the reply that one choice of one event carries. A `content`
/// of `None` means that the fragment brings no text; it is not an empty text.
#[derive(Clone, Debug, PartialEq, Eq)]
pub struct ResponseMessage {
    pub role: Option<Role>,
    pub content: Option<String>,
}

/// The token counts that the service may report.
#[derive(Clone, Copy, Debug, PartialEq, Eq, Structural)]
pub struct Usage {
    pub prompt_tokens: u32,
    pub completion_tokens: u32,
    pub total_tokens: u32,
}

/// One choice of an event.
#[derive(Clone, Debug, PartialEq, Eq)]
pub struct ChatChoiceDelta {
    pub index: u32,
    pub delta: ResponseMessage,
    pub finish_reason: Option<String>,
}

/// One event of the reply: what one data frame of the stream decodes to.
#[derive(Clone, Debug, PartialEq, Eq)]
pub struct OpenAIResponseStreamEvent {
    pub id: Option<String>,
    pub object: String,
    pub created: u32,
    pub model: String,
    pub choices: Vec<ChatChoiceDelta>,
    pub usage: Option<Usage>,
}

/// The model that completions are asked of.
pub const MODEL: &'static str = "gpt-4";

/// The instructions that open every request. They tell the model how a
/// selection is marked in the prompt and how to lay out its reply.
pub const SYSTEM_MESSAGE: &'static str =
    "You an AI language model embedded in a code editor named Zed, authored by Zed Industries.\n\
The input you are currently processing was produced by a special \\\"model mention\\\" in a document that is open in the editor.\n\
A model mention is indicated via a leading / on a line.\n\
The user's currently selected text is indicated via ->->selected text<-<- surrounding selected text.\n\
In this sentence, the word ->->example<-<- is selected.\n\
Respond to any selected model mention.\n\
Wrap your responses in > < as follows.\n\
>\n\
I think that's a great idea.\n\
<\n\
If you're responding to a distant mention or multiple mentions, provide context.\n\
> Key ideas of generative programming.\n\
* Managing context\n    \
* Managing length\n    \
* Context distillation\n        \
- Shrink a context's size without loss of meaning.\n\
* Fine-grained version control\n    \
* Portals to other contexts\n        \
* Distillation policies\n        \
* Budgets\n\
<\n\
\n\
> Expand on the idea of context distillation.\n\
It's important to stay below the model's context size when generative programming.\n\
A key technique in doing so is called context distillation... [up to 1 paragraph].\n\
\n\
Questions to consider:\n\
-\n\
-\n\
- [Up to 3 questions]\n\
<\n";

/// The messages of a request that asks for a reply to `prompt`: the
/// instructions, then the prompt.
pub open spec fn is_exchange(messages: Seq<RequestMessage>, prompt: Seq<char>) -> bool {
    &&& messages.len() == 2
    &&& messages[0].role == Role::System
    &&& messages[0].content@ == SYSTEM_MESSAGE@
    &&& messages[1].role == Role::User
    &&& messages[1].content@ == prompt
}

/// The request for one exchange: the instructions as the system's message and
/// the prompt as the user's. Each invocation is a single exchange, so the request
/// holds these two messages and no others.
pub fn chat_request(user_message: String) -> (request: OpenAIRequest)
    ensures
        request.model@ == MODEL@,
        is_exchange(request.messages@, user_message@),
        !request.stream,
{
    let mut messages: Vec<RequestMessage> = Vec::new();
    messages.push(RequestMessage { role: Role::System, content: String::from_str(SYSTEM_MESSAGE) });
    messages.push(RequestMessage { role: Role::User, content: user_message });
    OpenAIRequest { model: String::from_str(MODEL), messages, stream: false }
}

impl OpenAIRequest {
    /// The request as it is transmitted. Only streamed replies are consumed, so
    /// `stream` is set whatever the caller chose; nothing else changes.
    pub fn streaming(self) -> (sent: OpenAIRequest)
        ensures
            sent.stream,
            sent.model == self.model,
            sent.messages == self.messages,
    {
        OpenAIRequest { model: self.model, messages: self.messages, stream: true }
    }
}

} // verus!
