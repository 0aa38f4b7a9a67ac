//! The request sent to the backend: the outgoing user message and the flattened, alternating
//! history that precedes it.
use crate::message::{AssistantMessage, AssistantToolUse, ImageBlock, ToolUseResult, UserMessage, UserMessageContent};
use vstd::prelude::*;

verus! {

/// A tool the backend may call. The input schema is JSON text.
#[derive(Debug, Clone)]
pub struct ToolSpec {
    pub name: String,
    pub description: String,
    pub input_schema: String,
}

/// Context attached to a user message on the wire.
#[derive(Debug, Clone)]
pub struct UserInputMessageContext {
    pub tool_results: Option<Vec<ToolUseResult>>,
    pub tools: Option<Vec<ToolSpec>>,
}

/// A user message on the wire.
#[derive(Debug, Clone)]
pub struct UserInputMessage {
    pub content: String,
    pub context: UserInputMessageContext,
    pub images: Option<Vec<ImageBlock>>,
    pub model_id: Option<String>,
}

/// An assistant message on the wire.
#[derive(Debug, Clone)]
pub struct AssistantResponseMessage {
    pub message_id: Option<String>,
    pub content: String,
    pub tool_uses: Option<Vec<AssistantToolUse>>,
}

/// One entry of the history on the wire.
#[derive(Debug, Clone)]
pub enum ChatMessage {
    UserInputMessage(UserInputMessage),
    AssistantResponseMessage(AssistantResponseMessage),
}

/// Everything sent to the backend for one turn.
#[derive(Debug, Clone)]
pub struct ConversationRequest {
    pub conversation_id: String,
    pub user_input_message: UserInputMessage,
    pub history: Vec<ChatMessage>,
}

impl ToolSpec {
    pub fn duplicate(&self) -> (r: Self)
        ensures
            r == *self,
    {
        ToolSpec {
            name: self.name.clone(),
            description: self.description.clone(),
            input_schema: self.input_schema.clone(),
        }
    }
}

/// Copies a tool catalog.
pub fn copy_tools(v: &Vec<ToolSpec>) -> (r: Vec<ToolSpec>)
    ensures
        r@ == v@,
{
    let mut r: Vec<ToolSpec> = Vec::new();
    let mut i: usize = 0;
    while i < v.len()
        invariant
            i <= v.len(),
            r@ == v@.subrange(0, i as int),
        decreases v.len() - i,
    {
        r.push(v[i].duplicate());
        i = i + 1;
    }
    assert(v@.subrange(0, v.len() as int) == v@);
    r
}

/// The text content of a user turn on the wire: its extra context, a blank line and its prompt;
/// the prompt alone when there is no extra context.
pub open spec fn wire_content(m: UserMessage) -> Seq<char> {
    let p = match m.prompt_view() {
        Some(t) => t,
        None => Seq::empty(),
    };
    if m.additional_context@.len() == 0 {
        p
    } else {
        m.additional_context@ + "\n\n"@ + p
    }
}

/// `w` is user turn `m` on the wire: same content and the same tool results, if any.
pub open spec fn user_wire_of(m: UserMessage, w: UserInputMessage) -> bool {
    &&& w.content@ == wire_content(m)
    &&& match w.context.tool_results {
        Some(r) => m.has_results() && r@ == m.results(),
        None => !m.has_results(),
    }
    &&& w.images == m.images
}

/// `w` is assistant turn `m` on the wire.
pub open spec fn assistant_wire_of(m: AssistantMessage, w: AssistantResponseMessage) -> bool {
    &&& w.message_id == m.message_id_view()
    &&& w.content@ == m.content_view()
    &&& match w.tool_uses {
        Some(t) => m is ToolUse && t@ == m.invocations(),
        None => m is Response,
    }
}

/// History entries `2k` and `2k + 1` are pair `k` on the wire, without tools or model id.
pub open spec fn wire_pair_at(
    pairs: Seq<(UserMessage, AssistantMessage)>,
    h: Seq<ChatMessage>,
    k: int,
) -> bool {
    &&& match h[2 * k] {
        ChatMessage::UserInputMessage(u) => user_wire_of(pairs[k].0, u) && u.context.tools is None
            && u.model_id is None,
        ChatMessage::AssistantResponseMessage(_) => false,
    }
    &&& match h[2 * k + 1] {
        ChatMessage::AssistantResponseMessage(a) => assistant_wire_of(pairs[k].1, a),
        ChatMessage::UserInputMessage(_) => false,
    }
}

/// `h` is the flattened wire form of `pairs`.
pub open spec fn history_wire_of(pairs: Seq<(UserMessage, AssistantMessage)>, h: Seq<ChatMessage>) -> bool {
    &&& h.len() == 2 * pairs.len()
    &&& forall|k: int| 0 <= k < pairs.len() ==> #[trigger] wire_pair_at(pairs, h, k)
}

/// User turn `m` on the wire.
pub fn user_into_wire(m: UserMessage, tools: Option<Vec<ToolSpec>>, model_id: Option<String>) -> (w:
    UserInputMessage)
    ensures
        user_wire_of(m, w),
        w.context.tools == tools,
        w.model_id == model_id,
{
    let ghost m0 = m;
    let prompt = match &m.content {
        UserMessageContent::Prompt { prompt } => prompt.clone(),
        UserMessageContent::CancelledToolUses { prompt, .. } => prompt.clone(),
        UserMessageContent::ToolUseResults { .. } => String::new(),
    };
    let content = if m.additional_context.as_str().unicode_len() == 0 {
        prompt
    } else {
        let mut c = m.additional_context.clone();
        c.append("\n\n");
        c.append(prompt.as_str());
        c
    };
    let tool_results = match m.content {
        UserMessageContent::Prompt { .. } => None,
        UserMessageContent::CancelledToolUses { tool_use_results, .. } => Some(tool_use_results),
        UserMessageContent::ToolUseResults { tool_use_results } => Some(tool_use_results),
    };
    UserInputMessage {
        content,
        context: UserInputMessageContext { tool_results, tools },
        images: m.images,
        model_id,
    }
}

/// Assistant turn `m` on the wire.
pub fn assistant_into_wire(m: AssistantMessage) -> (w: AssistantResponseMessage)
    ensures
        assistant_wire_of(m, w),
{
    match m {
        AssistantMessage::Response { message_id, content } => AssistantResponseMessage {
            message_id,
            content,
            tool_uses: None,
        },
        AssistantMessage::ToolUse { message_id, content, tool_uses } => AssistantResponseMessage {
            message_id,
            content,
            tool_uses: Some(tool_uses),
        },
    }
}

/// The history alternates user and assistant messages, starting with a user message and ending
/// with an assistant message.
pub open spec fn alternates(h: Seq<ChatMessage>) -> bool {
    &&& h.len() % 2 == 0
    &&& forall|i: int| 0 <= i < h.len() ==> ((#[trigger] h[i]) is UserInputMessage <==> i % 2 == 0)
}

/// An assistant message that requests at least one tool.
pub open spec fn requests_tools(m: ChatMessage) -> bool {
    match m {
        ChatMessage::AssistantResponseMessage(a) => match a.tool_uses {
            Some(t) => t@.len() > 0,
            None => false,
        },
        ChatMessage::UserInputMessage(_) => false,
    }
}

/// An assistant message whose tool-use list is present.
pub open spec fn has_tool_use_list(m: ChatMessage) -> bool {
    match m {
        ChatMessage::AssistantResponseMessage(a) => a.tool_uses is Some,
        ChatMessage::UserInputMessage(_) => false,
    }
}

/// The message carries at least one tool result.
pub open spec fn carries_results(m: UserInputMessage) -> bool {
    match m.context.tool_results {
        Some(r) => r@.len() > 0,
        None => false,
    }
}

/// A user message of the history that carries at least one tool result.
pub open spec fn user_with_results(m: ChatMessage) -> bool {
    match m {
        ChatMessage::UserInputMessage(u) => carries_results(u),
        ChatMessage::AssistantResponseMessage(_) => false,
    }
}

/// The last history message is an assistant message that requests at least one tool.
pub open spec fn ends_with_tool_uses(h: Seq<ChatMessage>) -> bool {
    h.len() > 0 && requests_tools(h.last())
}

/// No user message of the history carries tool specifications.
pub open spec fn no_tools_in_history(h: Seq<ChatMessage>) -> bool {
    forall|i: int|
        0 <= i < h.len() ==> match #[trigger] h[i] {
            ChatMessage::UserInputMessage(u) => u.context.tools is None,
            ChatMessage::AssistantResponseMessage(_) => true,
        }
}

/// Every user message of the history that carries tool results directly follows an assistant
/// message with tool uses.
pub open spec fn results_correlated(h: Seq<ChatMessage>) -> bool {
    forall|i: int|
        0 <= i < h.len() && user_with_results(#[trigger] h[i]) ==> i > 0 && has_tool_use_list(
            h[i - 1],
        )
}

} // verus!
