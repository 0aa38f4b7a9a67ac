//! Turns of a conversation: what the user sends, what the backend answers, and the tool
//! invocations and results that travel between them.
use crate::text::{first_chars, take_chars};
use vstd::prelude::*;

verus! {

/// Text of every synthetic tool result that stands for an invocation that never ran.
pub const CANCELLED_TOOL_TEXT: &'static str = "Tool use was cancelled by the user";

/// Prompt that replaces an empty user prompt.
pub const EMPTY_PROMPT_TEXT: &'static str = "Empty prompt";

/// Outcome of one tool execution.
#[derive(Debug, Clone, Copy, PartialEq, Eq, Structural)]
pub enum ToolResultStatus {
    Success,
    Error,
}

/// One block of a tool result. A structured block holds its JSON document as text.
#[derive(Debug, Clone)]
pub enum ToolUseResultBlock {
    Text(String),
    Json(String),
}

/// The outcome of executing one tool invocation, correlated to it by `tool_use_id`.
#[derive(Debug, Clone)]
pub struct ToolUseResult {
    pub tool_use_id: String,
    pub content: Vec<ToolUseResultBlock>,
    pub status: ToolResultStatus,
}

/// An image attached to a tool-results turn.
#[derive(Debug, Clone)]
pub struct ImageBlock {
    pub format: String,
    pub bytes: Vec<u8>,
}

/// What a user turn carries.
#[derive(Debug, Clone)]
pub enum UserMessageContent {
    /// A plain prompt.
    Prompt { prompt: String },
    /// Synthetic results for invocations that were abandoned, with the text that explains why.
    CancelledToolUses { prompt: String, tool_use_results: Vec<ToolUseResult> },
    /// Results of executed invocations.
    ToolUseResults { tool_use_results: Vec<ToolUseResult> },
}

/// One user-authored turn.
#[derive(Debug, Clone)]
pub struct UserMessage {
    /// Extra per-turn context, such as the output of per-prompt hooks.
    pub additional_context: String,
    pub content: UserMessageContent,
    pub images: Option<Vec<ImageBlock>>,
}

/// A single tool call requested by the backend. Arguments are JSON text.
#[derive(Debug, Clone)]
pub struct AssistantToolUse {
    pub id: String,
    pub name: String,
    pub orig_name: String,
    pub args: String,
    pub orig_args: String,
}

/// One backend-authored turn.
#[derive(Debug, Clone)]
pub enum AssistantMessage {
    Response { message_id: Option<String>, content: String },
    ToolUse { message_id: Option<String>, content: String, tool_uses: Vec<AssistantToolUse> },
}

/// The character views of a sequence of strings.
pub open spec fn views_of(v: Seq<String>) -> Seq<Seq<char>> {
    v.map_values(|s: String| s@)
}

/// The character view of an optional string.
pub open spec fn opt_view(o: Option<String>) -> Option<Seq<char>> {
    match o {
        Some(s) => Some(s@),
        None => None,
    }
}

/// `results` holds one cancelled result per id of `ids`, in order.
pub open spec fn cancelled_results(results: Seq<ToolUseResult>, ids: Seq<Seq<char>>) -> bool {
    &&& results.len() == ids.len()
    &&& forall|i: int|
        0 <= i < ids.len() ==> {
            &&& (#[trigger] results[i]).tool_use_id@ == ids[i]
            &&& results[i].status == ToolResultStatus::Error
            &&& results[i].content@.len() == 1
            &&& results[i].content@[0] matches ToolUseResultBlock::Text(t) && t@
                == CANCELLED_TOOL_TEXT@
        }
}

/// The ids of a list of invocations.
pub open spec fn tool_use_ids(tool_uses: Seq<AssistantToolUse>) -> Seq<Seq<char>> {
    tool_uses.map_values(|t: AssistantToolUse| t.id@)
}

/// Saturating addition on character counts.
pub open spec fn sat(n: int) -> int {
    if n > usize::MAX {
        usize::MAX as int
    } else {
        n
    }
}

/// Number of characters in a list of result blocks.
pub open spec fn blocks_chars(b: Seq<ToolUseResultBlock>) -> int
    decreases b.len(),
{
    if b.len() == 0 {
        0
    } else {
        blocks_chars(b.drop_last()) + match b.last() {
            ToolUseResultBlock::Text(t) => t@.len(),
            ToolUseResultBlock::Json(t) => t@.len(),
        }
    }
}

/// Number of characters in a list of tool results.
pub open spec fn results_chars(r: Seq<ToolUseResult>) -> int
    decreases r.len(),
{
    if r.len() == 0 {
        0
    } else {
        results_chars(r.drop_last()) + blocks_chars(r.last().content@)
    }
}

/// Number of characters in a list of invocations: their names and arguments.
pub open spec fn tool_uses_chars(t: Seq<AssistantToolUse>) -> int
    decreases t.len(),
{
    if t.len() == 0 {
        0
    } else {
        tool_uses_chars(t.drop_last()) + t.last().name@.len() + t.last().args@.len()
    }
}

fn count_blocks_chars(b: &Vec<ToolUseResultBlock>) -> (r: usize)
    ensures
        r == sat(blocks_chars(b@)),
{
    let mut acc: usize = 0;
    let mut i: usize = 0;
    while i < b.len()
        invariant
            i <= b.len(),
            acc == sat(blocks_chars(b@.subrange(0, i as int))),
        decreases b.len() - i,
    {
        let n = match &b[i] {
            ToolUseResultBlock::Text(t) => t.as_str().unicode_len(),
            ToolUseResultBlock::Json(t) => t.as_str().unicode_len(),
        };
        assert(b@.subrange(0, i + 1).drop_last() == b@.subrange(0, i as int));
        acc = acc.saturating_add(n);
        i = i + 1;
    }
    assert(b@.subrange(0, b.len() as int) == b@);
    acc
}

fn count_results_chars(r: &Vec<ToolUseResult>) -> (n: usize)
    ensures
        n == sat(results_chars(r@)),
{
    let mut acc: usize = 0;
    let mut i: usize = 0;
    while i < r.len()
        invariant
            i <= r.len(),
            acc == sat(results_chars(r@.subrange(0, i as int))),
        decreases r.len() - i,
    {
        let n = count_blocks_chars(&r[i].content);
        assert(r@.subrange(0, i + 1).drop_last() == r@.subrange(0, i as int));
        acc = acc.saturating_add(n);
        i = i + 1;
    }
    assert(r@.subrange(0, r.len() as int) == r@);
    acc
}

fn count_tool_uses_chars(t: &Vec<AssistantToolUse>) -> (n: usize)
    ensures
        n == sat(tool_uses_chars(t@)),
{
    let mut acc: usize = 0;
    let mut i: usize = 0;
    while i < t.len()
        invariant
            i <= t.len(),
            acc == sat(tool_uses_chars(t@.subrange(0, i as int))),
        decreases t.len() - i,
    {
        let a = t[i].name.as_str().unicode_len();
        let b = t[i].args.as_str().unicode_len();
        assert(t@.subrange(0, i + 1).drop_last() == t@.subrange(0, i as int));
        acc = acc.saturating_add(a).saturating_add(b);
        i = i + 1;
    }
    assert(t@.subrange(0, t.len() as int) == t@);
    acc
}

/// Copies an optional string.
pub fn copy_opt_string(s: &Option<String>) -> (r: Option<String>)
    ensures
        r == *s,
{
    match s {
        Some(t) => Some(t.clone()),
        None => None,
    }
}

impl ToolUseResultBlock {
    pub fn duplicate(&self) -> (r: Self)
        ensures
            r == *self,
    {
        match self {
            ToolUseResultBlock::Text(t) => ToolUseResultBlock::Text(t.clone()),
            ToolUseResultBlock::Json(t) => ToolUseResultBlock::Json(t.clone()),
        }
    }
}

/// Two results agree on id, status and blocks.
pub open spec fn same_result(a: ToolUseResult, b: ToolUseResult) -> bool {
    a.tool_use_id == b.tool_use_id && a.status == b.status && a.content@ == b.content@
}

impl ToolUseResult {
    pub fn duplicate(&self) -> (r: Self)
        ensures
            same_result(r, *self),
    {
        let mut content: Vec<ToolUseResultBlock> = Vec::new();
        let mut i: usize = 0;
        while i < self.content.len()
            invariant
                i <= self.content.len(),
                content@ == self.content@.subrange(0, i as int),
            decreases self.content.len() - i,
        {
            content.push(self.content[i].duplicate());
            i = i + 1;
        }
        assert(self.content@.subrange(0, self.content.len() as int) == self.content@);
        ToolUseResult { tool_use_id: self.tool_use_id.clone(), content, status: self.status }
    }

    /// A cancelled result for the invocation `id`.
    pub fn cancelled(id: String) -> (r: Self)
        ensures
            r.tool_use_id == id,
            r.status == ToolResultStatus::Error,
            r.content@.len() == 1,
            r.content@[0] matches ToolUseResultBlock::Text(t) && t@ == CANCELLED_TOOL_TEXT@,
    {
        let mut content: Vec<ToolUseResultBlock> = Vec::new();
        content.push(ToolUseResultBlock::Text(String::from_str(CANCELLED_TOOL_TEXT)));
        ToolUseResult { tool_use_id: id, content, status: ToolResultStatus::Error }
    }
}

/// Copies a list of tool results.
pub fn copy_results(v: &Vec<ToolUseResult>) -> (r: Vec<ToolUseResult>)
    ensures
        r@.len() == v@.len(),
        forall|i: int| 0 <= i < v@.len() ==> same_result(#[trigger] r@[i], v@[i]),
{
    let mut r: Vec<ToolUseResult> = Vec::new();
    let mut i: usize = 0;
    while i < v.len()
        invariant
            i <= v.len(),
            r@.len() == i,
            forall|j: int| 0 <= j < i ==> same_result(#[trigger] r@[j], v@[j]),
        decreases v.len() - i,
    {
        r.push(v[i].duplicate());
        i = i + 1;
    }
    r
}

/// One cancelled result per id, in order.
pub fn cancelled_results_for(ids: Vec<String>) -> (r: Vec<ToolUseResult>)
    ensures
        cancelled_results(r@, views_of(ids@)),
{
    let mut r: Vec<ToolUseResult> = Vec::new();
    let mut i: usize = 0;
    while i < ids.len()
        invariant
            i <= ids.len(),
            cancelled_results(r@, views_of(ids@).subrange(0, i as int)),
        decreases ids.len() - i,
    {
        r.push(ToolUseResult::cancelled(ids[i].clone()));
        i = i + 1;
        assert forall|j: int| 0 <= j < i implies views_of(ids@).subrange(0, i as int)[j]
            == (#[trigger] r@[j]).tool_use_id@ by {
            if j < i - 1 {
                assert(views_of(ids@).subrange(0, i - 1)[j] == views_of(ids@).subrange(
                    0,
                    i as int,
                )[j]);
            }
        }
    }
    assert(views_of(ids@).subrange(0, ids.len() as int) == views_of(ids@));
    r
}

/// `b` is a copy of `a`: same context, prompt, variant, results and presence of images.
pub open spec fn same_user(a: UserMessage, b: UserMessage) -> bool {
    &&& b.additional_context == a.additional_context
    &&& b.prompt_view() == a.prompt_view()
    &&& (b.content is Prompt <==> a.content is Prompt)
    &&& (b.content is CancelledToolUses <==> a.content is CancelledToolUses)
    &&& b.results().len() == a.results().len()
    &&& forall|i: int| 0 <= i < a.results().len() ==> same_result(#[trigger] b.results()[i], a.results()[i])
    &&& (b.images is Some <==> a.images is Some)
}

/// `b` is a copy of `a`.
pub open spec fn same_assistant(a: AssistantMessage, b: AssistantMessage) -> bool {
    &&& b.message_id_view() == a.message_id_view()
    &&& b.content_view() == a.content_view()
    &&& (b is ToolUse <==> a is ToolUse)
    &&& b.invocations() == a.invocations()
}

fn copy_images(v: &Vec<ImageBlock>) -> (r: Vec<ImageBlock>) {
    let mut r: Vec<ImageBlock> = Vec::new();
    let mut i: usize = 0;
    while i < v.len()
        invariant
            i <= v.len(),
        decreases v.len() - i,
    {
        r.push(ImageBlock { format: v[i].format.clone(), bytes: v[i].bytes.clone() });
        i = i + 1;
    }
    r
}

impl UserMessage {
    /// A copy of the turn.
    pub fn duplicate(&self) -> (r: Self)
        ensures
            same_user(*self, r),
    {
        let content = match &self.content {
            UserMessageContent::Prompt { prompt } => UserMessageContent::Prompt {
                prompt: prompt.clone(),
            },
            UserMessageContent::CancelledToolUses { prompt, tool_use_results } => {
                UserMessageContent::CancelledToolUses {
                    prompt: prompt.clone(),
                    tool_use_results: copy_results(tool_use_results),
                }
            },
            UserMessageContent::ToolUseResults { tool_use_results } => {
                UserMessageContent::ToolUseResults { tool_use_results: copy_results(tool_use_results) }
            },
        };
        let images = match &self.images {
            Some(v) => Some(copy_images(v)),
            None => None,
        };
        UserMessage { additional_context: self.additional_context.clone(), content, images }
    }
}

impl UserMessage {
    /// The turn carries tool results.
    pub open spec fn has_results(self) -> bool {
        self.content is CancelledToolUses || self.content is ToolUseResults
    }

    /// The tool results the turn carries (empty for a plain prompt).
    pub open spec fn results(self) -> Seq<ToolUseResult> {
        match self.content {
            UserMessageContent::Prompt { .. } => Seq::empty(),
            UserMessageContent::CancelledToolUses { tool_use_results, .. } => tool_use_results@,
            UserMessageContent::ToolUseResults { tool_use_results } => tool_use_results@,
        }
    }

    /// The prompt text of the turn, if it has one.
    pub open spec fn prompt_view(self) -> Option<Seq<char>> {
        match self.content {
            UserMessageContent::Prompt { prompt } => Some(prompt@),
            UserMessageContent::CancelledToolUses { prompt, .. } => Some(prompt@),
            UserMessageContent::ToolUseResults { .. } => None,
        }
    }

    /// Characters the turn contributes to the context budget.
    pub open spec fn chars(self) -> int {
        sat(
            self.additional_context@.len() + match self.content {
                UserMessageContent::Prompt { prompt } => prompt@.len() as int,
                UserMessageContent::CancelledToolUses { prompt, tool_use_results } => sat(
                    prompt@.len() + sat(results_chars(tool_use_results@)),
                ),
                UserMessageContent::ToolUseResults { tool_use_results } => sat(
                    results_chars(tool_use_results@),
                ),
            },
        )
    }

    /// A plain prompt turn.
    pub fn new_prompt(prompt: String) -> (m: Self)
        ensures
            m.content == (UserMessageContent::Prompt { prompt }),
            m.additional_context@.len() == 0,
            m.images is None,
    {
        UserMessage {
            additional_context: String::new(),
            content: UserMessageContent::Prompt { prompt },
            images: None,
        }
    }

    /// A tool-results turn.
    pub fn new_tool_use_results(tool_use_results: Vec<ToolUseResult>) -> (m: Self)
        ensures
            m.content == (UserMessageContent::ToolUseResults { tool_use_results }),
            m.additional_context@.len() == 0,
            m.images is None,
    {
        UserMessage {
            additional_context: String::new(),
            content: UserMessageContent::ToolUseResults { tool_use_results },
            images: None,
        }
    }

    /// A tool-results turn with images.
    pub fn new_tool_use_results_with_images(
        tool_use_results: Vec<ToolUseResult>,
        images: Vec<ImageBlock>,
    ) -> (m: Self)
        ensures
            m.content == (UserMessageContent::ToolUseResults { tool_use_results }),
            m.additional_context@.len() == 0,
            m.images == Some(images),
    {
        UserMessage {
            additional_context: String::new(),
            content: UserMessageContent::ToolUseResults { tool_use_results },
            images: Some(images),
        }
    }

    /// A turn of cancelled results, one per id, explained by `prompt` or by the standard text.
    pub fn new_cancelled_tool_uses(prompt: Option<String>, ids: Vec<String>) -> (m: Self)
        ensures
            m.content is CancelledToolUses,
            m.prompt_view() == Some(
                match prompt {
                    Some(p) => p@,
                    None => CANCELLED_TOOL_TEXT@,
                },
            ),
            cancelled_results(m.results(), views_of(ids@)),
            m.additional_context@.len() == 0,
            m.images is None,
    {
        let prompt = match prompt {
            Some(p) => p,
            None => String::from_str(CANCELLED_TOOL_TEXT),
        };
        UserMessage {
            additional_context: String::new(),
            content: UserMessageContent::CancelledToolUses {
                prompt,
                tool_use_results: cancelled_results_for(ids),
            },
            images: None,
        }
    }

    pub fn has_tool_use_results(&self) -> (r: bool)
        ensures
            r == self.has_results(),
    {
        match &self.content {
            UserMessageContent::Prompt { .. } => false,
            _ => true,
        }
    }

    /// The tool results of the turn, if it carries any.
    pub fn tool_use_results(&self) -> (r: Option<&Vec<ToolUseResult>>)
        ensures
            r is Some == self.has_results(),
            r matches Some(v) ==> v@ == self.results(),
    {
        match &self.content {
            UserMessageContent::Prompt { .. } => None,
            UserMessageContent::CancelledToolUses { tool_use_results, .. } => Some(
                tool_use_results,
            ),
            UserMessageContent::ToolUseResults { tool_use_results } => Some(tool_use_results),
        }
    }

    /// The prompt text, if the turn has one.
    pub fn prompt(&self) -> (r: Option<&String>)
        ensures
            r is Some == self.prompt_view() is Some,
            r matches Some(p) ==> Some(p@) == self.prompt_view(),
    {
        match &self.content {
            UserMessageContent::Prompt { prompt } => Some(prompt),
            UserMessageContent::CancelledToolUses { prompt, .. } => Some(prompt),
            UserMessageContent::ToolUseResults { .. } => None,
        }
    }

    pub fn char_count(&self) -> (r: usize)
        ensures
            r == self.chars(),
    {
        let ctx = self.additional_context.as_str().unicode_len();
        let body = match &self.content {
            UserMessageContent::Prompt { prompt } => prompt.as_str().unicode_len(),
            UserMessageContent::CancelledToolUses { prompt, tool_use_results } => prompt.as_str().unicode_len().saturating_add(
                count_results_chars(tool_use_results),
            ),
            UserMessageContent::ToolUseResults { tool_use_results } => count_results_chars(
                tool_use_results,
            ),
        };
        ctx.saturating_add(body)
    }
}

impl AssistantToolUse {
    pub fn duplicate(&self) -> (r: Self)
        ensures
            r == *self,
    {
        AssistantToolUse {
            id: self.id.clone(),
            name: self.name.clone(),
            orig_name: self.orig_name.clone(),
            args: self.args.clone(),
            orig_args: self.orig_args.clone(),
        }
    }
}

/// Copies a list of invocations.
pub fn copy_tool_uses(v: &Vec<AssistantToolUse>) -> (r: Vec<AssistantToolUse>)
    ensures
        r@ == v@,
{
    let mut r: Vec<AssistantToolUse> = Vec::new();
    let mut i: usize = 0;
    while i < v.len()
        invariant
            i <= v.len(),
            r@ == v@.subrange(0, i as int),
        decreases v.len() - i,
    {
        r.push(v[i].duplicate());
        i = i + 1;
    }
    assert(v@.subrange(0, v.len() as int) == v@);
    r
}

/// The ids of a list of invocations, in order.
pub fn ids_of_tool_uses(v: &Vec<AssistantToolUse>) -> (r: Vec<String>)
    ensures
        views_of(r@) == tool_use_ids(v@),
{
    let mut r: Vec<String> = Vec::new();
    let mut i: usize = 0;
    while i < v.len()
        invariant
            i <= v.len(),
            r@.len() == i,
            forall|j: int| 0 <= j < i ==> (#[trigger] r@[j])@ == v@[j].id@,
        decreases v.len() - i,
    {
        r.push(v[i].id.clone());
        i = i + 1;
    }
    assert(views_of(r@) =~= tool_use_ids(v@));
    r
}

impl AssistantMessage {
    /// The invocations of the turn (empty for a plain response).
    pub open spec fn invocations(self) -> Seq<AssistantToolUse> {
        match self {
            AssistantMessage::Response { .. } => Seq::empty(),
            AssistantMessage::ToolUse { tool_uses, .. } => tool_uses@,
        }
    }

    pub open spec fn content_view(self) -> Seq<char> {
        match self {
            AssistantMessage::Response { content, .. } => content@,
            AssistantMessage::ToolUse { content, .. } => content@,
        }
    }

    pub open spec fn message_id_view(self) -> Option<String> {
        match self {
            AssistantMessage::Response { message_id, .. } => message_id,
            AssistantMessage::ToolUse { message_id, .. } => message_id,
        }
    }

    /// Characters the turn contributes to the context budget.
    pub open spec fn chars(self) -> int {
        match self {
            AssistantMessage::Response { content, .. } => content@.len() as int,
            AssistantMessage::ToolUse { content, tool_uses, .. } => sat(
                content@.len() + sat(tool_uses_chars(tool_uses@)),
            ),
        }
    }

    /// A plain response turn.
    pub fn new_response(message_id: Option<String>, content: String) -> (m: Self)
        ensures
            m == (AssistantMessage::Response { message_id, content }),
    {
        AssistantMessage::Response { message_id, content }
    }

    /// A tool-use turn.
    pub fn new_tool_use(
        message_id: Option<String>,
        content: String,
        tool_uses: Vec<AssistantToolUse>,
    ) -> (m: Self)
        ensures
            m == (AssistantMessage::ToolUse { message_id, content, tool_uses }),
    {
        AssistantMessage::ToolUse { message_id, content, tool_uses }
    }

    pub fn content(&self) -> (r: &String)
        ensures
            r@ == self.content_view(),
    {
        match self {
            AssistantMessage::Response { content, .. } => content,
            AssistantMessage::ToolUse { content, .. } => content,
        }
    }

    pub fn message_id(&self) -> (r: Option<&String>)
        ensures
            r matches Some(s) ==> self.message_id_view() == Some(*s),
            r is None ==> self.message_id_view() is None,
    {
        match self {
            AssistantMessage::Response { message_id, .. } => message_id.as_ref(),
            AssistantMessage::ToolUse { message_id, .. } => message_id.as_ref(),
        }
    }

    /// The invocations of the turn, if it is a tool-use turn.
    pub fn tool_uses(&self) -> (r: Option<&Vec<AssistantToolUse>>)
        ensures
            r is Some == self is ToolUse,
            r matches Some(v) ==> v@ == self.invocations(),
    {
        match self {
            AssistantMessage::Response { .. } => None,
            AssistantMessage::ToolUse { tool_uses, .. } => Some(tool_uses),
        }
    }

    /// A copy of the turn.
    pub fn duplicate(&self) -> (r: Self)
        ensures
            same_assistant(*self, r),
    {
        match self {
            AssistantMessage::Response { message_id, content } => AssistantMessage::Response {
                message_id: copy_opt_string(message_id),
                content: content.clone(),
            },
            AssistantMessage::ToolUse { message_id, content, tool_uses } => AssistantMessage::ToolUse {
                message_id: copy_opt_string(message_id),
                content: content.clone(),
                tool_uses: copy_tool_uses(tool_uses),
            },
        }
    }

    pub fn char_count(&self) -> (r: usize)
        ensures
            r == self.chars(),
    {
        match self {
            AssistantMessage::Response { content, .. } => content.as_str().unicode_len(),
            AssistantMessage::ToolUse { content, tool_uses, .. } => content.as_str().unicode_len().saturating_add(
                count_tool_uses_chars(tool_uses),
            ),
        }
    }
}

} // verus!

verus! {

/// The text of a result block; a structured block is its JSON text.
pub open spec fn block_text(b: ToolUseResultBlock) -> Seq<char> {
    match b {
        ToolUseResultBlock::Text(t) => t@,
        ToolUseResultBlock::Json(t) => t@,
    }
}

/// The texts of all blocks of `r`, in order.
pub open spec fn block_texts(r: Seq<ToolUseResult>) -> Seq<Seq<char>>
    decreases r.len(),
{
    if r.len() == 0 {
        Seq::empty()
    } else {
        block_texts(r.drop_last()) + r.last().content@.map_values(|b: ToolUseResultBlock| block_text(b))
    }
}

/// `parts` joined by single spaces.
pub open spec fn joined_with_spaces(parts: Seq<Seq<char>>) -> Seq<char>
    decreases parts.len(),
{
    if parts.len() == 0 {
        Seq::empty()
    } else if parts.len() == 1 {
        parts[0]
    } else {
        joined_with_spaces(parts.drop_last()) + " "@ + parts.last()
    }
}

/// Block `b` is block `a` with its text, if plain, cut to `max` characters.
pub open spec fn truncated_block(a: ToolUseResultBlock, b: ToolUseResultBlock, max: nat) -> bool {
    match a {
        ToolUseResultBlock::Text(t) => b matches ToolUseResultBlock::Text(u) && u@ == first_chars(
            t@,
            max,
        ),
        ToolUseResultBlock::Json(_) => b == a,
    }
}

/// Result `b` is result `a` with its plain text blocks cut to `max` characters.
pub open spec fn truncated_result(a: ToolUseResult, b: ToolUseResult, max: nat) -> bool {
    &&& b.tool_use_id == a.tool_use_id
    &&& b.status == a.status
    &&& b.content@.len() == a.content@.len()
    &&& forall|k: int|
        0 <= k < a.content@.len() ==> truncated_block(a.content@[k], #[trigger] b.content@[k], max)
}

/// Turn `b` is turn `a` with its prompt and plain result texts cut to `max` characters.
pub open spec fn truncated_user(a: UserMessage, b: UserMessage, max: nat) -> bool {
    &&& b.additional_context == a.additional_context
    &&& b.images == a.images
    &&& (b.content is Prompt <==> a.content is Prompt)
    &&& (b.content is CancelledToolUses <==> a.content is CancelledToolUses)
    &&& b.prompt_view() == match a.prompt_view() {
        Some(p) => Some(first_chars(p, max)),
        None => None,
    }
    &&& b.results().len() == a.results().len()
    &&& forall|i: int|
        0 <= i < a.results().len() ==> truncated_result(a.results()[i], #[trigger] b.results()[i], max)
}

fn truncate_result(r: ToolUseResult, max: usize) -> (t: ToolUseResult)
    ensures
        truncated_result(r, t, max as nat),
{
    let ghost orig = r.content@;
    let mut rest = r.content;
    let mut out: Vec<ToolUseResultBlock> = Vec::new();
    while rest.len() > 0
        invariant
            out@.len() + rest@.len() == orig.len(),
            rest@ == orig.subrange(out@.len() as int, orig.len() as int),
            forall|k: int| 0 <= k < out@.len() ==> truncated_block(orig[k], #[trigger] out@[k], max as nat),
        decreases rest.len(),
    {
        let b = rest.remove(0);
        assert(b == orig[out@.len() as int]);
        let nb = match b {
            ToolUseResultBlock::Text(t) => ToolUseResultBlock::Text(take_chars(t.as_str(), max)),
            ToolUseResultBlock::Json(t) => ToolUseResultBlock::Json(t),
        };
        out.push(nb);
        assert(rest@ =~= orig.subrange(out@.len() as int, orig.len() as int));
    }
    ToolUseResult { tool_use_id: r.tool_use_id, content: out, status: r.status }
}

fn truncate_results(v: Vec<ToolUseResult>, max: usize) -> (t: Vec<ToolUseResult>)
    ensures
        t@.len() == v@.len(),
        forall|i: int| 0 <= i < v@.len() ==> truncated_result(v@[i], #[trigger] t@[i], max as nat),
{
    let ghost orig = v@;
    let mut rest = v;
    let mut out: Vec<ToolUseResult> = Vec::new();
    while rest.len() > 0
        invariant
            out@.len() + rest@.len() == orig.len(),
            rest@ == orig.subrange(out@.len() as int, orig.len() as int),
            forall|i: int| 0 <= i < out@.len() ==> truncated_result(orig[i], #[trigger] out@[i], max as nat),
        decreases rest.len(),
    {
        let r = rest.remove(0);
        assert(r == orig[out@.len() as int]);
        out.push(truncate_result(r, max));
        assert(rest@ =~= orig.subrange(out@.len() as int, orig.len() as int));
    }
    out
}

impl UserMessage {
    /// The turn with its prompt and plain result texts cut to `max` characters.
    pub fn truncate_safe(self, max: usize) -> (r: Self)
        ensures
            truncated_user(self, r, max as nat),
    {
        let content = match self.content {
            UserMessageContent::Prompt { prompt } => UserMessageContent::Prompt {
                prompt: take_chars(prompt.as_str(), max),
            },
            UserMessageContent::CancelledToolUses { prompt, tool_use_results } => {
                UserMessageContent::CancelledToolUses {
                    prompt: take_chars(prompt.as_str(), max),
                    tool_use_results: truncate_results(tool_use_results, max),
                }
            },
            UserMessageContent::ToolUseResults { tool_use_results } => {
                UserMessageContent::ToolUseResults {
                    tool_use_results: truncate_results(tool_use_results, max),
                }
            },
        };
        UserMessage { additional_context: self.additional_context, content, images: self.images }
    }
}

/// The texts of all blocks of `results`, in order.
pub fn result_block_texts(results: &Vec<ToolUseResult>) -> (r: Vec<String>)
    ensures
        views_of(r@) == block_texts(results@),
{
    let mut r: Vec<String> = Vec::new();
    let mut i: usize = 0;
    while i < results.len()
        invariant
            i <= results.len(),
            views_of(r@) == block_texts(results@.subrange(0, i as int)),
        decreases results.len() - i,
    {
        let ghost before = views_of(r@);
        let blocks = &results[i].content;
        let mut j: usize = 0;
        while j < blocks.len()
            invariant
                j <= blocks.len(),
                blocks == &results@[i as int].content,
                views_of(r@) == before + blocks@.subrange(0, j as int).map_values(
                    |b: ToolUseResultBlock| block_text(b),
                ),
            decreases blocks.len() - j,
        {
            let t = match &blocks[j] {
                ToolUseResultBlock::Text(t) => t.clone(),
                ToolUseResultBlock::Json(t) => t.clone(),
            };
            let ghost rv = views_of(r@);
            assert(t@ == block_text(blocks@[j as int]));
            r.push(t);
            assert(views_of(r@) =~= rv.push(t@));
            assert(blocks@.subrange(0, j + 1).map_values(|b: ToolUseResultBlock| block_text(b))
                =~= blocks@.subrange(0, j as int).map_values(|b: ToolUseResultBlock| block_text(b)).push(
                block_text(blocks@[j as int]),
            ));
            j = j + 1;
            assert(views_of(r@) =~= before + blocks@.subrange(0, j as int).map_values(
                |b: ToolUseResultBlock| block_text(b),
            ));
        }
        assert(blocks@.subrange(0, blocks.len() as int) == blocks@);
        assert(results@.subrange(0, i + 1).drop_last() == results@.subrange(0, i as int));
        i = i + 1;
    }
    assert(results@.subrange(0, results.len() as int) == results@);
    r
}

/// `parts` joined by single spaces.
pub fn join_with_spaces(parts: &Vec<String>) -> (r: String)
    ensures
        r@ == joined_with_spaces(views_of(parts@)),
{
    let mut r = String::new();
    let mut i: usize = 0;
    while i < parts.len()
        invariant
            i <= parts.len(),
            r@ == joined_with_spaces(views_of(parts@.subrange(0, i as int))),
        decreases parts.len() - i,
    {
        assert(views_of(parts@.subrange(0, i + 1)).drop_last() == views_of(
            parts@.subrange(0, i as int),
        ));
        if i > 0 {
            r.append(" ");
        }
        r.append(parts[i].as_str());
        i = i + 1;
    }
    assert(parts@.subrange(0, parts.len() as int) == parts@);
    r
}

} // verus!
