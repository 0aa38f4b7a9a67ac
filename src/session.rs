//! The turn state machine. Each step that the chat loop takes is a decision function here: it
//! receives the current session and what the outside world produced (a line of input, a stream
//! event, a permission verdict, an error) and returns the next state and what to do next. The
//! caller performs the I/O in between.
use crate::conversation::{ConversationError, ConversationState, Prompt};
use crate::input::{
    first_word_is_path, shell_words, split_words, starts_with_char, strip_char_prefix,
    strip_first_char, words_reference_path, words_view,
};
use crate::message::EMPTY_PROMPT_TEXT;
use crate::message::{
    AssistantMessage, AssistantToolUse, ImageBlock, ToolResultStatus, ToolUseResult,
    ToolUseResultBlock, UserMessageContent,
};
use crate::tools::{PermissionEvalResult, QueuedTool, Tool};
use crate::wire::ConversationRequest;
use vstd::prelude::*;

verus! {

/// The first question of a resumed conversation when none is given.
pub const RESUME_PROMPT_TEXT: &'static str = "In a few words, summarize our conversation so far.";

/// Assistant text recorded when the backend took too long.
pub const RESPONSE_TIMEOUT_CONTENT: &'static str =
    "Response timed out - message took too long to generate";

/// Instruction sent after a timeout.
pub const TIMEOUT_RETRY_PROMPT: &'static str =
    "You took too long to respond - try to split up the work into smaller steps.";

/// Tool result sent for an invocation cut off by the end of the stream.
pub const TOOL_TOO_LARGE_TEXT: &'static str =
    "The generated tool was too large, try again but this time split up the work between multiple tool uses";

/// Reason given for tools abandoned by an interrupt.
pub const INTERRUPTED_TOOLS_TEXT: &'static str = "The user interrupted the tool execution.";

/// Assistant reply recorded after tools were abandoned by an interrupt.
pub const INTERRUPTED_REPLY_TEXT: &'static str =
    "Tool uses were interrupted, waiting for the next user prompt";

/// Prompt sent when the user denies a tool with a bare "n".
pub const DENY_PROMPT_TEXT: &'static str =
    "I deny this tool request. Ask a follow up question clarifying the expected action";

/// Context of a reported backend failure.
pub const TROUBLE_TEXT: &'static str = "Amazon Q is having trouble responding right now";

/// Context of a reported interrupt.
pub const INTERRUPTED_CONTEXT: &'static str = "Tool use was interrupted";

/// Context of a reported compaction failure.
pub const COMPACT_FAILURE_CONTEXT: &'static str = "Unable to compact the conversation history";

/// Stands for a missing utterance id while retrying tool uses.
pub const NO_UTTERANCE_ID: &'static str = "No utterance id found";

/// Marks the start of the assistant's text in the rendered response.
pub const RESPONSE_PREFIX: &'static str = "`>` ";

/// Start of the explanation for a tool that a permission rule forbids.
pub const REJECTED_TOOL_HEAD: &'static str = "Tool use with ";

/// End of the explanation for a tool that a permission rule forbids.
pub const REJECTED_TOOL_TAIL: &'static str = " was rejected because the arguments supplied were forbidden";

/// Start of the result for a failed tool execution.
pub const TOOL_FAILURE_HEAD: &'static str = "An error occurred processing the tool: \n";

/// Result for a valid tool that was not run because another tool of its turn failed validation.
pub const VALIDATION_SKIPPED_TEXT: &'static str =
    "Tool use was not executed because another tool use in the same response failed validation";

/// Start of the result for a tool whose arguments failed validation.
pub const TOOL_VALIDATION_HEAD: &'static str = "Failed to validate tool parameters: ";

/// Text recorded when the selected model is overloaded.
pub const MODEL_OVERLOADED_TEXT: &'static str =
    "The model you've selected is temporarily unavailable. Please use '/model' to select a different model and try again.";

/// The chat execution state.
#[derive(Debug)]
pub enum ChatState {
    /// Prompt the user, with the pending tool approval if there is one.
    PromptUser { skip_printing_tools: bool },
    /// Handle a line of user input.
    HandleInput { input: String },
    /// Validate the invocations the backend requested.
    ValidateTools(Vec<AssistantToolUse>),
    /// Execute the queued tools.
    ExecuteTools,
    /// Consume the response stream of the request in flight.
    HandleResponseStream,
    /// Compact the history.
    CompactHistory {
        prompt: Option<String>,
        show_summary: bool,
        /// Whether to truncate large messages and retry once if compaction overflows.
        attempt_truncated_compact_retry: bool,
    },
    /// Leave the chat.
    Exit,
}

impl Default for ChatState {
    fn default() -> (r: Self)
        ensures
            r == (ChatState::PromptUser { skip_printing_tools: false }),
    {
        ChatState::PromptUser { skip_printing_tools: false }
    }
}

/// Whether tool uses are a first attempt or a retry after a failure.
#[derive(Debug, Clone)]
pub enum ToolUseStatus {
    Idle,
    /// Retrying for the utterance with this id.
    RetryInProgress(String),
}

/// Failures reported by the backend client.
#[derive(Debug)]
pub enum ApiError {
    ContextWindowOverflow,
    QuotaBreach { message: String },
    ModelOverloaded { request_id: Option<String> },
    MonthlyLimitReached,
    Other { message: String },
}

/// Failures while consuming a response stream.
#[derive(Debug)]
pub enum StreamError {
    Timeout,
    /// The stream ended in the middle of a tool use; `message` is what was received.
    UnexpectedToolUseEos { tool_use_id: String, name: String, message: AssistantMessage },
    Other { message: String },
}

/// Errors of a chat step.
#[derive(Debug)]
pub enum ChatError {
    Client(ApiError),
    ResponseStream(StreamError),
    Std(String),
    Readline(String),
    Auth(String),
    Custom(String),
    Interrupted { tool_uses: Option<Vec<QueuedTool>> },
    GetPromptError(String),
    NonInteractiveToolApproval,
    CompactHistoryFailure,
    Conversation(ConversationError),
}

/// What the loop does after an error was handled.
#[derive(Debug)]
pub enum ErrorHandling {
    /// The next state is set; nothing is reported.
    Recovered,
    /// Report the error under `context` (print it when `display`); the user is prompted next.
    Reported { context: String, display: bool },
}

/// What to do before reading a line.
#[derive(Debug, Clone, Copy, PartialEq, Eq, Structural)]
pub enum PromptGate {
    ReadInput,
    Exit,
    NonInteractiveToolApproval,
}

/// What the loop does with a line of input.
#[derive(Debug)]
pub enum InputAction {
    /// Continue in this state.
    Next(ChatState),
    /// Run a slash command with these arguments.
    SlashCommand { args: Vec<String> },
    /// Fetch the prompt `name` from an MCP server.
    PromptCommand { orig_input: String, name: String, arguments: Option<Vec<String>> },
    /// Run a shell command.
    ShellCommand { command: String },
    /// The pending tool was approved; when `trust`, trust it for the session. Execute next.
    ApproveTool { trust: bool },
    /// The pending message is set: send it.
    Send,
}

/// How compaction starts.
#[derive(Debug)]
pub enum CompactionStart {
    /// Nothing to compact: continue in this state.
    Skip(ChatState),
    /// Send this summary request.
    Send(ConversationRequest),
}

/// How compaction ends.
#[derive(Debug)]
pub enum CompactionEnd {
    /// Send this request for the pending message.
    Resend(ConversationRequest),
    /// Continue in this state.
    Prompt(ChatState),
}

/// The outcome of executing one tool.
#[derive(Debug)]
pub enum ToolOutcome {
    Success { output: ToolUseResultBlock, images: Vec<ImageBlock> },
    Failure { message: String },
}

/// The outcome of validating one requested invocation.
#[derive(Debug)]
pub struct ToolCheck {
    pub id: String,
    pub name: String,
    pub outcome: Result<Tool, String>,
}

/// What follows validation.
#[derive(Debug, Clone, Copy, PartialEq, Eq, Structural)]
pub enum ValidationOutcome {
    /// Validation errors were recorded as tool results: send them.
    Resend,
    /// All invocations are queued: execute them.
    Execute,
}

/// One event of a response stream.
#[derive(Debug)]
pub enum ResponseEvent {
    ToolUseStart { name: String },
    AssistantText(String),
    ToolUse(AssistantToolUse),
    EndStream { message: AssistantMessage },
}

/// What has been received of a response stream so far.
#[derive(Debug)]
pub struct StreamAccumulator {
    /// Text to render; rendering consumes a prefix of it.
    pub buf: String,
    pub response_prefix_printed: bool,
    pub tool_uses: Vec<AssistantToolUse>,
    pub tool_name_being_recvd: Option<String>,
    pub ended: bool,
}

/// The state of one chat session.
#[derive(Debug)]
pub struct ChatSession {
    pub conversation: ConversationState,
    pub tool_uses: Vec<QueuedTool>,
    pub pending_tool_index: Option<usize>,
    pub tool_use_status: ToolUseStatus,
    pub pending_prompts: Vec<Prompt>,
    pub interactive: bool,
    pub trust_all_tools: bool,
    pub inner: Option<ChatState>,
    pub last_tool_use: Option<(String, String)>,
    pub spinner_active: bool,
    /// The session continues a saved conversation.
    pub existing_conversation: bool,
}

/// The first unaccepted tool, from `i` on, that must stop execution: one that is denied, or
/// that needs approval while not every tool is trusted.
pub open spec fn blocking_index(
    tools: Seq<QueuedTool>,
    perms: Seq<PermissionEvalResult>,
    trust_all: bool,
    i: int,
) -> Option<int>
    decreases tools.len() - i,
{
    if i < 0 || i >= tools.len() {
        None
    } else if !tools[i].accepted && (perms[i] == PermissionEvalResult::Deny || (perms[i]
        == PermissionEvalResult::Ask && !trust_all)) {
        Some(i)
    } else {
        blocking_index(tools, perms, trust_all, i + 1)
    }
}

/// `t` keeps the ids, names and tools of `o`.
pub open spec fn same_queue(o: Seq<QueuedTool>, t: Seq<QueuedTool>) -> bool {
    &&& t.len() == o.len()
    &&& forall|i: int|
        0 <= i < o.len() ==> (#[trigger] t[i]).id == o[i].id && t[i].name == o[i].name && t[i].tool
            == o[i].tool
}

/// The status line for a state.
pub open spec fn status_text(s: ChatSession, state: ChatState) -> Seq<char> {
    match state {
        ChatState::PromptUser { .. } if s.pending_tool_index is Some => "waiting for tool approval"@,
        ChatState::ExecuteTools => if s.tool_uses@.len() > 0 {
            match s.tool_uses@[0].tool {
                Tool::ExecuteCommand { summary: Some(sm), .. } => "Running "@ + s.tool_uses@[0].name@
                    + ": "@ + sm@,
                _ => "Running "@ + s.tool_uses@[0].name@,
            }
        } else {
            "executing tool"@
        },
        ChatState::ValidateTools(_) => "validating tools"@,
        ChatState::HandleResponseStream => "generating response"@,
        ChatState::CompactHistory { .. } => "compacting history"@,
        _ => match s.tool_use_status {
            ToolUseStatus::RetryInProgress(_) => "retrying tool use"@,
            ToolUseStatus::Idle => if s.spinner_active {
                match s.last_tool_use {
                    Some((name, summary)) => if summary@.len() > 0 {
                        "Processing results from "@ + name@ + ": "@ + summary@
                    } else {
                        "Processing results from "@ + name@
                    },
                    None => "generating response"@,
                }
            } else if s.conversation.next_message_spec() is Some {
                "processing request"@
            } else {
                "waiting for user input"@
            },
        },
    }
}

/// Checks whether a line references a file rather than a slash command: it starts with a slash
/// and its first word holds a path separator or a dot. Returns the input to handle instead.
pub fn does_input_reference_file(input: &str) -> (r: Option<ChatState>)
    ensures
        (starts_with_char(input@, '/') && first_word_is_path(shell_words(input@.drop_first())))
            ==> (r matches Some(ChatState::HandleInput { input: i }) && i@ == input@.drop_first()),
        !(starts_with_char(input@, '/') && first_word_is_path(shell_words(input@.drop_first())))
            ==> r is None,
{
    let after_slash = match strip_char_prefix(input, '/') {
        Some(a) => a,
        None => {
            return None;
        },
    };
    let words = split_words(after_slash.as_str());
    if words_reference_path(&words) {
        Some(ChatState::HandleInput { input: after_slash })
    } else {
        None
    }
}

impl ChatSession {
    /// A session. When resuming and `previous` (the conversation saved for this directory) has
    /// history, it continues that conversation: its tool names are resolved against the catalog
    /// of `fresh`, and it starts by handling `initial_input`, or by asking for a summary of the
    /// conversation so far. Otherwise it starts `fresh`, handling `initial_input` when given.
    pub fn new(
        fresh: ConversationState,
        previous: Option<ConversationState>,
        resume_conversation: bool,
        interactive: bool,
        trust_all_tools: bool,
        initial_input: Option<String>,
    ) -> (s: Self)
        requires
            fresh.wf(),
            previous matches Some(p) ==> p.wf(),
        ensures
            s.conversation.wf(),
            s.interactive == interactive,
            s.trust_all_tools == trust_all_tools,
            s.tool_uses@.len() == 0,
            s.pending_tool_index is None,
            s.tool_use_status is Idle,
            ({
                let resumed = resume_conversation && (previous matches Some(p) && p.history_spec().len() > 0);
                &&& s.existing_conversation == resumed
                &&& resumed ==> {
                    let p = previous->0;
                    &&& s.conversation.tools_spec() == fresh.tools_spec()
                    &&& crate::conversation::resolved_history(
                        p.history_spec(),
                        s.conversation.history_spec(),
                        crate::conversation::catalog_names(fresh.tools_spec()),
                    )
                    &&& s.conversation.next_message_spec() == p.next_message_spec()
                    &&& s.conversation.latest_summary_spec() == p.latest_summary_spec()
                    &&& s.conversation.conversation_id_spec() == p.conversation_id_spec()
                    &&& (s.inner matches Some(ChatState::HandleInput { input }) && input@ == match initial_input {
                        Some(i) => i@,
                        None => RESUME_PROMPT_TEXT@,
                    })
                }
                &&& !resumed ==> {
                    &&& s.conversation == fresh
                    &&& match initial_input {
                        Some(i) => s.inner == Some(ChatState::HandleInput { input: i }),
                        None => s.inner == Some(ChatState::PromptUser { skip_printing_tools: false }),
                    }
                }
            }),
    {
        let resumable = match &previous {
            Some(p) => resume_conversation && p.history().len() > 0,
            None => false,
        };
        let (conversation, inner) = if resumable {
            match previous {
                Some(p) => {
                    let mut p = p;
                    let tools = crate::wire::copy_tools(fresh.tools());
                    p.update_state(Some(tools));
                    let input = match initial_input {
                        Some(i) => i,
                        None => String::from_str(RESUME_PROMPT_TEXT),
                    };
                    (p, ChatState::HandleInput { input })
                },
                None => (fresh, ChatState::PromptUser { skip_printing_tools: false }),
            }
        } else {
            let inner = match initial_input {
                Some(i) => ChatState::HandleInput { input: i },
                None => ChatState::PromptUser { skip_printing_tools: false },
            };
            (fresh, inner)
        };
        ChatSession {
            conversation,
            tool_uses: Vec::new(),
            pending_tool_index: None,
            tool_use_status: ToolUseStatus::Idle,
            pending_prompts: Vec::new(),
            interactive,
            trust_all_tools,
            inner: Some(inner),
            last_tool_use: None,
            spinner_active: false,
            existing_conversation: resumable,
        }
    }

    /// Before prompting: a non-interactive session exits when no tool awaits approval, and
    /// fails when one does.
    pub fn prompt_gate(&self) -> (r: PromptGate)
        ensures
            r == if self.interactive {
                PromptGate::ReadInput
            } else if self.tool_uses@.len() == 0 {
                PromptGate::Exit
            } else {
                PromptGate::NonInteractiveToolApproval
            },
    {
        if self.interactive {
            PromptGate::ReadInput
        } else if self.tool_uses.len() == 0 {
            PromptGate::Exit
        } else {
            PromptGate::NonInteractiveToolApproval
        }
    }

    /// After reading: end of input exits; a line is recorded in the transcript and handled.
    pub fn on_user_line(&mut self, line: Option<String>) -> (r: ChatState)
        requires
            old(self).conversation.wf(),
        ensures
            final(self).conversation.wf(),
            match line {
                Some(l) => r == ChatState::HandleInput { input: l },
                None => r == ChatState::Exit,
            },
    {
        match line {
            Some(l) => {
                self.conversation.append_user_transcript(l.as_str());
                ChatState::HandleInput { input: l }
            },
            None => ChatState::Exit,
        }
    }

    /// The status line shown to an external listener.
    pub fn get_current_status(&self, current_state: &ChatState) -> (r: String)
        ensures
            r@ == status_text(*self, *current_state),
    {
        match current_state {
            ChatState::PromptUser { .. } => {
                if self.pending_tool_index.is_some() {
                    return String::from_str("waiting for tool approval");
                }
            },
            ChatState::ExecuteTools => {
                if self.tool_uses.len() > 0 {
                    let tool = &self.tool_uses[0];
                    let mut s = String::from_str("Running ");
                    s.append(tool.name.as_str());
                    match &tool.tool {
                        Tool::ExecuteCommand { summary: Some(sm), .. } => {
                            s.append(": ");
                            s.append(sm.as_str());
                        },
                        _ => {},
                    }
                    return s;
                } else {
                    return String::from_str("executing tool");
                }
            },
            ChatState::ValidateTools(_) => {
                return String::from_str("validating tools");
            },
            ChatState::HandleResponseStream => {
                return String::from_str("generating response");
            },
            ChatState::CompactHistory { .. } => {
                return String::from_str("compacting history");
            },
            _ => {},
        }
        match &self.tool_use_status {
            ToolUseStatus::RetryInProgress(_) => String::from_str("retrying tool use"),
            ToolUseStatus::Idle => {
                if self.spinner_active {
                    match &self.last_tool_use {
                        Some((name, summary)) => {
                            let mut s = String::from_str("Processing results from ");
                            s.append(name.as_str());
                            if summary.as_str().unicode_len() > 0 {
                                s.append(": ");
                                s.append(summary.as_str());
                            }
                            s
                        },
                        None => String::from_str("generating response"),
                    }
                } else if self.conversation.next_user_message().is_some() {
                    String::from_str("processing request")
                } else {
                    String::from_str("waiting for user input")
                }
            },
        }
    }
}

} // verus!

verus! {

/// The user turn recorded for tools abandoned by an interrupt: one cancelled result per queued
/// tool, ids in order, explained by the interruption.
pub open spec fn interrupted_turn(u: crate::message::UserMessage, tools: Seq<QueuedTool>) -> bool {
    &&& u.content is CancelledToolUses
    &&& u.prompt_view() == Some(INTERRUPTED_TOOLS_TEXT@)
    &&& crate::message::cancelled_results(u.results(), crate::tools::queued_ids(tools))
}

/// The text recorded when the selected model is overloaded.
pub open spec fn model_overloaded_text(request_id: Option<String>) -> Seq<char> {
    MODEL_OVERLOADED_TEXT@ + match request_id {
        Some(id) => "\n    Request ID: "@ + id@,
        None => Seq::empty(),
    } + "\n\n"@
}

impl ChatSession {
    /// Handles an error of a step. A context-window overflow moves to compaction and a
    /// monthly limit back to the prompt, both without a report. Every other error is reported
    /// and leaves the pending message dropped, invariants enforced and the user prompted; an
    /// interrupt during tool work first records the queued tools as cancelled, with the
    /// interruption as the assistant's reply, so the next request stays valid.
    pub fn handle_error(&mut self, err: ChatError) -> (r: ErrorHandling)
        requires
            old(self).conversation.wf(),
        ensures
            final(self).conversation.wf(),
            match err {
                ChatError::Client(ApiError::ContextWindowOverflow) => r is Recovered
                    && final(self).inner == Some(
                    ChatState::CompactHistory {
                        prompt: None,
                        show_summary: false,
                        attempt_truncated_compact_retry: true,
                    },
                ),
                ChatError::Client(ApiError::MonthlyLimitReached) => r is Recovered
                    && final(self).inner == Some(ChatState::PromptUser { skip_printing_tools: false }),
                _ => {
                    &&& final(self).inner == Some(ChatState::PromptUser { skip_printing_tools: false })
                    &&& final(self).pending_tool_index is None
                    &&& final(self).conversation.next_message_spec() is None
                    &&& r matches ErrorHandling::Reported { context, display } && match err {
                        ChatError::Interrupted { .. } => context@ == INTERRUPTED_CONTEXT@ && !display,
                        ChatError::CompactHistoryFailure => context@ == COMPACT_FAILURE_CONTEXT@
                            && display,
                        ChatError::Client(ApiError::QuotaBreach { message }) => context == message
                            && display,
                        _ => context@ == TROUBLE_TEXT@ && display,
                    }
                },
            },
            (err matches ChatError::Interrupted { tool_uses: Some(t) } && t@.len() > 0) ==> {
                let h = final(self).conversation.history_spec();
                &&& h.len() > 0
                &&& h.last().1 matches AssistantMessage::Response { content, message_id }
                    && content@ == INTERRUPTED_REPLY_TEXT@ && message_id is None
            },
            (err matches ChatError::Interrupted { tool_uses: Some(t) } && t@.len() > 0
                && !crate::conversation::history_collapses(old(self).conversation.history_spec()))
                ==> interrupted_turn(final(self).conversation.history_spec().last().0, err->tool_uses->0@),
            (err matches ChatError::Client(ApiError::ContextWindowOverflow) || err matches ChatError::Client(
                ApiError::MonthlyLimitReached,
            )) ==> final(self).conversation == old(self).conversation,
    {
        let ghost g = err;
        let (context, display) = match err {
            ChatError::Interrupted { tool_uses } => {
                match tool_uses {
                    Some(tools) => {
                        if tools.len() > 0 {
                            self.conversation.abandon_tool_use(
                                &tools,
                                String::from_str(INTERRUPTED_TOOLS_TEXT),
                            );
                            let no_hooks: Vec<(crate::conversation::Hook, String)> = Vec::new();
                            let no_files: Vec<(String, String)> = Vec::new();
                            let ghost o1 = self.conversation;
                            let sent = self.conversation.as_sendable_conversation_state(
                                false,
                                &no_hooks,
                                &no_files,
                                Vec::new(),
                            );
                            proof {
                                if !crate::conversation::history_collapses(o1.history_spec()) {
                                    let e = choose|e: ConversationState|
                                        #[trigger] crate::conversation::enforce_post(o1, e)
                                            && crate::conversation::kept_after_enforcing(
                                            e,
                                            self.conversation,
                                            false && o1.current_profile_spec() is Some,
                                            no_hooks@,
                                        );
                                    assert(e.next_message_spec() == o1.next_message_spec());
                                }
                            }
                            let _ = self.conversation.push_assistant_message(
                                AssistantMessage::new_response(
                                    None,
                                    String::from_str(INTERRUPTED_REPLY_TEXT),
                                ),
                            );
                        }
                    },
                    None => {},
                }
                (String::from_str(INTERRUPTED_CONTEXT), false)
            },
            ChatError::CompactHistoryFailure => (String::from_str(COMPACT_FAILURE_CONTEXT), true),
            ChatError::Client(api) => match api {
                ApiError::ContextWindowOverflow => {
                    self.inner = Some(
                        ChatState::CompactHistory {
                            prompt: None,
                            show_summary: false,
                            attempt_truncated_compact_retry: true,
                        },
                    );
                    return ErrorHandling::Recovered;
                },
                ApiError::MonthlyLimitReached => {
                    self.inner = Some(ChatState::PromptUser { skip_printing_tools: false });
                    return ErrorHandling::Recovered;
                },
                ApiError::QuotaBreach { message } => (message, true),
                ApiError::ModelOverloaded { request_id } => {
                    let mut text = String::from_str(MODEL_OVERLOADED_TEXT);
                    match &request_id {
                        Some(id) => {
                            text.append("\n    Request ID: ");
                            text.append(id.as_str());
                        },
                        None => {},
                    }
                    text.append("\n\n");
                    self.conversation.append_transcript(text);
                    (String::from_str(TROUBLE_TEXT), true)
                },
                ApiError::Other { .. } => (String::from_str(TROUBLE_TEXT), true),
            },
            _ => (String::from_str(TROUBLE_TEXT), true),
        };
        let ghost mid = self.conversation.history_spec();
        self.conversation.enforce_conversation_invariants();
        proof {
            if mid.len() > 0 {
                let last = self.conversation.history_spec().len() - 1;
                assert(self.conversation.history_spec()[last].0 == mid[last].0);
                if mid.last().1 is Response {
                    assert(self.conversation.history_spec()[last].1 == mid[last].1);
                }
            }
        }
        self.conversation.reset_next_user_message();
        self.pending_tool_index = None;
        self.inner = Some(ChatState::PromptUser { skip_printing_tools: false });
        ErrorHandling::Reported { context, display }
    }

    /// Starts compaction: nothing to do on an empty history, else the summary request.
    pub fn begin_compaction(&mut self, custom_prompt: Option<String>) -> (r: CompactionStart)
        requires
            old(self).conversation.wf(),
        ensures
            final(self).conversation.wf(),
            old(self).conversation.history_spec().len() == 0 ==> r == CompactionStart::Skip(
                ChatState::PromptUser { skip_printing_tools: true },
            ) && final(self).conversation == old(self).conversation,
            old(self).conversation.history_spec().len() > 0 ==> (r matches CompactionStart::Send(
                req,
            ) && crate::conversation::summary_request_post(
                old(self).conversation,
                final(self).conversation,
                req,
                crate::message::opt_view(custom_prompt),
            )),
    {
        if self.conversation.history().len() == 0 {
            return CompactionStart::Skip(ChatState::PromptUser { skip_printing_tools: true });
        }
        let req = self.conversation.create_summary_request(custom_prompt);
        CompactionStart::Send(req)
    }

    /// After the summary request failed to send: on a context-window overflow, large user
    /// messages are truncated and compaction is retried once; a second overflow is fatal.
    /// Other errors are returned as they are.
    pub fn on_compaction_send_error(
        &mut self,
        err: ApiError,
        prompt: Option<String>,
        show_summary: bool,
        attempt_truncated_compact_retry: bool,
    ) -> (r: Result<ChatState, ChatError>)
        requires
            old(self).conversation.wf(),
        ensures
            final(self).conversation.wf(),
            match err {
                ApiError::ContextWindowOverflow => if attempt_truncated_compact_retry {
                    &&& r == Ok::<ChatState, ChatError>(
                        ChatState::CompactHistory {
                            prompt,
                            show_summary,
                            attempt_truncated_compact_retry: false,
                        },
                    )
                    &&& final(self).conversation.history_spec().len()
                        == old(self).conversation.history_spec().len()
                    &&& forall|i: int|
                        0 <= i < old(self).conversation.history_spec().len()
                            ==> crate::message::truncated_user(
                            old(self).conversation.history_spec()[i].0,
                            (#[trigger] final(self).conversation.history_spec()[i]).0,
                            crate::conversation::TRUNCATED_USER_MESSAGE_SIZE as nat,
                        )
                } else {
                    r == Err::<ChatState, ChatError>(ChatError::CompactHistoryFailure)
                },
                _ => r == Err::<ChatState, ChatError>(ChatError::Client(err)),
            },
            !(err is ContextWindowOverflow && attempt_truncated_compact_retry) ==> final(self).conversation == old(self).conversation,
            final(self).conversation.next_message_spec() == old(self).conversation.next_message_spec(),
            final(self).conversation.valid_range_spec() == old(self).conversation.valid_range_spec(),
            crate::conversation::same_settings(old(self).conversation, final(self).conversation),
            forall|i: int|
                0 <= i < old(self).conversation.history_spec().len() ==> (#[trigger] final(self).conversation.history_spec()[i]).1 == old(self).conversation.history_spec()[i].1,
    {
        match err {
            ApiError::ContextWindowOverflow => {
                if attempt_truncated_compact_retry {
                    self.conversation.truncate_large_user_messages();
                    Ok(
                        ChatState::CompactHistory {
                            prompt,
                            show_summary,
                            attempt_truncated_compact_retry: false,
                        },
                    )
                } else {
                    Err(ChatError::CompactHistoryFailure)
                }
            },
            other => Err(ChatError::Client(other)),
        }
    }

    /// Ends compaction with the backend's summary: the history is replaced by it, and the
    /// pending message, if any, is sent again with the summary as context.
    pub fn finish_compaction(
        &mut self,
        summary: String,
        context_files: &Vec<(String, String)>,
        dropped_context_files: Vec<(String, String)>,
    ) -> (r: CompactionEnd)
        requires
            old(self).conversation.wf(),
        ensures
            final(self).conversation.wf(),
            exists|mid: ConversationState|
                #[trigger] crate::conversation::replace_post(old(self).conversation, summary, mid)
                    && if old(self).conversation.next_message_spec() is Some {
                    r matches CompactionEnd::Resend(req) && crate::conversation::sendable_post(
                        mid,
                        final(self).conversation,
                        req,
                        false,
                        Seq::empty(),
                        context_files@,
                    )
                } else {
                    r == CompactionEnd::Prompt(ChatState::PromptUser { skip_printing_tools: true })
                        && final(self).conversation == mid
                },
    {
        let ghost s = summary;
        self.conversation.replace_history_with_summary(summary);
        let ghost mid = self.conversation;
        if self.conversation.next_user_message().is_some() {
            let no_hooks: Vec<(crate::conversation::Hook, String)> = Vec::new();
            let r = self.conversation.as_sendable_conversation_state(
                false,
                &no_hooks,
                context_files,
                dropped_context_files,
            );
            match r {
                Ok(req) => {
                    assert(no_hooks@ =~= Seq::<(crate::conversation::Hook, String)>::empty());
                    assert(crate::conversation::replace_post(old(self).conversation, s, mid));
                    CompactionEnd::Resend(req)
                },
                Err(_) => CompactionEnd::Prompt(ChatState::PromptUser { skip_printing_tools: true }),
            }
        } else {
            assert(crate::conversation::replace_post(old(self).conversation, s, mid));
            CompactionEnd::Prompt(ChatState::PromptUser { skip_printing_tools: true })
        }
    }
}

} // verus!

verus! {

/// `t` is one of the two one-letter answers `lower` and `upper`.
pub open spec fn is_answer(t: Seq<char>, lower: char, upper: char) -> bool {
    t == seq![lower] || t == seq![upper]
}

fn answer_is(t: &str, lower: char, upper: char) -> (r: bool)
    ensures
        r == is_answer(t@, lower, upper),
{
    let n = t.unicode_len();
    if n != 1 {
        return false;
    }
    let c = t.get_char(0);
    assert(t@ =~= seq![c]);
    c == lower || c == upper
}

/// `p`, or the placeholder when it is empty.
pub open spec fn nonempty_prompt(p: Seq<char>) -> Seq<char> {
    if p.len() == 0 {
        EMPTY_PROMPT_TEXT@
    } else {
        p
    }
}

/// `h1` is `h0` followed by the pairs formed from the prompts `ps` before the last one.
pub open spec fn prompts_appended(
    h0: Seq<(crate::message::UserMessage, AssistantMessage)>,
    h1: Seq<(crate::message::UserMessage, AssistantMessage)>,
    ps: Seq<Prompt>,
) -> bool {
    let pairs = crate::conversation::prompt_pairs(ps.drop_last(), None, None);
    &&& h1.len() == h0.len() + pairs.len()
    &&& h1.subrange(0, h0.len() as int) == h0
    &&& forall|k: int|
        0 <= k < pairs.len() ==> crate::conversation::pair_from_prompts(
            #[trigger] h1[h0.len() + k],
            pairs[k],
        )
}

/// The pending message is the plain prompt `p`.
pub open spec fn pending_prompt_is(s: ChatSession, p: Seq<char>) -> bool {
    match s.conversation.next_message_spec() {
        Some(m) => match m.content {
            UserMessageContent::Prompt { prompt } => prompt@ == p,
            _ => false,
        },
        None => false,
    }
}

/// What handling the trimmed line `t` (untrimmed `u`, with `w` the shell words of `t` after its
/// first character) does to session `o`, leaving `n`, with result `r`.
pub open spec fn input_post(
    o: ChatSession,
    n: ChatSession,
    u: Seq<char>,
    t: Seq<char>,
    w: Option<Seq<Seq<char>>>,
    r: Result<InputAction, ChatError>,
) -> bool {
    let rest = t.drop_first();
    if starts_with_char(t, '/') && first_word_is_path(w) {
        r matches Ok(InputAction::Next(ChatState::HandleInput { input })) && input@ == rest
            && n.conversation == o.conversation
    } else if starts_with_char(t, '/') && w is Some {
        r matches Ok(InputAction::SlashCommand { args }) && Some(crate::message::views_of(args@)) == w
            && n.conversation == o.conversation
    } else if starts_with_char(t, '@') {
        n.conversation == o.conversation && match w {
            Some(ws) => if ws.len() == 0 {
                r matches Err(ChatError::Custom(_))
            } else {
                r matches Ok(InputAction::PromptCommand { orig_input, name, arguments })
                    && orig_input@ == rest && name@ == ws[0] && if ws.len() == 1 {
                    arguments is None
                } else {
                    arguments matches Some(a) && crate::message::views_of(a@) == ws.drop_first()
                }
            },
            None => r matches Err(ChatError::Custom(_)),
        }
    } else if starts_with_char(t, '!') {
        r matches Ok(InputAction::ShellCommand { command }) && command@ == rest && n.conversation
            == o.conversation
    } else if o.pending_tool_index is Some && o.pending_tool_index->0 < o.tool_uses@.len() && (
    is_answer(t, 'y', 'Y') || is_answer(t, 't', 'T')) {
        &&& r == Ok::<InputAction, ChatError>(InputAction::ApproveTool { trust: is_answer(t, 't', 'T') })
        &&& n.tool_uses@[o.pending_tool_index->0 as int].accepted
        &&& same_queue(o.tool_uses@, n.tool_uses@)
        &&& n.conversation == o.conversation
    } else if o.pending_tool_index is Some {
        &&& r == Ok::<InputAction, ChatError>(InputAction::Send)
        &&& n.conversation.next_message_spec() matches Some(m) && m.prompt_view() == Some(
            if is_answer(t, 'n', 'N') {
                DENY_PROMPT_TEXT@
            } else {
                u
            },
        ) && crate::message::cancelled_results(m.results(), crate::tools::queued_ids(o.tool_uses@))
        &&& n.conversation.history_spec() == o.conversation.history_spec()
    } else if o.pending_prompts@.len() == 0 {
        &&& (r is Ok <==> o.conversation.next_message_spec() is None)
        &&& r is Ok ==> r == Ok::<InputAction, ChatError>(InputAction::Send) && pending_prompt_is(
            n,
            nonempty_prompt(u),
        )
        &&& r is Err ==> r == Err::<InputAction, ChatError>(
            ChatError::Conversation(ConversationError::PendingMessageExists),
        )
        &&& n.conversation.history_spec() == o.conversation.history_spec()
    } else {
        &&& (r is Ok <==> o.conversation.next_message_spec() is None)
        &&& n.pending_prompts@.len() == 0
        &&& prompts_appended(
            o.conversation.history_spec(),
            n.conversation.history_spec(),
            o.pending_prompts@,
        )
        &&& r is Ok ==> r == Ok::<InputAction, ChatError>(InputAction::Send) && pending_prompt_is(
            n,
            nonempty_prompt(o.pending_prompts@.last().content@),
        )
    }
}

/// The result of the validation error `message`.
pub open spec fn validation_error_text(message: Seq<char>) -> Seq<char> {
    TOOL_VALIDATION_HEAD@ + message
}

/// The result of the execution failure `message`.
pub open spec fn execution_error_text(message: Seq<char>) -> Seq<char> {
    TOOL_FAILURE_HEAD@ + message
}

/// Some check of `checks` failed.
pub open spec fn any_failed(checks: Seq<ToolCheck>) -> bool {
    exists|i: int| 0 <= i < checks.len() && (#[trigger] checks[i]).outcome is Err
}

/// The text of the result for check `c` when some check of its turn failed.
pub open spec fn validation_result_text(c: ToolCheck) -> Seq<char> {
    match c.outcome {
        Err(m) => validation_error_text(m@),
        Ok(_) => VALIDATION_SKIPPED_TEXT@,
    }
}

/// Results `r` answer the checks `c`, one error result each, in order.
pub open spec fn reports_validation(r: Seq<ToolUseResult>, c: Seq<ToolCheck>) -> bool {
    &&& r.len() == c.len()
    &&& forall|i: int|
        0 <= i < c.len() ==> {
            &&& (#[trigger] r[i]).tool_use_id == c[i].id
            &&& r[i].status == ToolResultStatus::Error
            &&& r[i].content@.len() == 1
            &&& block_is_text(r[i].content@[0], validation_result_text(c[i]))
        }
}

/// Block `b` is plain text `t`.
pub open spec fn block_is_text(b: ToolUseResultBlock, t: Seq<char>) -> bool {
    match b {
        ToolUseResultBlock::Text(x) => x@ == t,
        ToolUseResultBlock::Json(_) => false,
    }
}

/// Number of images an outcome brought.
pub open spec fn image_count(o: ToolOutcome) -> nat {
    match o {
        ToolOutcome::Success { images, .. } => images@.len(),
        ToolOutcome::Failure { .. } => 0,
    }
}

/// Result `r` reports outcome `o` of the tool `id`.
pub open spec fn reports_outcome(r: ToolUseResult, id: String, o: ToolOutcome) -> bool {
    &&& r.tool_use_id == id
    &&& match o {
        ToolOutcome::Success { output, .. } => r.status == ToolResultStatus::Success
            && r.content@ == seq![output],
        ToolOutcome::Failure { message } => r.status == ToolResultStatus::Error && r.content@.len()
            == 1 && block_is_text(r.content@[0], execution_error_text(message@)),
    }
}

/// Some outcome of `o` brought images.
pub open spec fn any_images(o: Seq<ToolOutcome>) -> bool {
    exists|i: int| 0 <= i < o.len() && image_count(#[trigger] o[i]) > 0
}

impl ChatSession {
    /// Handles a line of input: it is trimmed, the words after its first character are split
    /// with shell quoting, and the line is handled as `handle_trimmed_input` says.
    pub fn handle_input(&mut self, user_input: String) -> (r: Result<InputAction, ChatError>)
        requires
            old(self).conversation.wf(),
        ensures
            final(self).conversation.wf(),
            ({
                let t = crate::input::trimmed(user_input@);
                input_post(
                    *old(self),
                    *final(self),
                    user_input@,
                    t,
                    if t.len() > 0 {
                        shell_words(t.drop_first())
                    } else {
                        None
                    },
                    r,
                )
            }),
    {
        let input = crate::input::trim_text(user_input.as_str());
        let rest = strip_first_char(input.as_str());
        let words = match &rest {
            Some(r) => split_words(r.as_str()),
            None => None,
        };
        self.handle_trimmed_input(user_input, input, words)
    }

    /// Handles a trimmed line `input` (`user_input` untrimmed), given the shell words of
    /// `input` after its first character. A leading path is handled as a prompt; a slash starts
    /// a command, `@` fetches a prompt and `!` runs a shell command. Otherwise, while a tool
    /// awaits approval, "y" or "t" approves it ("t" also trusts it) and any other answer
    /// abandons the queued tools with that answer ("n" with a standard denial); without one,
    /// the line (after any pending MCP prompts) becomes the pending message.
    pub fn handle_trimmed_input(
        &mut self,
        user_input: String,
        input: String,
        words: Option<Vec<String>>,
    ) -> (r: Result<InputAction, ChatError>)
        requires
            old(self).conversation.wf(),
        ensures
            final(self).conversation.wf(),
            input_post(*old(self), *final(self), user_input@, input@, words_view(words), r),
    {
        let ghost w = words_view(words);
        if input.as_str().unicode_len() > 0 && input.as_str().get_char(0) == '/' {
            let after_slash = String::from_str(input.as_str().substring_char(1, input.as_str().unicode_len()));
            assert(after_slash@ =~= input@.drop_first());
            if words_reference_path(&words) {
                return Ok(InputAction::Next(ChatState::HandleInput { input: after_slash }));
            }
            match words {
                Some(args) => {
                    return Ok(InputAction::SlashCommand { args });
                },
                None => {},
            }
        } else if input.as_str().unicode_len() > 0 && input.as_str().get_char(0) == '@' {
            let command = String::from_str(input.as_str().substring_char(1, input.as_str().unicode_len()));
            assert(command@ =~= input@.drop_first());
            return match words {
                None => Err(ChatError::Custom(String::from_str("Error splitting prompt command"))),
                Some(p) => {
                    let mut p = p;
                    if p.len() == 0 {
                        Err(ChatError::Custom(String::from_str("Prompt name needs to be specified")))
                    } else {
                        let ghost ws = crate::message::views_of(p@);
                        let name = p.remove(0);
                        assert(crate::message::views_of(p@) =~= ws.drop_first());
                        let arguments = if p.len() == 0 {
                            None
                        } else {
                            Some(p)
                        };
                        Ok(InputAction::PromptCommand { orig_input: command, name, arguments })
                    }
                },
            };
        } else if input.as_str().unicode_len() > 0 && input.as_str().get_char(0) == '!' {
            let command = String::from_str(input.as_str().substring_char(1, input.as_str().unicode_len()));
            assert(command@ =~= input@.drop_first());
            return Ok(InputAction::ShellCommand { command });
        }
        match self.pending_tool_index {
            Some(index) => {
                if index < self.tool_uses.len() {
                    let is_trust = answer_is(input.as_str(), 't', 'T');
                    if answer_is(input.as_str(), 'y', 'Y') || is_trust {
                        let mut tool = self.tool_uses.remove(index);
                        tool.accepted = true;
                        self.tool_uses.insert(index, tool);
                        return Ok(InputAction::ApproveTool { trust: is_trust });
                    }
                }
            },
            None => {},
        }
        let mut user_input = user_input;
        if self.pending_tool_index.is_none() && self.pending_prompts.len() > 0 {
            let mut prompts: Vec<Prompt> = Vec::new();
            std::mem::swap(&mut prompts, &mut self.pending_prompts);
            user_input = match self.conversation.append_prompts(prompts) {
                Some(last) => last,
                None => {
                    return Err(ChatError::Custom(String::from_str("Prompt append failed")));
                },
            };
        }
        self.tool_use_status = ToolUseStatus::Idle;
        if self.pending_tool_index.is_some() {
            let text = if answer_is(input.as_str(), 'n', 'N') {
                String::from_str(DENY_PROMPT_TEXT)
            } else {
                user_input
            };
            self.conversation.abandon_tool_use(&self.tool_uses, text);
            Ok(InputAction::Send)
        } else {
            match self.conversation.set_next_user_message(user_input) {
                Ok(()) => Ok(InputAction::Send),
                Err(e) => Err(ChatError::Conversation(e)),
            }
        }
    }

    /// Decides, tool by tool, whether the queued tools may run. A tool already accepted, or
    /// allowed (by its permission or because every tool is trusted), is accepted. The first
    /// denied tool turns into a rejection sent as new input; the first tool that needs
    /// approval stops here and the user is asked. `None` when every tool is accepted.
    pub fn plan_tool_execution(&mut self, permissions: &Vec<PermissionEvalResult>) -> (r: Option<
        ChatState,
    >)
        requires
            permissions@.len() == old(self).tool_uses@.len(),
        ensures
            same_queue(old(self).tool_uses@, final(self).tool_uses@),
            final(self).conversation == old(self).conversation,
            match blocking_index(old(self).tool_uses@, permissions@, old(self).trust_all_tools, 0) {
                None => r is None && forall|i: int|
                    0 <= i < final(self).tool_uses@.len() ==> (#[trigger] final(self).tool_uses@[i]).accepted,
                Some(j) => {
                    &&& forall|i: int|
                        0 <= i < j ==> (#[trigger] final(self).tool_uses@[i]).accepted
                    &&& if permissions@[j] == PermissionEvalResult::Deny {
                        r matches Some(ChatState::HandleInput { input }) && input@
                            == REJECTED_TOOL_HEAD@ + old(self).tool_uses@[j].name@
                            + REJECTED_TOOL_TAIL@
                    } else {
                        r == Some(ChatState::PromptUser { skip_printing_tools: false })
                            && final(self).pending_tool_index == Some(j as usize)
                    }
                },
            },
    {
        let ghost orig = self.tool_uses@;
        let mut i: usize = 0;
        while i < self.tool_uses.len()
            invariant
                orig == old(self).tool_uses@,
                permissions@.len() == orig.len(),
                same_queue(orig, self.tool_uses@),
                self.conversation == old(self).conversation,
                self.trust_all_tools == old(self).trust_all_tools,
                i <= orig.len(),
                forall|k: int| 0 <= k < i ==> (#[trigger] self.tool_uses@[k]).accepted,
                forall|k: int| i <= k < orig.len() ==> (#[trigger] self.tool_uses@[k]).accepted == orig[k].accepted,
                blocking_index(orig, permissions@, self.trust_all_tools, 0) == blocking_index(
                    orig,
                    permissions@,
                    self.trust_all_tools,
                    i as int,
                ),
            decreases orig.len() - i,
        {
            if !self.tool_uses[i].accepted {
                let perm = permissions[i];
                assert(self.tool_uses@[i as int].name == orig[i as int].name);
                if perm == PermissionEvalResult::Deny {
                    assert(blocking_index(orig, permissions@, self.trust_all_tools, i as int) == Some(
                        i as int,
                    ));
                    let mut text = String::from_str(REJECTED_TOOL_HEAD);
                    text.append(self.tool_uses[i].name.as_str());
                    text.append(REJECTED_TOOL_TAIL);
                    return Some(ChatState::HandleInput { input: text });
                }
                if perm == PermissionEvalResult::Allow || self.trust_all_tools {
                    let ghost before = self.tool_uses@;
                    let mut tool = self.tool_uses.remove(i);
                    tool.accepted = true;
                    self.tool_uses.insert(i, tool);
                    assert(self.tool_uses@ =~= before.update(i as int, tool));
                } else {
                    assert(blocking_index(orig, permissions@, self.trust_all_tools, i as int) == Some(
                        i as int,
                    ));
                    self.pending_tool_index = Some(i);
                    return Some(ChatState::PromptUser { skip_printing_tools: false });
                }
            }
            i = i + 1;
        }
        None
    }

    /// Records the outcomes of the executed tools, in queue order, as the pending tool-results
    /// turn (with the images they produced, if any). A failure starts a retry for the current
    /// utterance. Fails when a pending message already exists.
    pub fn finish_tool_execution(&mut self, outcomes: Vec<ToolOutcome>) -> (r: Result<(), ChatError>)
        requires
            old(self).conversation.wf(),
            outcomes@.len() == old(self).tool_uses@.len(),
        ensures
            final(self).conversation.wf(),
            r is Err <==> old(self).conversation.next_message_spec() is Some,
            r is Ok ==> (final(self).conversation.next_message_spec() matches Some(m) && ({
                let res = m.results();
                &&& m.content is ToolUseResults
                &&& res.len() == outcomes@.len()
                &&& forall|i: int|
                    0 <= i < res.len() ==> reports_outcome(
                        #[trigger] res[i],
                        old(self).tool_uses@[i].id,
                        outcomes@[i],
                    )
                &&& (m.images is Some <==> any_images(outcomes@))
            })),
            final(self).tool_uses == old(self).tool_uses,
    {
        let ghost orig = outcomes@;
        let mut rest = outcomes;
        let mut results: Vec<ToolUseResult> = Vec::new();
        let mut images: Vec<ImageBlock> = Vec::new();
        let mut any_failure = false;
        let mut saw_images = false;
        while rest.len() > 0
            invariant
                orig.len() == self.tool_uses@.len(),
                self.tool_uses == old(self).tool_uses,
                self.conversation == old(self).conversation,
                results@.len() + rest@.len() == orig.len(),
                rest@ == orig.subrange(results@.len() as int, orig.len() as int),
                forall|i: int|
                    0 <= i < results@.len() ==> reports_outcome(
                        #[trigger] results@[i],
                        self.tool_uses@[i].id,
                        orig[i],
                    ),
                saw_images <==> any_images(orig.subrange(0, results@.len() as int)),
            decreases rest.len(),
        {
            let k = results.len();
            let outcome = rest.remove(0);
            assert(outcome == orig[k as int]);
            let id = self.tool_uses[k].id.clone();
            let ghost before = orig.subrange(0, k as int);
            let ghost count = image_count(outcome);
            let result = match outcome {
                ToolOutcome::Success { output, images: imgs } => {
                    assert(count == imgs@.len());
                    if imgs.len() > 0 {
                        saw_images = true;
                    }
                    let mut imgs = imgs;
                    images.append(&mut imgs);
                    let mut content: Vec<ToolUseResultBlock> = Vec::new();
                    content.push(output);
                    ToolUseResult { tool_use_id: id, content, status: ToolResultStatus::Success }
                },
                ToolOutcome::Failure { message } => {
                    any_failure = true;
                    let mut text = String::from_str(TOOL_FAILURE_HEAD);
                    text.append(message.as_str());
                    let mut content: Vec<ToolUseResultBlock> = Vec::new();
                    content.push(ToolUseResultBlock::Text(text));
                    ToolUseResult { tool_use_id: id, content, status: ToolResultStatus::Error }
                },
            };
            results.push(result);
            proof {
                let now = orig.subrange(0, results@.len() as int);
                assert(now =~= before.push(orig[k as int]));
                assert(now[k as int] == orig[k as int]);
                if image_count(orig[k as int]) > 0 {
                    assert(image_count(now[k as int]) > 0);
                }
                if any_images(now) {
                    let j = choose|j: int| 0 <= j < now.len() && image_count(#[trigger] now[j]) > 0;
                    if j < k {
                        assert(before[j] == now[j]);
                    }
                }
                if any_images(before) {
                    let j = choose|j: int|
                        0 <= j < before.len() && image_count(#[trigger] before[j]) > 0;
                    assert(now[j] == before[j]);
                }
            }
            assert(rest@ =~= orig.subrange(results@.len() as int, orig.len() as int));
        }
        assert(orig.subrange(0, orig.len() as int) == orig);
        if any_failure {
            match self.tool_use_status {
                ToolUseStatus::Idle => {
                    let id = match self.conversation.message_id() {
                        Some(m) => m.clone(),
                        None => String::from_str(NO_UTTERANCE_ID),
                    };
                    self.tool_use_status = ToolUseStatus::RetryInProgress(id);
                },
                _ => {},
            }
        }
        let added = if saw_images {
            self.conversation.add_tool_results_with_images(results, images)
        } else {
            self.conversation.add_tool_results(results)
        };
        match added {
            Ok(()) => Ok(()),
            Err(e) => Err(ChatError::Conversation(e)),
        }
    }

    /// Queues the validated invocations. When any failed validation, every invocation of the
    /// turn is answered, in order, as the pending tool-results turn: a failed one with its
    /// validation error, a valid one as not run; a retry starts, and the results are sent back.
    /// Otherwise all tools are queued, unaccepted, the first awaiting approval, and executed next.
    pub fn on_tools_validated(&mut self, checks: Vec<ToolCheck>) -> (r: Result<
        ValidationOutcome,
        ChatError,
    >)
        requires
            old(self).conversation.wf(),
        ensures
            final(self).conversation.wf(),
            any_failed(checks@) ==> {
                &&& (r is Err <==> old(self).conversation.next_message_spec() is Some)
                &&& r is Ok ==> r == Ok::<ValidationOutcome, ChatError>(ValidationOutcome::Resend)
                &&& r is Ok ==> final(self).conversation.next_message_spec() is Some
                &&& r is Ok ==> final(self).conversation.next_message_spec()->0.content is ToolUseResults
                &&& r is Ok ==> reports_validation(
                    final(self).conversation.next_message_spec()->0.results(),
                    checks@,
                )
                &&& final(self).conversation.history_spec() == old(self).conversation.history_spec()
            },
            !any_failed(checks@) ==> {
                &&& r == Ok::<ValidationOutcome, ChatError>(ValidationOutcome::Execute)
                &&& final(self).pending_tool_index == Some(0usize)
                &&& final(self).tool_uses@.len() == checks@.len()
                &&& forall|i: int|
                    0 <= i < checks@.len() ==> {
                        &&& (#[trigger] final(self).tool_uses@[i]).id == checks@[i].id
                        &&& final(self).tool_uses@[i].name == checks@[i].name
                        &&& checks@[i].outcome == Ok::<Tool, String>(final(self).tool_uses@[i].tool)
                        &&& !final(self).tool_uses@[i].accepted
                    }
                &&& final(self).conversation == old(self).conversation
            },
    {
        let ghost orig = checks@;
        let total = checks.len();
        let mut rest = checks;
        let mut queued: Vec<QueuedTool> = Vec::new();
        let mut results: Vec<ToolUseResult> = Vec::new();
        let mut failed = false;
        let mut done: usize = 0;
        while rest.len() > 0
            invariant
                total == orig.len(),
                done + rest@.len() == orig.len(),
                rest@ == orig.subrange(done as int, orig.len() as int),
                reports_validation(results@, orig.subrange(0, done as int)),
                failed <==> any_failed(orig.subrange(0, done as int)),
                queued@.len() == done || failed,
                !failed ==> forall|i: int|
                    0 <= i < done ==> {
                        &&& (#[trigger] queued@[i]).id == orig[i].id
                        &&& queued@[i].name == orig[i].name
                        &&& orig[i].outcome == Ok::<Tool, String>(queued@[i].tool)
                        &&& !queued@[i].accepted
                    },
            decreases rest.len(),
        {
            let check = rest.remove(0);
            let ghost before = orig.subrange(0, done as int);
            assert(check == orig[done as int]);
            let mut content: Vec<ToolUseResultBlock> = Vec::new();
            match check.outcome {
                Ok(tool) => {
                    content.push(ToolUseResultBlock::Text(String::from_str(VALIDATION_SKIPPED_TEXT)));
                    results.push(
                        ToolUseResult {
                            tool_use_id: check.id.clone(),
                            content,
                            status: ToolResultStatus::Error,
                        },
                    );
                    queued.push(QueuedTool { id: check.id, name: check.name, tool, accepted: false });
                },
                Err(message) => {
                    failed = true;
                    let mut text = String::from_str(TOOL_VALIDATION_HEAD);
                    text.append(message.as_str());
                    content.push(ToolUseResultBlock::Text(text));
                    results.push(
                        ToolUseResult { tool_use_id: check.id, content, status: ToolResultStatus::Error },
                    );
                },
            }
            done = done + 1;
            proof {
                let now = orig.subrange(0, done as int);
                assert(now =~= before.push(orig[done - 1]));
                if any_failed(now) {
                    let j = choose|j: int| 0 <= j < now.len() && (#[trigger] now[j]).outcome is Err;
                    if j < done - 1 {
                        assert(before[j] == now[j]);
                    }
                }
                if any_failed(before) {
                    let j = choose|j: int| 0 <= j < before.len() && (#[trigger] before[j]).outcome is Err;
                    assert(now[j] == before[j]);
                }
                if orig[done - 1].outcome is Err {
                    assert(now[done - 1].outcome is Err);
                }
            }
            assert(rest@ =~= orig.subrange(done as int, orig.len() as int));
        }
        assert(orig.subrange(0, orig.len() as int) == orig);
        if failed {
            let added = self.conversation.add_tool_results(results);
            match self.tool_use_status {
                ToolUseStatus::Idle => {
                    let id = match self.conversation.message_id() {
                        Some(m) => m.clone(),
                        None => String::from_str(NO_UTTERANCE_ID),
                    };
                    self.tool_use_status = ToolUseStatus::RetryInProgress(id);
                },
                _ => {},
            }
            return match added {
                Ok(()) => Ok(ValidationOutcome::Resend),
                Err(e) => Err(ChatError::Conversation(e)),
            };
        }
        self.tool_uses = queued;
        self.pending_tool_index = Some(0);
        Ok(ValidationOutcome::Execute)
    }
}

} // verus!

verus! {

/// The buffer after text `text` arrived: the response prefix goes first, once, before the
/// first text that is not blank.
pub open spec fn text_appended(buf: Seq<char>, printed: bool, text: Seq<char>) -> Seq<char> {
    if !printed && crate::input::trimmed(text).len() > 0 {
        buf + RESPONSE_PREFIX@ + text
    } else {
        buf + text
    }
}

impl StreamAccumulator {
    /// Nothing received yet.
    pub fn new() -> (r: Self)
        ensures
            r.buf@.len() == 0,
            !r.response_prefix_printed,
            r.tool_uses@.len() == 0,
            r.tool_name_being_recvd is None,
            !r.ended,
    {
        StreamAccumulator {
            buf: String::new(),
            response_prefix_printed: false,
            tool_uses: Vec::new(),
            tool_name_being_recvd: None,
            ended: false,
        }
    }
}

impl ChatSession {
    /// Takes one event of the response stream. Text is buffered for rendering, invocations are
    /// collected, and the end of the stream completes the pending turn with the backend's
    /// message.
    pub fn on_response_event(&mut self, acc: &mut StreamAccumulator, event: ResponseEvent) -> (r:
        Result<(), ChatError>)
        requires
            old(self).conversation.wf(),
        ensures
            final(self).conversation.wf(),
            match event {
                ResponseEvent::ToolUseStart { name } => r is Ok && final(acc).buf@ == old(acc).buf@
                    + "\n"@ && final(acc).tool_name_being_recvd == Some(name)
                    && final(acc).tool_uses == old(acc).tool_uses,
                ResponseEvent::AssistantText(text) => r is Ok && final(acc).buf@ == text_appended(
                    old(acc).buf@,
                    old(acc).response_prefix_printed,
                    text@,
                ) && final(acc).tool_uses == old(acc).tool_uses,
                ResponseEvent::ToolUse(t) => r is Ok && final(acc).tool_uses@ == old(
                    acc,
                ).tool_uses@.push(t) && final(acc).tool_name_being_recvd is None
                    && final(acc).buf == old(acc).buf,
                ResponseEvent::EndStream { message } => {
                    &&& (r is Ok <==> old(self).conversation.next_message_spec() is Some)
                    &&& r is Ok ==> final(acc).ended && final(acc).buf@ == old(acc).buf@ + "\n"@
                        && final(self).conversation.history_spec() == old(self).conversation.history_spec().push(
                        (old(self).conversation.next_message_spec()->0, message),
                    )
                    &&& r is Ok ==> final(self).conversation.next_message_spec() is None
                    &&& r is Err ==> r == Err::<(), ChatError>(
                        ChatError::Conversation(ConversationError::NoPendingMessage),
                    )
                    &&& final(acc).tool_uses == old(acc).tool_uses
                },
            },
    {
        match event {
            ResponseEvent::ToolUseStart { name } => {
                acc.buf.append("\n");
                acc.tool_name_being_recvd = Some(name);
                Ok(())
            },
            ResponseEvent::AssistantText(text) => {
                if !acc.response_prefix_printed {
                    let t = crate::input::trim_text(text.as_str());
                    if t.as_str().unicode_len() > 0 {
                        acc.buf.append(RESPONSE_PREFIX);
                        acc.response_prefix_printed = true;
                    }
                }
                acc.buf.append(text.as_str());
                Ok(())
            },
            ResponseEvent::ToolUse(t) => {
                acc.tool_uses.push(t);
                acc.tool_name_being_recvd = None;
                Ok(())
            },
            ResponseEvent::EndStream { message } => {
                match self.conversation.push_assistant_message(message) {
                    Ok(()) => {
                        acc.ended = true;
                        acc.buf.append("\n");
                        Ok(())
                    },
                    Err(e) => Err(ChatError::Conversation(e)),
                }
            },
        }
    }

    /// Ends a response: requested tools are validated next; otherwise the queue is cleared
    /// and the user is prompted.
    pub fn on_stream_end(&mut self, acc: StreamAccumulator) -> (r: ChatState)
        ensures
            acc.tool_uses@.len() > 0 ==> r == ChatState::ValidateTools(acc.tool_uses),
            acc.tool_uses@.len() == 0 ==> {
                &&& r == ChatState::PromptUser { skip_printing_tools: false }
                &&& final(self).tool_uses@.len() == 0
                &&& final(self).pending_tool_index is None
            },
            final(self).conversation == old(self).conversation,
    {
        if acc.tool_uses.len() > 0 {
            ChatState::ValidateTools(acc.tool_uses)
        } else {
            self.tool_uses = Vec::new();
            self.pending_tool_index = None;
            ChatState::PromptUser { skip_printing_tools: false }
        }
    }

    /// Recovers from a stream failure where possible, leaving a pending message to send again.
    /// A timeout records the timeout as the assistant's reply and asks for smaller steps; a
    /// tool use cut off by the end of the stream records what was received and answers the
    /// invocation with an error result. Any other failure is returned.
    pub fn on_stream_error(&mut self, err: StreamError) -> (r: Result<(), ChatError>)
        requires
            old(self).conversation.wf(),
        ensures
            final(self).conversation.wf(),
            match err {
                StreamError::Timeout => {
                    &&& (r is Ok <==> old(self).conversation.next_message_spec() is Some)
                    &&& r is Ok ==> final(self).conversation.history_spec() == old(self).conversation.history_spec().push(
                        (
                            old(self).conversation.next_message_spec()->0,
                            final(self).conversation.history_spec().last().1,
                        ),
                    )
                    &&& r is Ok ==> (final(self).conversation.history_spec().last().1 matches AssistantMessage::Response {
                        message_id,
                        content,
                    } && message_id is None && content@ == RESPONSE_TIMEOUT_CONTENT@)
                    &&& r is Ok ==> (final(self).conversation.next_message_spec() matches Some(m)
                        && m.content matches UserMessageContent::Prompt { prompt } && prompt@
                        == TIMEOUT_RETRY_PROMPT@)
                },
                StreamError::UnexpectedToolUseEos { tool_use_id, message, .. } => {
                    &&& (r is Ok <==> old(self).conversation.next_message_spec() is Some)
                    &&& r is Ok ==> final(self).conversation.history_spec() == old(self).conversation.history_spec().push(
                        (old(self).conversation.next_message_spec()->0, message),
                    )
                    &&& r is Ok ==> (final(self).conversation.next_message_spec() matches Some(m)
                        && m.content is ToolUseResults && m.results().len() == 1
                        && m.results()[0].tool_use_id == tool_use_id && m.results()[0].status
                        == ToolResultStatus::Error && m.results()[0].content@.len() == 1
                        && block_is_text(m.results()[0].content@[0], TOOL_TOO_LARGE_TEXT@))
                },
                StreamError::Other { message } => r == Err::<(), ChatError>(
                    ChatError::ResponseStream(StreamError::Other { message }),
                ),
            },
    {
        match err {
            StreamError::Timeout => {
                let pushed = self.conversation.push_assistant_message(
                    AssistantMessage::new_response(None, String::from_str(RESPONSE_TIMEOUT_CONTENT)),
                );
                match pushed {
                    Ok(()) => {},
                    Err(e) => {
                        return Err(ChatError::Conversation(e));
                    },
                }
                match self.conversation.set_next_user_message(String::from_str(TIMEOUT_RETRY_PROMPT)) {
                    Ok(()) => {
                        proof {
                            reveal_strlit(
                                "You took too long to respond - try to split up the work into smaller steps.",
                            );
                        }
                        Ok(())
                    },
                    Err(e) => Err(ChatError::Conversation(e)),
                }
            },
            StreamError::UnexpectedToolUseEos { tool_use_id, message, .. } => {
                match self.conversation.push_assistant_message(message) {
                    Ok(()) => {},
                    Err(e) => {
                        return Err(ChatError::Conversation(e));
                    },
                }
                let mut content: Vec<ToolUseResultBlock> = Vec::new();
                content.push(ToolUseResultBlock::Text(String::from_str(TOOL_TOO_LARGE_TEXT)));
                let mut results: Vec<ToolUseResult> = Vec::new();
                results.push(
                    ToolUseResult { tool_use_id, content, status: ToolResultStatus::Error },
                );
                match self.conversation.add_tool_results(results) {
                    Ok(()) => Ok(()),
                    Err(e) => Err(ChatError::Conversation(e)),
                }
            },
            StreamError::Other { message } => Err(
                ChatError::ResponseStream(StreamError::Other { message }),
            ),
        }
    }
}

} // verus!

verus! {

/// Command-line arguments of a chat.
#[derive(Debug, Clone, PartialEq, Eq, Default)]
pub struct ChatArgs {
    /// Resume the previous conversation from this directory.
    pub resume: bool,
    /// Context profile to use.
    pub agent: Option<String>,
    /// Model to use.
    pub model: Option<String>,
    /// Let the model use any tool without asking for confirmation.
    pub trust_all_tools: bool,
    /// Trust only these tools.
    pub trust_tools: Option<Vec<String>>,
    /// Run without expecting user input.
    pub no_interactive: bool,
    /// The first question to ask.
    pub input: Option<String>,
    /// Migrate legacy profiles to agents if applicable.
    pub migrate: bool,
}

impl ChatArgs {
    /// The first question: the `input` argument; without one, a non-interactive chat takes the
    /// piped text, trimmed, and fails when there is none.
    pub fn initial_input(&self, piped: Option<String>) -> (r: Result<Option<String>, String>)
        ensures
            match self.input {
                Some(i) => r == Ok::<Option<String>, String>(Some(i)),
                None => if !self.no_interactive {
                    r == Ok::<Option<String>, String>(None)
                } else {
                    match piped {
                        Some(p) => if crate::input::trimmed(p@).len() > 0 {
                            r matches Ok(Some(t)) && t@ == crate::input::trimmed(p@)
                        } else {
                            r is Err
                        },
                        None => r is Err,
                    }
                },
            },
    {
        match &self.input {
            Some(i) => {
                return Ok(Some(i.clone()));
            },
            None => {},
        }
        if !self.no_interactive {
            return Ok(None);
        }
        match piped {
            Some(p) => {
                let t = crate::input::trim_text(p.as_str());
                if t.as_str().unicode_len() > 0 {
                    Ok(Some(t))
                } else {
                    Err(String::from_str("Input must be supplied when running in non-interactive mode"))
                }
            },
            None => Err(String::from_str("Input must be supplied when running in non-interactive mode")),
        }
    }
}

} // verus!

verus! {

/// Escape sequences and non-ASCII text, removed from error reports.
pub const REPORT_STRIP_PATTERN: &'static str = r"((\x9B|\x1B\[)[0-?]*[ -\/]*[@-~])|([^\x00-\x7F]+)";

/// What `regex::Regex::replace_all` returns when every match of `pattern` in `text` is replaced
/// by nothing, or `None` when the pattern does not compile.
pub uninterp spec fn regex_removed(pattern: Seq<char>, text: Seq<char>) -> Option<Seq<char>>;

/// Relies on `regex::Regex::new` and `regex::Regex::replace_all`: `text` without the matches of
/// `pattern`, `None` when the pattern does not compile; the result depends on both alone.
#[verifier::external_body]
fn strip_matches(pattern: &str, text: &str) -> (r: Option<String>)
    ensures
        match r {
            Some(s) => regex_removed(pattern@, text@) == Some(s@),
            None => regex_removed(pattern@, text@) is None,
        },
{
    regex::Regex::new(pattern).ok().map(|re| re.replace_all(text, "").into_owned())
}

/// The report line for an error: its context and report, without escape sequences or
/// non-ASCII text.
pub open spec fn report_line(context: Seq<char>, report: Seq<char>) -> Seq<char> {
    let raw = context + ": "@ + report + "\n"@;
    match regex_removed(REPORT_STRIP_PATTERN@, raw) {
        Some(s) => s,
        None => raw,
    }
}

impl ChatSession {
    /// Records the report line of an error in the transcript and returns it for display.
    pub fn record_error_report(&mut self, context: &str, report: &str) -> (r: String)
        requires
            old(self).conversation.wf(),
        ensures
            final(self).conversation.wf(),
            r@ == report_line(context@, report@),
            final(self).conversation.transcript_spec() == crate::conversation::appended_transcript(
                old(self).conversation.transcript_spec(),
                r@,
            ),
            final(self).conversation.history_spec() == old(self).conversation.history_spec(),
            final(self).conversation.next_message_spec() == old(self).conversation.next_message_spec(),
    {
        let mut raw = String::from_str(context);
        raw.append(": ");
        raw.append(report);
        raw.append("\n");
        let line = match strip_matches(REPORT_STRIP_PATTERN, raw.as_str()) {
            Some(s) => s,
            None => raw,
        };
        let shown = line.clone();
        self.conversation.append_transcript(line);
        shown
    }
}

} // verus!
