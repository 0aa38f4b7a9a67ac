use chat_cli::conversation::{ConversationState, Prompt, PromptRole};
use chat_cli::fs_write::FsWrite;
use chat_cli::message::{
    AssistantMessage, AssistantToolUse, ImageBlock, ToolResultStatus, ToolUseResultBlock, UserMessageContent,
    CANCELLED_TOOL_TEXT,
};
use chat_cli::session::{
    does_input_reference_file, ApiError, ChatArgs, ChatError, ChatSession, ChatState, CompactionEnd,
    CompactionStart, ErrorHandling, InputAction, PromptGate, ResponseEvent, StreamAccumulator, StreamError,
    ToolCheck, ToolOutcome, ToolUseStatus, ValidationOutcome, DENY_PROMPT_TEXT, INTERRUPTED_REPLY_TEXT,
    RESPONSE_TIMEOUT_CONTENT, RESUME_PROMPT_TEXT, TIMEOUT_RETRY_PROMPT, TROUBLE_TEXT, VALIDATION_SKIPPED_TEXT,
};
use chat_cli::tools::{PermissionEvalResult, QueuedTool, Tool};
use chat_cli::wire::{ChatMessage, ToolSpec};

fn tool(name: &str) -> ToolSpec {
    ToolSpec {
        name: name.to_string(),
        description: String::new(),
        input_schema: "{}".to_string(),
    }
}

fn session() -> ChatSession {
    let conversation = ConversationState::new("fake_conv_id", vec![tool("fs_write"), tool("execute_bash")], None, None);
    ChatSession::new(conversation, None, false, true, false, None)
}

fn tool_use(id: &str, name: &str) -> AssistantToolUse {
    AssistantToolUse {
        id: id.to_string(),
        name: name.to_string(),
        orig_name: name.to_string(),
        args: "{}".to_string(),
        orig_args: "{}".to_string(),
    }
}

fn queued(id: &str, name: &str) -> QueuedTool {
    QueuedTool {
        id: id.to_string(),
        name: name.to_string(),
        tool: Tool::ExecuteCommand {
            command: "ls".to_string(),
            summary: None,
        },
        accepted: false,
    }
}

fn with_tool_use_turn(s: &mut ChatSession, id: &str) {
    s.conversation.set_next_user_message("create a file".to_string()).unwrap();
    s.conversation
        .push_assistant_message(AssistantMessage::new_tool_use(None, "sure".to_string(), vec![tool_use(
            id, "fs_write",
        )]))
        .unwrap();
}

#[test]
fn test_editor_content_processing() {
    let cases = vec![
        ("My content", "My content"),
        ("My content with newline\n", "My content with newline"),
        ("", ""),
    ];
    for (input, expected) in cases {
        let processed = input.trim().to_string();
        assert_eq!(processed, expected.trim().to_string(), "Failed for input: {}", input);
    }
}

#[test]
fn test_does_input_reference_file() {
    let tests = &[
        (
            r"/Users/user/Desktop/Screenshot\ 2025-06-30\ at\ 2.13.34 PM.png read this image for me",
            true,
        ),
        ("/path/to/file.json", true),
        ("/save output.json", false),
        ("~/does/not/start/with/slash", false),
    ];
    for (input, expected) in tests {
        let actual = does_input_reference_file(input).is_some();
        assert_eq!(actual, *expected, "expected {} for input {}", expected, input);
    }
    match does_input_reference_file("/path/to/file.json") {
        Some(ChatState::HandleInput { input }) => assert_eq!(input, "path/to/file.json"),
        other => panic!("unexpected {:?}", other),
    }
}

#[test]
fn interrupt_before_results_sends_cancelled_result() {
    let mut s = session();
    with_tool_use_turn(&mut s, "tool_1");
    let handled = s.handle_error(ChatError::Interrupted {
        tool_uses: Some(vec![queued("tool_1", "fs_write")]),
    });
    assert!(matches!(handled, ErrorHandling::Reported { display: false, .. }));
    assert!(matches!(s.inner, Some(ChatState::PromptUser { skip_printing_tools: false })));
    match &s.conversation.history().last().unwrap().1 {
        AssistantMessage::Response { content, .. } => assert_eq!(content, INTERRUPTED_REPLY_TEXT),
        _ => panic!(),
    }
    s.conversation.set_next_user_message("what now".to_string()).unwrap();
    let req = s
        .conversation
        .as_sendable_conversation_state(true, &Vec::new(), &Vec::new(), Vec::new())
        .unwrap();
    let cancelled = req.history.iter().find_map(|m| match m {
        ChatMessage::UserInputMessage(u) => u.context.tool_results.clone(),
        _ => None,
    });
    let results = cancelled.expect("a cancelled result for the interrupted tool");
    assert_eq!(results.len(), 1);
    assert_eq!(results[0].tool_use_id, "tool_1");
    assert_eq!(results[0].status, ToolResultStatus::Error);
}

#[test]
fn interrupt_while_waiting_for_the_backend_answers_pending_tool_uses() {
    let mut s = session();
    with_tool_use_turn(&mut s, "tool_9");
    s.handle_error(ChatError::Interrupted { tool_uses: None });
    assert!(s.conversation.next_user_message().is_none());
    s.conversation.set_next_user_message("hello".to_string()).unwrap();
    let req = s
        .conversation
        .as_sendable_conversation_state(false, &Vec::new(), &Vec::new(), Vec::new())
        .unwrap();
    let results = req.user_input_message.context.tool_results.expect("cancelled results");
    assert_eq!(results[0].tool_use_id, "tool_9");
    match &results[0].content[0] {
        ToolUseResultBlock::Text(t) => assert_eq!(t, CANCELLED_TOOL_TEXT),
        _ => panic!(),
    }
}

#[test]
fn context_overflow_compacts_and_resends_with_summary() {
    let mut s = session();
    s.conversation.set_next_user_message("first".to_string()).unwrap();
    s.conversation
        .push_assistant_message(AssistantMessage::new_response(None, "one".to_string()))
        .unwrap();
    s.conversation.set_next_user_message("second".to_string()).unwrap();
    assert!(matches!(s.handle_error(ChatError::Client(ApiError::ContextWindowOverflow)), ErrorHandling::Recovered));
    match &s.inner {
        Some(ChatState::CompactHistory {
            prompt: None,
            show_summary: false,
            attempt_truncated_compact_retry: true,
        }) => {},
        other => panic!("expected compaction, found {:?}", other),
    }
    match s.begin_compaction(None) {
        CompactionStart::Send(req) => assert!(req.user_input_message.content.contains("CONVERSATION SUMMARY")),
        other => panic!("expected a summary request, found {:?}", other),
    }
    match s.finish_compaction("we talked about files".to_string(), &Vec::new(), Vec::new()) {
        CompactionEnd::Resend(req) => {
            match &req.history[0] {
                ChatMessage::UserInputMessage(u) => assert!(u.content.contains("we talked about files")),
                _ => panic!(),
            }
            assert_eq!(req.user_input_message.content, "second");
        },
        other => panic!("expected a resend, found {:?}", other),
    }
}

#[test]
fn compaction_of_empty_history_is_skipped() {
    let mut s = session();
    match s.begin_compaction(None) {
        CompactionStart::Skip(ChatState::PromptUser { skip_printing_tools: true }) => {},
        other => panic!("unexpected {:?}", other),
    }
    match s.finish_compaction("summary".to_string(), &Vec::new(), Vec::new()) {
        CompactionEnd::Prompt(ChatState::PromptUser { skip_printing_tools: true }) => {},
        other => panic!("unexpected {:?}", other),
    }
}

#[test]
fn compaction_overflow_retries_once_then_fails() {
    let mut s = session();
    match s.on_compaction_send_error(ApiError::ContextWindowOverflow, Some("p".to_string()), true, true) {
        Ok(ChatState::CompactHistory {
            prompt: Some(p),
            show_summary: true,
            attempt_truncated_compact_retry: false,
        }) => assert_eq!(p, "p"),
        other => panic!("unexpected {:?}", other),
    }
    assert!(matches!(
        s.on_compaction_send_error(ApiError::ContextWindowOverflow, None, false, false),
        Err(ChatError::CompactHistoryFailure)
    ));
    assert!(matches!(
        s.on_compaction_send_error(ApiError::MonthlyLimitReached, None, false, true),
        Err(ChatError::Client(ApiError::MonthlyLimitReached))
    ));
}

#[test]
fn errors_are_reported_and_reset_the_turn() {
    let mut s = session();
    s.conversation.set_next_user_message("x".to_string()).unwrap();
    s.pending_tool_index = Some(0);
    match s.handle_error(ChatError::Client(ApiError::QuotaBreach {
        message: "quota".to_string(),
    })) {
        ErrorHandling::Reported { context, display } => {
            assert_eq!(context, "quota");
            assert!(display);
        },
        other => panic!("unexpected {:?}", other),
    }
    assert!(s.conversation.next_user_message().is_none());
    assert!(s.pending_tool_index.is_none());
    match s.handle_error(ChatError::Client(ApiError::ModelOverloaded {
        request_id: Some("r-1".to_string()),
    })) {
        ErrorHandling::Reported { context, .. } => assert_eq!(context, TROUBLE_TEXT),
        other => panic!("unexpected {:?}", other),
    }
    assert!(s.conversation.transcript().last().unwrap().ends_with("\n    Request ID: r-1\n\n"));
    assert!(matches!(s.handle_error(ChatError::CompactHistoryFailure), ErrorHandling::Reported { display: true, .. }));
    assert!(matches!(
        s.handle_error(ChatError::Client(ApiError::MonthlyLimitReached)),
        ErrorHandling::Recovered
    ));
}

#[test]
fn input_is_dispatched_by_its_prefix() {
    let mut s = session();
    match s.handle_input("  /tools trust fs_write  ".to_string()).unwrap() {
        InputAction::SlashCommand { args } => assert_eq!(args, vec!["tools", "trust", "fs_write"]),
        other => panic!("unexpected {:?}", other),
    }
    match s.handle_input("@prompt_name a 'b c'".to_string()).unwrap() {
        InputAction::PromptCommand { orig_input, name, arguments } => {
            assert_eq!(orig_input, "prompt_name a 'b c'");
            assert_eq!(name, "prompt_name");
            assert_eq!(arguments, Some(vec!["a".to_string(), "b c".to_string()]));
        },
        other => panic!("unexpected {:?}", other),
    }
    match s.handle_input("@solo".to_string()).unwrap() {
        InputAction::PromptCommand { arguments, .. } => assert!(arguments.is_none()),
        other => panic!("unexpected {:?}", other),
    }
    assert!(matches!(s.handle_input("@".to_string()), Err(ChatError::Custom(_))));
    assert!(matches!(s.handle_input("@'open".to_string()), Err(ChatError::Custom(_))));
    match s.handle_input("!ls -la".to_string()).unwrap() {
        InputAction::ShellCommand { command } => assert_eq!(command, "ls -la"),
        other => panic!("unexpected {:?}", other),
    }
    match s.handle_input("/notes.txt summarize".to_string()).unwrap() {
        InputAction::Next(ChatState::HandleInput { input }) => assert_eq!(input, "notes.txt summarize"),
        other => panic!("unexpected {:?}", other),
    }
    assert!(matches!(s.handle_input("hello there".to_string()).unwrap(), InputAction::Send));
    match &s.conversation.next_user_message().unwrap().content {
        UserMessageContent::Prompt { prompt } => assert_eq!(prompt, "hello there"),
        _ => panic!(),
    }
    assert!(matches!(s.handle_input("again".to_string()), Err(ChatError::Conversation(_))));
}

#[test]
fn tool_approval_answers() {
    let mut s = session();
    s.tool_uses = vec![queued("a", "execute_bash"), queued("b", "fs_write")];
    s.pending_tool_index = Some(1);
    assert!(matches!(s.handle_input("t".to_string()).unwrap(), InputAction::ApproveTool { trust: true }));
    assert!(s.tool_uses[1].accepted);
    assert!(!s.tool_uses[0].accepted);
    assert!(matches!(s.handle_input("Y".to_string()).unwrap(), InputAction::ApproveTool { trust: false }));

    let mut s = session();
    s.tool_uses = vec![queued("a", "execute_bash")];
    s.pending_tool_index = Some(0);
    assert!(matches!(s.handle_input("n".to_string()).unwrap(), InputAction::Send));
    let m = s.conversation.next_user_message().unwrap();
    match &m.content {
        UserMessageContent::CancelledToolUses { prompt, tool_use_results } => {
            assert_eq!(prompt, DENY_PROMPT_TEXT);
            assert_eq!(tool_use_results[0].tool_use_id, "a");
        },
        _ => panic!(),
    }

    let mut s = session();
    s.tool_uses = vec![queued("a", "execute_bash")];
    s.pending_tool_index = Some(0);
    s.handle_input("do something else".to_string()).unwrap();
    match &s.conversation.next_user_message().unwrap().content {
        UserMessageContent::CancelledToolUses { prompt, .. } => assert_eq!(prompt, "do something else"),
        _ => panic!(),
    }
}

#[test]
fn pending_prompts_are_appended_before_the_input() {
    let mut s = session();
    s.pending_prompts = vec![
        Prompt { role: PromptRole::User, content: "u".to_string() },
        Prompt { role: PromptRole::Assistant, content: "a".to_string() },
        Prompt { role: PromptRole::User, content: "final question".to_string() },
    ];
    assert!(matches!(s.handle_input("ignored".to_string()).unwrap(), InputAction::Send));
    assert!(s.pending_prompts.is_empty());
    assert_eq!(s.conversation.history().len(), 1);
    match &s.conversation.next_user_message().unwrap().content {
        UserMessageContent::Prompt { prompt } => assert_eq!(prompt, "final question"),
        _ => panic!(),
    }
}

#[test]
fn permissions_decide_what_runs() {
    let mut s = session();
    s.tool_uses = vec![queued("a", "fs_write"), queued("b", "execute_bash"), queued("c", "fs_write")];
    let perms = vec![PermissionEvalResult::Allow, PermissionEvalResult::Ask, PermissionEvalResult::Deny];
    assert!(matches!(s.plan_tool_execution(&perms), Some(ChatState::PromptUser { skip_printing_tools: false })));
    assert_eq!(s.pending_tool_index, Some(1));
    assert!(s.tool_uses[0].accepted);
    assert!(!s.tool_uses[1].accepted);

    s.tool_uses[1].accepted = true;
    match s.plan_tool_execution(&perms) {
        Some(ChatState::HandleInput { input }) => assert_eq!(
            input,
            "Tool use with fs_write was rejected because the arguments supplied were forbidden"
        ),
        other => panic!("unexpected {:?}", other),
    }

    let mut s = session();
    s.trust_all_tools = true;
    s.tool_uses = vec![queued("a", "fs_write"), queued("b", "execute_bash")];
    let perms = vec![PermissionEvalResult::Ask, PermissionEvalResult::Ask];
    assert!(s.plan_tool_execution(&perms).is_none());
    assert!(s.tool_uses.iter().all(|t| t.accepted));
}

#[test]
fn tool_outcomes_become_the_pending_results() {
    let mut s = session();
    s.tool_uses = vec![queued("a", "fs_write"), queued("b", "execute_bash")];
    s.finish_tool_execution(vec![
        ToolOutcome::Success {
            output: ToolUseResultBlock::Text("written".to_string()),
            images: vec![],
        },
        ToolOutcome::Failure {
            message: "boom".to_string(),
        },
    ])
    .unwrap();
    let m = s.conversation.next_user_message().unwrap();
    assert!(m.images.is_none());
    match &m.content {
        UserMessageContent::ToolUseResults { tool_use_results } => {
            assert_eq!(tool_use_results.len(), 2);
            assert_eq!(tool_use_results[0].tool_use_id, "a");
            assert_eq!(tool_use_results[0].status, ToolResultStatus::Success);
            assert_eq!(tool_use_results[1].status, ToolResultStatus::Error);
            match &tool_use_results[1].content[0] {
                ToolUseResultBlock::Text(t) => assert_eq!(t, "An error occurred processing the tool: \nboom"),
                _ => panic!(),
            }
        },
        _ => panic!(),
    }
    match &s.tool_use_status {
        ToolUseStatus::RetryInProgress(id) => assert_eq!(id, "No utterance id found"),
        _ => panic!(),
    }

    let mut s = session();
    s.tool_uses = vec![queued("a", "fs_write")];
    s.finish_tool_execution(vec![ToolOutcome::Success {
        output: ToolUseResultBlock::Text("shot".to_string()),
        images: vec![ImageBlock {
            format: "png".to_string(),
            bytes: vec![1, 2, 3],
        }],
    }])
    .unwrap();
    assert_eq!(s.conversation.next_user_message().unwrap().images.as_ref().map(|v| v.len()), Some(1));
}

#[test]
fn validation_errors_are_sent_back() {
    let mut s = session();
    let checks = vec![
        ToolCheck {
            id: "a".to_string(),
            name: "fs_write".to_string(),
            outcome: Ok(Tool::ExecuteCommand {
                command: "ls".to_string(),
                summary: None,
            }),
        },
        ToolCheck {
            id: "b".to_string(),
            name: "fs_write".to_string(),
            outcome: Err("Path must not be empty".to_string()),
        },
    ];
    assert_eq!(s.on_tools_validated(checks).unwrap(), ValidationOutcome::Resend);
    match &s.conversation.next_user_message().unwrap().content {
        UserMessageContent::ToolUseResults { tool_use_results } => {
            assert_eq!(tool_use_results.len(), 2);
            assert_eq!(tool_use_results[0].tool_use_id, "a");
            assert_eq!(tool_use_results[0].status, ToolResultStatus::Error);
            match &tool_use_results[0].content[0] {
                ToolUseResultBlock::Text(t) => assert_eq!(t, VALIDATION_SKIPPED_TEXT),
                _ => panic!(),
            }
            assert_eq!(tool_use_results[1].tool_use_id, "b");
            match &tool_use_results[1].content[0] {
                ToolUseResultBlock::Text(t) => assert_eq!(t, "Failed to validate tool parameters: Path must not be empty"),
                _ => panic!(),
            }
        },
        _ => panic!(),
    }

    let mut s = session();
    let checks = vec![ToolCheck {
        id: "a".to_string(),
        name: "execute_bash".to_string(),
        outcome: Ok(Tool::ExecuteCommand {
            command: "ls".to_string(),
            summary: Some("list".to_string()),
        }),
    }];
    assert_eq!(s.on_tools_validated(checks).unwrap(), ValidationOutcome::Execute);
    assert_eq!(s.pending_tool_index, Some(0));
    assert_eq!(s.tool_uses.len(), 1);
    assert_eq!(s.get_current_status(&ChatState::ExecuteTools), "Running execute_bash: list");
}

#[test]
fn stream_events_are_accumulated() {
    let mut s = session();
    s.conversation.set_next_user_message("hi".to_string()).unwrap();
    let mut acc = StreamAccumulator::new();
    s.on_response_event(&mut acc, ResponseEvent::AssistantText("  ".to_string())).unwrap();
    s.on_response_event(&mut acc, ResponseEvent::AssistantText("Hello".to_string())).unwrap();
    s.on_response_event(&mut acc, ResponseEvent::AssistantText(" world".to_string())).unwrap();
    assert_eq!(acc.buf, "  `>` Hello world");
    s.on_response_event(&mut acc, ResponseEvent::ToolUseStart { name: "fs_write".to_string() }).unwrap();
    assert_eq!(acc.tool_name_being_recvd.as_deref(), Some("fs_write"));
    s.on_response_event(&mut acc, ResponseEvent::ToolUse(tool_use("t", "fs_write"))).unwrap();
    assert!(acc.tool_name_being_recvd.is_none());
    s.on_response_event(&mut acc, ResponseEvent::EndStream {
        message: AssistantMessage::new_tool_use(None, "Hello world".to_string(), vec![tool_use("t", "fs_write")]),
    })
    .unwrap();
    assert!(acc.ended);
    assert!(acc.buf.ends_with("\n\n"));
    assert_eq!(s.conversation.history().len(), 1);
    match s.on_stream_end(acc) {
        ChatState::ValidateTools(t) => assert_eq!(t.len(), 1),
        other => panic!("unexpected {:?}", other),
    }
    s.pending_tool_index = Some(0);
    assert!(matches!(
        s.on_stream_end(StreamAccumulator::new()),
        ChatState::PromptUser { skip_printing_tools: false }
    ));
    assert!(s.pending_tool_index.is_none());
}

#[test]
fn stream_timeout_asks_for_smaller_steps() {
    let mut s = session();
    s.conversation.set_next_user_message("big task".to_string()).unwrap();
    s.on_stream_error(StreamError::Timeout).unwrap();
    match &s.conversation.history()[0].1 {
        AssistantMessage::Response { content, .. } => assert_eq!(content, RESPONSE_TIMEOUT_CONTENT),
        _ => panic!(),
    }
    match &s.conversation.next_user_message().unwrap().content {
        UserMessageContent::Prompt { prompt } => assert_eq!(prompt, TIMEOUT_RETRY_PROMPT),
        _ => panic!(),
    }
}

#[test]
fn incomplete_tool_use_is_answered_with_an_error() {
    let mut s = session();
    s.conversation.set_next_user_message("write it".to_string()).unwrap();
    s.on_stream_error(StreamError::UnexpectedToolUseEos {
        tool_use_id: "t1".to_string(),
        name: "fs_write".to_string(),
        message: AssistantMessage::new_tool_use(None, "partial".to_string(), vec![tool_use("t1", "fs_write")]),
    })
    .unwrap();
    let m = s.conversation.next_user_message().unwrap();
    match &m.content {
        UserMessageContent::ToolUseResults { tool_use_results } => {
            assert_eq!(tool_use_results[0].tool_use_id, "t1");
            assert_eq!(tool_use_results[0].status, ToolResultStatus::Error);
        },
        _ => panic!(),
    }
    let req = s
        .conversation
        .as_sendable_conversation_state(false, &Vec::new(), &Vec::new(), Vec::new())
        .unwrap();
    assert_eq!(req.history.len(), 2);
    assert!(matches!(
        s.on_stream_error(StreamError::Other { message: "bad".to_string() }),
        Err(ChatError::ResponseStream(_))
    ));
}

#[test]
fn status_lines() {
    let mut s = session();
    assert_eq!(s.get_current_status(&ChatState::default()), "waiting for user input");
    s.conversation.set_next_user_message("x".to_string()).unwrap();
    assert_eq!(s.get_current_status(&ChatState::default()), "processing request");
    s.spinner_active = true;
    assert_eq!(s.get_current_status(&ChatState::default()), "generating response");
    s.last_tool_use = Some(("execute_bash".to_string(), "listing".to_string()));
    assert_eq!(s.get_current_status(&ChatState::Exit), "Processing results from execute_bash: listing");
    s.pending_tool_index = Some(0);
    assert_eq!(s.get_current_status(&ChatState::default()), "waiting for tool approval");
    assert_eq!(s.get_current_status(&ChatState::ExecuteTools), "executing tool");
    assert_eq!(s.get_current_status(&ChatState::HandleResponseStream), "generating response");
    assert_eq!(s.get_current_status(&ChatState::ValidateTools(vec![])), "validating tools");
    s.tool_use_status = ToolUseStatus::RetryInProgress("id".to_string());
    assert_eq!(s.get_current_status(&ChatState::Exit), "retrying tool use");
}

#[test]
fn prompt_gate_and_user_lines() {
    let mut s = session();
    assert_eq!(s.prompt_gate(), PromptGate::ReadInput);
    s.interactive = false;
    assert_eq!(s.prompt_gate(), PromptGate::Exit);
    s.tool_uses = vec![queued("a", "fs_write")];
    assert_eq!(s.prompt_gate(), PromptGate::NonInteractiveToolApproval);
    assert!(matches!(s.on_user_line(None), ChatState::Exit));
    match s.on_user_line(Some("hello\nthere".to_string())) {
        ChatState::HandleInput { input } => assert_eq!(input, "hello\nthere"),
        other => panic!("unexpected {:?}", other),
    }
    assert_eq!(s.conversation.transcript().last().unwrap(), "> hello> \nthere");
}

#[test]
fn initial_input_from_arguments_or_pipe() {
    let args = ChatArgs {
        input: Some("question".to_string()),
        ..Default::default()
    };
    assert_eq!(args.initial_input(None), Ok(Some("question".to_string())));
    let args = ChatArgs::default();
    assert_eq!(args.initial_input(Some("piped".to_string())), Ok(None));
    let args = ChatArgs {
        no_interactive: true,
        ..Default::default()
    };
    assert_eq!(args.initial_input(Some("  piped text \n".to_string())), Ok(Some("piped text".to_string())));
    assert!(args.initial_input(Some("   ".to_string())).is_err());
    assert!(args.initial_input(None).is_err());
}

#[test]
fn new_session_starts_with_the_initial_input() {
    let conversation = ConversationState::new("id", vec![], None, None);
    let s = ChatSession::new(conversation, None, false, true, false, Some("first".to_string()));
    match &s.inner {
        Some(ChatState::HandleInput { input }) => assert_eq!(input, "first"),
        other => panic!("unexpected {:?}", other),
    }
    let _ = FsWrite::Append {
        path: "p".to_string(),
        new_str: "x".to_string(),
        summary: None,
    };
}

#[test]
fn resuming_continues_the_saved_conversation() {
    let mut saved = ConversationState::new("saved_id", vec![tool("fs_write")], None, None);
    saved.set_next_user_message("earlier".to_string()).unwrap();
    saved
        .push_assistant_message(AssistantMessage::new_tool_use(None, "ok".to_string(), vec![tool_use("t", "write")]))
        .unwrap();
    let fresh = ConversationState::new("fresh_id", vec![tool("fs_write"), tool("execute_bash")], None, None);
    let s = ChatSession::new(fresh, Some(saved), true, true, false, None);
    assert!(s.existing_conversation);
    assert_eq!(s.conversation.conversation_id(), "saved_id");
    assert_eq!(s.conversation.tools().len(), 2);
    match &s.inner {
        Some(ChatState::HandleInput { input }) => assert_eq!(input, RESUME_PROMPT_TEXT),
        other => panic!("unexpected {:?}", other),
    }
    match &s.conversation.history()[0].1 {
        AssistantMessage::ToolUse { tool_uses, .. } => assert_eq!(tool_uses[0].name, "fs_write"),
        _ => panic!(),
    }

    let empty_saved = ConversationState::new("saved_id", vec![], None, None);
    let fresh = ConversationState::new("fresh_id", vec![], None, None);
    let s = ChatSession::new(fresh, Some(empty_saved), true, true, false, Some("hi".to_string()));
    assert!(!s.existing_conversation);
    assert_eq!(s.conversation.conversation_id(), "fresh_id");
}

#[test]
fn plain_lines_become_the_exact_pending_prompt() {
    let mut s = session();
    assert!(matches!(s.handle_input("  keep my spaces  ".to_string()).unwrap(), InputAction::Send));
    match &s.conversation.next_user_message().unwrap().content {
        UserMessageContent::Prompt { prompt } => assert_eq!(prompt, "  keep my spaces  "),
        _ => panic!(),
    }
    let mut s = session();
    assert!(matches!(s.handle_input(String::new()).unwrap(), InputAction::Send));
    match &s.conversation.next_user_message().unwrap().content {
        UserMessageContent::Prompt { prompt } => assert_eq!(prompt, chat_cli::message::EMPTY_PROMPT_TEXT),
        _ => panic!(),
    }
}

#[test]
fn trimmed_input_with_given_words() {
    let mut s = session();
    match s
        .handle_trimmed_input("/x".to_string(), "/x".to_string(), Some(vec!["x".to_string()]))
        .unwrap()
    {
        InputAction::SlashCommand { args } => assert_eq!(args, vec!["x"]),
        other => panic!("unexpected {:?}", other),
    }
    assert!(matches!(
        s.handle_trimmed_input("/a b".to_string(), "/a b".to_string(), None).unwrap(),
        InputAction::Send
    ));
}

#[test]
fn trimming_removes_unicode_whitespace() {
    assert_eq!(chat_cli::input::trim_text("\u{3000}\t hi there \u{a0}\n"), "hi there");
    assert_eq!(chat_cli::input::trim_text(" \u{2003} "), "");
    assert_eq!(chat_cli::input::trim_text("x"), "x");
}

#[test]
fn error_reports_lose_escapes_and_non_ascii_text() {
    let mut s = session();
    let line = s.record_error_report("Amazon Q is having trouble responding right now", "\u{1b}[31mboom\u{1b}[0m ✓ done");
    assert_eq!(line, "Amazon Q is having trouble responding right now: boom  done\n");
    assert_eq!(s.conversation.transcript().last().unwrap(), &line);
}
