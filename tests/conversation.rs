use chat_cli::conversation::{
    ConversationError, ConversationState, Hook, HookTrigger, Prompt, PromptRole, TokenWarningLevel,
    DUMMY_TOOL_NAME, HISTORY_OVERFLOW_TEXT, MAX_CONVERSATION_STATE_HISTORY_LEN, REDACTED_TOOL_RESULT_TEXT,
};
use chat_cli::message::{
    AssistantMessage, AssistantToolUse, ToolResultStatus, ToolUseResult, ToolUseResultBlock,
    UserMessageContent, CANCELLED_TOOL_TEXT, EMPTY_PROMPT_TEXT,
};
use chat_cli::wire::{ChatMessage, ConversationRequest, ToolSpec};

fn tool(name: &str) -> ToolSpec {
    ToolSpec {
        name: name.to_string(),
        description: format!("{} tool", name),
        input_schema: "{}".to_string(),
    }
}

fn catalog() -> Vec<ToolSpec> {
    vec![tool("fs_write"), tool("execute_bash"), tool("fs_read")]
}

fn new_conversation(tools: Vec<ToolSpec>) -> ConversationState {
    ConversationState::new("fake_conv_id", tools, None, None)
}

fn tool_use(id: &str, name: &str) -> AssistantToolUse {
    AssistantToolUse {
        id: id.to_string(),
        name: name.to_string(),
        orig_name: name.to_string(),
        args: "null".to_string(),
        orig_args: "null".to_string(),
    }
}

fn send(c: &mut ConversationState) -> ConversationRequest {
    c.as_sendable_conversation_state(true, &Vec::new(), &Vec::new(), Vec::new())
        .expect("a pending message is set")
}

fn carries_results(m: &chat_cli::wire::UserInputMessage) -> bool {
    m.context.tool_results.as_ref().is_some_and(|r| !r.is_empty())
}

fn assert_request_invariants(req: &ConversationRequest, iteration: usize) {
    let h = &req.history;
    if let Some(first) = h.first() {
        assert!(matches!(first, ChatMessage::UserInputMessage(_)), "{iteration}: first message must be from the user");
    }
    if let Some(last) = h.last() {
        assert!(
            matches!(last, ChatMessage::AssistantResponseMessage(_)),
            "{iteration}: last message must be from the assistant"
        );
        if let ChatMessage::AssistantResponseMessage(a) = last {
            if a.tool_uses.as_ref().is_some_and(|t| !t.is_empty()) {
                assert!(carries_results(&req.user_input_message), "{iteration}: tool uses must be answered");
            }
        }
    }
    for (i, msg) in h.iter().enumerate() {
        assert_eq!(matches!(msg, ChatMessage::UserInputMessage(_)), i % 2 == 0);
        if let ChatMessage::UserInputMessage(u) = msg {
            assert!(u.context.tools.is_none(), "no tool specs in history");
            if carries_results(u) {
                assert!(i > 0, "{iteration}: first message must not carry tool results");
                match &h[i - 1] {
                    ChatMessage::AssistantResponseMessage(a) => assert!(a.tool_uses.is_some()),
                    _ => panic!("expected an assistant message with tool uses at {}", i - 1),
                }
            }
        }
    }
    assert!(h.len() <= MAX_CONVERSATION_STATE_HISTORY_LEN, "history too long: {}", h.len());
    assert!(req.user_input_message.context.tools.is_some(), "the outgoing message carries the tools");
}

#[test]
fn test_conversation_state_history_handling_truncation() {
    let mut conversation = new_conversation(catalog());
    conversation.set_next_user_message("start".to_string()).unwrap();
    for i in 0..=(MAX_CONVERSATION_STATE_HISTORY_LEN + 100) {
        let s = send(&mut conversation);
        assert_request_invariants(&s, i);
        conversation
            .push_assistant_message(AssistantMessage::new_response(None, i.to_string()))
            .unwrap();
        conversation.set_next_user_message(i.to_string()).unwrap();
    }
}

#[test]
fn test_conversation_state_history_handling_with_tool_results() {
    let mut conversation = new_conversation(catalog());
    conversation.set_next_user_message("start".to_string()).unwrap();
    for i in 0..=(MAX_CONVERSATION_STATE_HISTORY_LEN + 100) {
        let s = send(&mut conversation);
        assert_request_invariants(&s, i);
        conversation
            .push_assistant_message(AssistantMessage::new_tool_use(None, i.to_string(), vec![tool_use(
                "tool_id",
                "tool name",
            )]))
            .unwrap();
        conversation
            .add_tool_results(vec![ToolUseResult {
                tool_use_id: "tool_id".to_string(),
                content: vec![],
                status: ToolResultStatus::Success,
            }])
            .unwrap();
    }

    let mut conversation = new_conversation(catalog());
    conversation.set_next_user_message("start".to_string()).unwrap();
    for i in 0..=(MAX_CONVERSATION_STATE_HISTORY_LEN + 100) {
        let s = send(&mut conversation);
        assert_request_invariants(&s, i);
        if i % 3 == 0 {
            conversation
                .push_assistant_message(AssistantMessage::new_tool_use(None, i.to_string(), vec![tool_use(
                    "tool_id",
                    "tool name",
                )]))
                .unwrap();
            conversation
                .add_tool_results(vec![ToolUseResult {
                    tool_use_id: "tool_id".to_string(),
                    content: vec![],
                    status: ToolResultStatus::Success,
                }])
                .unwrap();
        } else {
            conversation
                .push_assistant_message(AssistantMessage::new_response(None, i.to_string()))
                .unwrap();
            conversation.set_next_user_message(i.to_string()).unwrap();
        }
    }
}

#[test]
fn test_conversation_state_with_context_files() {
    let mut conversation = new_conversation(catalog());
    let files = vec![("AmazonQ.md".to_string(), "test context".to_string())];
    conversation.set_next_user_message("start".to_string()).unwrap();
    for i in 0..=(MAX_CONVERSATION_STATE_HISTORY_LEN + 100) {
        let s = conversation
            .as_sendable_conversation_state(true, &Vec::new(), &files, Vec::new())
            .unwrap();
        match (&s.history[0], &s.history[1]) {
            (ChatMessage::UserInputMessage(user), ChatMessage::AssistantResponseMessage(_)) => {
                assert!(
                    user.content.contains("test context"),
                    "expected context message to contain context file, instead found: {}",
                    user.content
                );
                assert!(user.content.contains("[AmazonQ.md]\ntest context\n"));
            },
            _ => panic!("Expected the first two messages to be from the user and the assistant"),
        }
        assert_request_invariants(&s, i);
        conversation
            .push_assistant_message(AssistantMessage::new_response(None, i.to_string()))
            .unwrap();
        conversation.set_next_user_message(i.to_string()).unwrap();
    }
}

#[test]
fn test_conversation_state_additional_context() {
    let conversation_start_context = "conversation start context";
    let prompt_context = "prompt context";
    let hooks = vec![
        (
            Hook {
                name: "test_conversation_start".to_string(),
                trigger: HookTrigger::ConversationStart,
            },
            conversation_start_context.to_string(),
        ),
        (
            Hook {
                name: "test_per_prompt".to_string(),
                trigger: HookTrigger::PerPrompt,
            },
            prompt_context.to_string(),
        ),
    ];
    let mut conversation = ConversationState::new("fake_conv_id", catalog(), None, Some("TestAgent".to_string()));
    conversation.set_next_user_message("start".to_string()).unwrap();
    for i in 0..=5usize {
        let s = conversation
            .as_sendable_conversation_state(true, &hooks, &Vec::new(), Vec::new())
            .unwrap();
        match &s.history[0] {
            ChatMessage::UserInputMessage(user) => {
                assert!(
                    user.content.contains(conversation_start_context),
                    "expected to contain '{conversation_start_context}', instead found: {}",
                    user.content
                );
                assert!(user.content.contains("'test_conversation_start': conversation start context\n\n"));
                assert!(!user.content.contains(prompt_context));
            },
            _ => panic!("Expected user message."),
        }
        assert!(
            s.user_input_message.content.contains(prompt_context),
            "expected to contain '{prompt_context}', instead found: {}",
            s.user_input_message.content
        );
        assert!(s.user_input_message.content.ends_with(&i.checked_sub(1).map_or("start".to_string(), |j| j.to_string())));
        conversation
            .push_assistant_message(AssistantMessage::new_response(None, i.to_string()))
            .unwrap();
        conversation.set_next_user_message(i.to_string()).unwrap();
    }
}

#[test]
fn hooks_do_not_run_without_a_context_profile() {
    let hooks = vec![(
        Hook {
            name: "start".to_string(),
            trigger: HookTrigger::ConversationStart,
        },
        "hook output".to_string(),
    )];
    let mut conversation = new_conversation(catalog());
    conversation.set_next_user_message("hello".to_string()).unwrap();
    let s = conversation
        .as_sendable_conversation_state(true, &hooks, &Vec::new(), Vec::new())
        .unwrap();
    assert!(s.history.is_empty());
    assert_eq!(s.user_input_message.content, "hello");
    assert_eq!(conversation.context_message_length(), None);
}

fn resolved_name_after_send(catalog: Vec<ToolSpec>, name: &str, orig_name: &str) -> (String, String) {
    let mut conversation = new_conversation(catalog);
    conversation.set_next_user_message("start".to_string()).unwrap();
    let mut tu = tool_use("id1", name);
    tu.orig_name = orig_name.to_string();
    tu.args = "{\"a\":1}".to_string();
    tu.orig_args = "{\"orig\":true}".to_string();
    conversation
        .push_assistant_message(AssistantMessage::new_tool_use(None, "using".to_string(), vec![tu]))
        .unwrap();
    conversation.set_next_user_message("next".to_string()).unwrap();
    conversation.enforce_conversation_invariants();
    match &conversation.history()[0].1 {
        AssistantMessage::ToolUse { tool_uses, .. } => (tool_uses[0].name.clone(), tool_uses[0].args.clone()),
        _ => panic!("expected a tool use turn"),
    }
}

#[test]
fn unique_suffix_resolves_to_the_catalog_name() {
    let (name, args) = resolved_name_after_send(vec![tool("fs_write")], "write", "write");
    assert_eq!(name, "fs_write");
    assert_eq!(args, "{\"a\":1}");
}

#[test]
fn partial_name_that_is_no_suffix_resolves_to_the_unknown_tool_name() {
    let (name, _) = resolved_name_after_send(vec![tool("fs_write")], "writ", "writ");
    assert_eq!(name, DUMMY_TOOL_NAME);
}

#[test]
fn ambiguous_suffix_resolves_to_the_unknown_tool_name() {
    let (name, _) = resolved_name_after_send(vec![tool("fs_write"), tool("mcp_write")], "write", "write");
    assert_eq!(name, DUMMY_TOOL_NAME);
}

#[test]
fn unknown_tool_resolves_to_the_unknown_tool_name() {
    let (name, args) = resolved_name_after_send(catalog(), "does_not_exist", "does_not_exist");
    assert_eq!(name, "dummy");
    assert_eq!(args, "{\"a\":1}");
}

#[test]
fn known_original_name_is_restored_with_its_arguments() {
    let (name, args) = resolved_name_after_send(catalog(), "server___fs_read_alias", "fs_read");
    assert_eq!(name, "fs_read");
    assert_eq!(args, "{\"orig\":true}");
}

#[test]
fn catalog_name_is_kept() {
    let (name, args) = resolved_name_after_send(catalog(), "execute_bash", "something_else");
    assert_eq!(name, "execute_bash");
    assert_eq!(args, "{\"a\":1}");
}

#[test]
fn enforcing_twice_changes_nothing_more() {
    let mut conversation = new_conversation(vec![tool("fs_write"), tool("mcp_write")]);
    conversation.set_next_user_message("start".to_string()).unwrap();
    conversation
        .push_assistant_message(AssistantMessage::new_tool_use(None, "a".to_string(), vec![
            tool_use("1", "writ"),
            tool_use("2", "write"),
            tool_use("3", "fs_write"),
        ]))
        .unwrap();
    conversation.set_next_user_message("go on".to_string()).unwrap();
    conversation.enforce_conversation_invariants();
    let range1 = conversation.valid_history_range();
    let names1: Vec<String> = match &conversation.history()[0].1 {
        AssistantMessage::ToolUse { tool_uses, .. } => tool_uses.iter().map(|t| t.name.clone()).collect(),
        _ => panic!(),
    };
    let pending1 = format!("{:?}", conversation.next_user_message());
    conversation.enforce_conversation_invariants();
    let names2: Vec<String> = match &conversation.history()[0].1 {
        AssistantMessage::ToolUse { tool_uses, .. } => tool_uses.iter().map(|t| t.name.clone()).collect(),
        _ => panic!(),
    };
    assert_eq!(conversation.valid_history_range(), range1);
    assert_eq!(names1, names2);
    assert_eq!(names1, vec!["dummy".to_string(), "dummy".to_string(), "fs_write".to_string()]);
    assert_eq!(format!("{:?}", conversation.next_user_message()), pending1);
}

#[test]
fn pending_prompt_after_tool_uses_gets_cancelled_results() {
    let mut conversation = new_conversation(catalog());
    conversation.set_next_user_message("start".to_string()).unwrap();
    conversation
        .push_assistant_message(AssistantMessage::new_tool_use(None, "a".to_string(), vec![
            tool_use("t1", "fs_write"),
            tool_use("t2", "fs_read"),
        ]))
        .unwrap();
    conversation.set_next_user_message("never mind".to_string()).unwrap();
    let req = send(&mut conversation);
    let results = req.user_input_message.context.tool_results.clone().expect("cancelled results");
    assert_eq!(results.len(), 2);
    assert_eq!(results[0].tool_use_id, "t1");
    assert_eq!(results[1].tool_use_id, "t2");
    for r in &results {
        assert_eq!(r.status, ToolResultStatus::Error);
        match &r.content[0] {
            ToolUseResultBlock::Text(t) => assert_eq!(t, CANCELLED_TOOL_TEXT),
            _ => panic!("expected text"),
        }
    }
    assert_eq!(req.user_input_message.content, "never mind");
}

#[test]
fn collapsed_history_replaces_pending_tool_results() {
    let mut conversation = new_conversation(catalog());
    conversation.add_tool_results(vec![]).unwrap();
    for i in 0..130 {
        conversation
            .push_assistant_message(AssistantMessage::new_tool_use(None, i.to_string(), vec![tool_use("t", "fs_write")]))
            .unwrap();
        conversation
            .add_tool_results(vec![ToolUseResult {
                tool_use_id: "t".to_string(),
                content: vec![ToolUseResultBlock::Text("ok".to_string())],
                status: ToolResultStatus::Success,
            }])
            .unwrap();
    }
    conversation.enforce_conversation_invariants();
    assert_eq!(conversation.valid_history_range(), (0, 0));
    match &conversation.next_user_message().unwrap().content {
        UserMessageContent::Prompt { prompt } => assert_eq!(prompt, HISTORY_OVERFLOW_TEXT),
        other => panic!("expected the overflow prompt, found {:?}", other),
    }
    let req = send(&mut conversation);
    assert!(req.history.is_empty());
    assert!(req.user_input_message.context.tool_results.is_none());
}

#[test]
fn over_budget_history_starts_after_the_oldest_plain_user_turn() {
    let mut conversation = new_conversation(catalog());
    for i in 0..124 {
        conversation.set_next_user_message(format!("u{i}")).unwrap();
        conversation
            .push_assistant_message(AssistantMessage::new_response(None, format!("a{i}")))
            .unwrap();
    }
    conversation.set_next_user_message("last".to_string()).unwrap();
    conversation.enforce_conversation_invariants();
    assert_eq!(conversation.valid_history_range(), (1, 124));
    let req = send(&mut conversation);
    assert_eq!(req.history.len(), 2 * 123);
    assert_eq!(conversation.history().len(), 123);
    match &req.history[0] {
        ChatMessage::UserInputMessage(u) => assert_eq!(u.content, "u1"),
        _ => panic!(),
    }
}

#[test]
fn empty_prompt_is_replaced_and_a_second_prompt_is_refused() {
    let mut conversation = new_conversation(catalog());
    conversation.set_next_user_message(String::new()).unwrap();
    match &conversation.next_user_message().unwrap().content {
        UserMessageContent::Prompt { prompt } => assert_eq!(prompt, EMPTY_PROMPT_TEXT),
        _ => panic!(),
    }
    assert_eq!(
        conversation.set_next_user_message("again".to_string()),
        Err(ConversationError::PendingMessageExists)
    );
    assert_eq!(conversation.add_tool_results(vec![]), Err(ConversationError::PendingMessageExists));
}

#[test]
fn pushing_without_a_pending_message_fails() {
    let mut conversation = new_conversation(catalog());
    assert_eq!(
        conversation.push_assistant_message(AssistantMessage::new_response(None, "x".to_string())),
        Err(ConversationError::NoPendingMessage)
    );
    assert!(conversation.history().is_empty());
    assert!(matches!(
        conversation.as_sendable_conversation_state(false, &Vec::new(), &Vec::new(), Vec::new()),
        Err(ConversationError::NoPendingMessage)
    ));
}

#[test]
fn summary_keeps_last_pair_and_turns_tool_results_into_text() {
    let mut conversation = new_conversation(catalog());
    conversation.set_next_user_message("start".to_string()).unwrap();
    conversation
        .push_assistant_message(AssistantMessage::new_tool_use(Some("m1".to_string()), "a".to_string(), vec![tool_use("t1", "fs_write")]))
        .unwrap();
    conversation
        .add_tool_results(vec![ToolUseResult {
            tool_use_id: "t1".to_string(),
            content: vec![
                ToolUseResultBlock::Text("done".to_string()),
                ToolUseResultBlock::Json("{\"ok\":true}".to_string()),
            ],
            status: ToolResultStatus::Success,
        }])
        .unwrap();
    conversation
        .push_assistant_message(AssistantMessage::new_response(Some("m2".to_string()), "b".to_string()))
        .unwrap();
    conversation.replace_history_with_summary("the summary".to_string());
    assert_eq!(conversation.latest_summary().map(|s| s.as_str()), Some("the summary"));
    assert_eq!(conversation.history().len(), 1);
    match &conversation.history()[0].0.content {
        UserMessageContent::Prompt { prompt } => assert_eq!(prompt, "done {\"ok\":true}"),
        other => panic!("expected a prompt, found {:?}", other),
    }
    assert_eq!(conversation.message_id().map(|s| s.as_str()), Some("m2"));

    conversation.set_next_user_message("continue".to_string()).unwrap();
    let req = send(&mut conversation);
    assert_request_invariants(&req, 0);
    match &req.history[0] {
        ChatMessage::UserInputMessage(u) => {
            assert!(u.content.contains("SUMMARY CONTENT:\nthe summary\n"));
            assert!(u.content.starts_with("--- CONTEXT ENTRY BEGIN ---\n"));
        },
        _ => panic!(),
    }
    assert_eq!(req.history.len(), 4);
}

#[test]
fn summary_of_empty_tool_results_is_redacted() {
    let mut conversation = new_conversation(catalog());
    conversation.set_next_user_message("start".to_string()).unwrap();
    conversation
        .push_assistant_message(AssistantMessage::new_tool_use(None, "a".to_string(), vec![tool_use("t1", "fs_write")]))
        .unwrap();
    conversation
        .add_tool_results(vec![ToolUseResult {
            tool_use_id: "t1".to_string(),
            content: vec![],
            status: ToolResultStatus::Success,
        }])
        .unwrap();
    conversation
        .push_assistant_message(AssistantMessage::new_response(None, "b".to_string()))
        .unwrap();
    conversation.replace_history_with_summary("s".to_string());
    match &conversation.history()[0].0.content {
        UserMessageContent::Prompt { prompt } => assert_eq!(prompt, REDACTED_TOOL_RESULT_TEXT),
        _ => panic!(),
    }
}

#[test]
fn summary_on_empty_history_keeps_it_empty() {
    let mut conversation = new_conversation(catalog());
    conversation.replace_history_with_summary("s".to_string());
    assert!(conversation.history().is_empty());
    assert_eq!(conversation.latest_summary().map(|s| s.as_str()), Some("s"));
}

#[test]
fn summary_request_answers_trailing_tool_uses() {
    let mut conversation = new_conversation(catalog());
    conversation.set_next_user_message("start".to_string()).unwrap();
    conversation
        .push_assistant_message(AssistantMessage::new_tool_use(None, "a".to_string(), vec![tool_use("t1", "fs_write")]))
        .unwrap();
    let req = conversation.create_summary_request(Some("focus on files".to_string()));
    assert!(req.user_input_message.content.contains("IMPORTANT CUSTOM INSTRUCTION: focus on files\n\n"));
    let results = req.user_input_message.context.tool_results.expect("cancelled results");
    assert_eq!(results.len(), 1);
    assert_eq!(results[0].tool_use_id, "t1");
    assert!(req.user_input_message.context.tools.is_some());
    assert_eq!(req.history.len(), 2);

    let mut empty_tools = new_conversation(vec![]);
    let req = empty_tools.create_summary_request(None);
    assert!(req.user_input_message.context.tools.is_none());
    assert!(req.user_input_message.content.starts_with("[SYSTEM NOTE: This is an automated summarization request"));
}

#[test]
fn transcript_is_bounded_and_quoted() {
    let mut conversation = new_conversation(catalog());
    conversation.append_user_transcript("hello\nworld");
    assert_eq!(conversation.transcript()[0], "> hello> \nworld");
    conversation.append_assistant_transcript(&AssistantMessage::new_tool_use(None, "text".to_string(), vec![
        tool_use("1", "fs_write"),
        tool_use("2", "fs_read"),
    ]));
    assert_eq!(conversation.transcript()[1], "text\n[Tool uses: fs_write,fs_read]");
    conversation.append_assistant_transcript(&AssistantMessage::new_response(None, "plain".to_string()));
    assert_eq!(conversation.transcript()[2], "plain\n[Tool uses: none]");
    for i in 0..(MAX_CONVERSATION_STATE_HISTORY_LEN + 10) {
        conversation.append_transcript(i.to_string());
    }
    assert_eq!(conversation.transcript().len(), MAX_CONVERSATION_STATE_HISTORY_LEN);
    assert_eq!(conversation.transcript().last().unwrap(), &(MAX_CONVERSATION_STATE_HISTORY_LEN + 9).to_string());
}

#[test]
fn prompts_are_paired_into_history() {
    let mut conversation = new_conversation(catalog());
    let prompts = vec![
        Prompt { role: PromptRole::User, content: "u1".to_string() },
        Prompt { role: PromptRole::Assistant, content: "a1".to_string() },
        Prompt { role: PromptRole::User, content: "u2".to_string() },
        Prompt { role: PromptRole::User, content: "u3".to_string() },
        Prompt { role: PromptRole::Assistant, content: "a3".to_string() },
        Prompt { role: PromptRole::User, content: "last".to_string() },
    ];
    assert_eq!(conversation.append_prompts(prompts), Some("last".to_string()));
    let h = conversation.history();
    assert_eq!(h.len(), 2);
    match (&h[1].0.content, &h[1].1) {
        (UserMessageContent::Prompt { prompt }, AssistantMessage::Response { content, .. }) => {
            assert_eq!(prompt, "u3");
            assert_eq!(content, "a3");
        },
        _ => panic!(),
    }
    assert_eq!(conversation.append_prompts(vec![]), None);
}

#[test]
fn clear_keeps_summary_only_when_asked() {
    let mut conversation = new_conversation(catalog());
    conversation.replace_history_with_summary("s".to_string());
    conversation.set_next_user_message("x".to_string()).unwrap();
    conversation.clear(true);
    assert!(conversation.next_user_message().is_none());
    assert_eq!(conversation.latest_summary().map(|s| s.as_str()), Some("s"));
    conversation.clear(false);
    assert!(conversation.latest_summary().is_none());
}

#[test]
fn warning_level_is_critical_at_the_character_ceiling() {
    let mut conversation = new_conversation(catalog());
    assert_eq!(conversation.get_token_warning_level(&Vec::new(), Vec::new()), TokenWarningLevel::Normal);
    conversation.set_next_user_message("a".repeat(300_000)).unwrap();
    conversation
        .push_assistant_message(AssistantMessage::new_response(None, "b".repeat(299_999)))
        .unwrap();
    assert_eq!(conversation.calculate_char_count(&Vec::new(), Vec::new()), 599_999);
    assert_eq!(conversation.get_token_warning_level(&Vec::new(), Vec::new()), TokenWarningLevel::Normal);
    conversation.set_next_user_message("c".to_string()).unwrap();
    conversation
        .push_assistant_message(AssistantMessage::new_response(None, "d".to_string()))
        .unwrap();
    assert_eq!(conversation.calculate_char_count(&Vec::new(), Vec::new()), 600_001);
    assert_eq!(conversation.get_token_warning_level(&Vec::new(), Vec::new()), TokenWarningLevel::Critical);
}

#[test]
fn conversation_size_counts_each_part() {
    let mut conversation = new_conversation(catalog());
    conversation.set_next_user_message("hey".to_string()).unwrap();
    conversation
        .push_assistant_message(AssistantMessage::new_tool_use(None, "hi".to_string(), vec![tool_use("1", "fs_write")]))
        .unwrap();
    let files = vec![("f".to_string(), "x".to_string())];
    let snap = conversation.backend_conversation_state(false, &Vec::new(), &files, Vec::new());
    let size = snap.calculate_conversation_size();
    assert_eq!(size.user_messages, 3);
    assert_eq!(size.assistant_messages, 2 + "fs_write".len() + "null".len());
    let context_text = "--- CONTEXT ENTRY BEGIN ---\n[f]\nx\n--- CONTEXT ENTRY END ---\n\n";
    let ack = chat_cli::conversation::CONTEXT_ACKNOWLEDGEMENT;
    assert_eq!(size.context_messages, context_text.chars().count() + ack.chars().count());
    assert_eq!(conversation.context_message_length(), Some(context_text.chars().count()));
    assert_eq!(size.total(), 3 + 14 + context_text.chars().count() + ack.chars().count());
}

#[test]
fn truncation_cuts_prompts_and_text_results() {
    let mut conversation = new_conversation(catalog());
    conversation.set_next_user_message("p".repeat(30_000)).unwrap();
    conversation
        .push_assistant_message(AssistantMessage::new_response(None, "r".to_string()))
        .unwrap();
    conversation.truncate_large_user_messages();
    match &conversation.history()[0].0.content {
        UserMessageContent::Prompt { prompt } => assert_eq!(prompt.chars().count(), 25_000),
        _ => panic!(),
    }
}

#[test]
fn summary_request_sends_in_range_history_without_context() {
    let mut conversation = new_conversation(catalog());
    conversation.replace_history_with_summary("old summary".to_string());
    conversation.set_next_user_message("q".to_string()).unwrap();
    conversation
        .push_assistant_message(AssistantMessage::new_tool_use(None, "a".to_string(), vec![
            tool_use("t1", "fs_write"),
            tool_use("t2", "fs_read"),
        ]))
        .unwrap();
    let req = conversation.create_summary_request(None);
    assert_eq!(req.history.len(), 2);
    match &req.history[0] {
        ChatMessage::UserInputMessage(u) => assert_eq!(u.content, "q"),
        _ => panic!(),
    }
    let results = req.user_input_message.context.tool_results.expect("cancelled results");
    assert_eq!(results.iter().map(|r| r.tool_use_id.as_str()).collect::<Vec<_>>(), vec!["t1", "t2"]);
    assert!(results.iter().all(|r| r.status == ToolResultStatus::Error));
    assert_eq!(conversation.history().len(), 1);
}

#[test]
fn empty_tool_results_after_tool_uses_are_replaced_by_cancelled_results() {
    let mut conversation = new_conversation(catalog());
    conversation.set_next_user_message("start".to_string()).unwrap();
    conversation
        .push_assistant_message(AssistantMessage::new_tool_use(None, "a".to_string(), vec![tool_use("t1", "fs_write")]))
        .unwrap();
    conversation.add_tool_results(vec![]).unwrap();
    let req = send(&mut conversation);
    let results = req.user_input_message.context.tool_results.expect("cancelled results");
    assert_eq!(results.len(), 1);
    assert_eq!(results[0].tool_use_id, "t1");
    assert_eq!(req.user_input_message.content, CANCELLED_TOOL_TEXT);
}
