//! The conversation store: a bounded history of (user, assistant) pairs, the pending outgoing
//! user turn, the range of history that may be sent, and the assembly of the request sent to
//! the backend on every turn.
use crate::message::{
    block_texts, cancelled_results, copy_opt_string, ids_of_tool_uses, join_with_spaces,
    joined_with_spaces, opt_view, result_block_texts, same_assistant, same_user, sat,
    tool_use_ids, truncated_user, views_of, AssistantMessage, AssistantToolUse, ImageBlock, ToolUseResult, UserMessage,
    UserMessageContent, CANCELLED_TOOL_TEXT, EMPTY_PROMPT_TEXT,
};
use crate::text::{ends_with, first_chars, is_suffix, quote_newlines, quoted_newlines, take_chars};
use crate::tools::{ids_of_queued, queued_ids, QueuedTool};
use crate::wire::{
    alternates, assistant_into_wire, carries_results, copy_tools, ends_with_tool_uses,
    history_wire_of, no_tools_in_history, results_correlated, user_into_wire, user_wire_of,
    wire_pair_at, ChatMessage, ConversationRequest, ToolSpec,
};
use vstd::prelude::*;

verus! {

/// Maximum number of messages sent as history, context messages included.
pub const MAX_CONVERSATION_STATE_HISTORY_LEN: usize = 250;

/// Character count at which the conversation is reported as critically large.
pub const MAX_CHARS: usize = 600000;

/// Maximum size, in characters, of a user prompt built from serialized tool results.
pub const MAX_USER_MESSAGE_SIZE: usize = 600000;

/// Size, in characters, that user messages are cut to before a second compaction attempt.
pub const TRUNCATED_USER_MESSAGE_SIZE: usize = 25000;

/// Reserved tool name that replaces unknown or ambiguous tool names in the history.
pub const DUMMY_TOOL_NAME: &'static str = "dummy";

/// Prompt that replaces pending tool results when the whole history had to be dropped.
pub const HISTORY_OVERFLOW_TEXT: &'static str =
    "The conversation history has overflowed, clearing state";

/// Prompt that stands for tool results whose content was empty.
pub const REDACTED_TOOL_RESULT_TEXT: &'static str = "<tool result redacted>";

/// Structural errors of the store.
#[derive(Debug, Clone, Copy, PartialEq, Eq, Structural)]
pub enum ConversationError {
    /// A pending user message already exists; at most one turn is outstanding.
    PendingMessageExists,
    /// No pending user message is set.
    NoPendingMessage,
}

/// Who authored a prompt fetched from an MCP server.
#[derive(Debug, Clone, Copy, PartialEq, Eq, Structural)]
pub enum PromptRole {
    User,
    Assistant,
}

/// One message of a prompt fetched from an MCP server.
#[derive(Debug, Clone)]
pub struct Prompt {
    pub role: PromptRole,
    pub content: String,
}

/// Tracks state related to an ongoing conversation.
#[derive(Debug)]
pub struct ConversationState {
    conversation_id: String,
    /// The next user message to be sent.
    next_message: Option<UserMessage>,
    history: Vec<(UserMessage, AssistantMessage)>,
    /// The range of history sendable to the backend (start inclusive, end exclusive).
    valid_history_range: (usize, usize),
    /// Human-readable log of the conversation, bounded in length.
    transcript: Vec<String>,
    /// The active tool catalog.
    tools: Vec<ToolSpec>,
    /// Length in bytes of the last context message, if any.
    context_message_length: Option<usize>,
    /// The latest summary created by compaction.
    latest_summary: Option<String>,
    /// Model explicitly selected for this conversation.
    model: Option<String>,
    /// Name of the active context profile, if a context manager is configured.
    current_profile: Option<String>,
}

/// The transcript line recorded for an assistant turn.
pub open spec fn assistant_transcript_text(m: AssistantMessage) -> Seq<char> {
    m.content_view() + "\n[Tool uses: "@ + match m {
        AssistantMessage::Response { .. } => "none"@,
        AssistantMessage::ToolUse { tool_uses, .. } => joined_names(tool_uses@),
    } + "]"@
}

/// The names of invocations joined by commas.
pub open spec fn joined_names(t: Seq<AssistantToolUse>) -> Seq<char>
    decreases t.len(),
{
    if t.len() == 0 {
        Seq::empty()
    } else if t.len() == 1 {
        t[0].name@
    } else {
        joined_names(t.drop_last()) + ","@ + t.last().name@
    }
}

/// The transcript after appending `line` to `t`: the oldest line is dropped at capacity.
pub open spec fn appended_transcript(v: Seq<Seq<char>>, line: Seq<char>) -> Seq<Seq<char>> {
    if v.len() >= MAX_CONVERSATION_STATE_HISTORY_LEN {
        v.drop_first().push(line)
    } else {
        v.push(line)
    }
}

/// Pairs formed from a prompt list: each time both a user and an assistant message have been
/// seen since the last pair, they form a new pair (a later message of one role replaces an
/// earlier one that is still unpaired).
pub open spec fn prompt_pairs(
    ps: Seq<Prompt>,
    user: Option<Seq<char>>,
    asst: Option<Seq<char>>,
) -> Seq<(Seq<char>, Seq<char>)>
    decreases ps.len(),
{
    if ps.len() == 0 {
        Seq::empty()
    } else {
        let (u, a) = match ps[0].role {
            PromptRole::User => (Some(ps[0].content@), asst),
            PromptRole::Assistant => (user, Some(ps[0].content@)),
        };
        if u is Some && a is Some {
            seq![(u->0, a->0)] + prompt_pairs(ps.drop_first(), None, None)
        } else {
            prompt_pairs(ps.drop_first(), u, a)
        }
    }
}

/// A history pair built from a prompt pair: a plain prompt and a plain response.
pub open spec fn pair_from_prompts(
    pair: (UserMessage, AssistantMessage),
    p: (Seq<char>, Seq<char>),
) -> bool {
    &&& pair.0.content matches UserMessageContent::Prompt { prompt } && prompt@ == p.0
    &&& pair.1 matches AssistantMessage::Response { message_id, content } && message_id is None
        && content@ == p.1
}

/// Whether `n` history pairs leave too little room for the context messages.
pub open spec fn over_budget(n: int) -> bool {
    2 * n > MAX_CONVERSATION_STATE_HISTORY_LEN - 6
}

/// The first index from `i` on whose user turn carries no tool results.
pub open spec fn first_plain_from(h: Seq<(UserMessage, AssistantMessage)>, i: int) -> Option<int>
    decreases h.len() - i,
{
    if i < 0 || i >= h.len() {
        None
    } else if !h[i].0.has_results() {
        Some(i)
    } else {
        first_plain_from(h, i + 1)
    }
}

/// The valid range of a history: all of it, or, when it is over budget, from the first user
/// turn after the oldest one that carries no tool results; empty when there is none.
pub open spec fn valid_range_for(h: Seq<(UserMessage, AssistantMessage)>) -> (int, int) {
    if over_budget(h.len() as int) {
        match first_plain_from(h, 1) {
            Some(i) => (i, h.len() as int),
            None => (0, 0),
        }
    } else {
        (0, h.len() as int)
    }
}

/// The history is over budget and no pair after the oldest may start it.
pub open spec fn history_collapses(h: Seq<(UserMessage, AssistantMessage)>) -> bool {
    over_budget(h.len() as int) && first_plain_from(h, 1) is None
}

/// A pending message that carries tool results.
pub open spec fn pending_with_results(p: Option<UserMessage>) -> bool {
    match p {
        Some(m) => m.has_results(),
        None => false,
    }
}

/// A pending message that answers none of the `n` invocations of the last turn: it carries no
/// tool results, or an empty list of them while there are invocations to answer.
pub open spec fn pending_unanswered(p: Option<UserMessage>, n: nat) -> bool {
    match p {
        Some(m) => !m.has_results() || (m.results().len() == 0 && n > 0),
        None => false,
    }
}

/// The placeholder prompt that replaces pending tool results when the history collapses.
pub open spec fn is_overflow_message(p: Option<UserMessage>) -> bool {
    match p {
        Some(m) => m.content matches UserMessageContent::Prompt { prompt } && prompt@
            == HISTORY_OVERFLOW_TEXT@ && m.additional_context@.len() == 0 && m.images is None,
        None => false,
    }
}

/// A turn of cancelled results, one per invocation of `tool_uses`, explained by `prompt`.
pub open spec fn is_cancelled_reply(
    p: Option<UserMessage>,
    prompt: Option<Seq<char>>,
    tool_uses: Seq<AssistantToolUse>,
) -> bool {
    match p {
        Some(m) => {
            &&& m.content is CancelledToolUses
            &&& m.prompt_view() == Some(
                match prompt {
                    Some(t) => t,
                    None => CANCELLED_TOOL_TEXT@,
                },
            )
            &&& cancelled_results(m.results(), tool_use_ids(tool_uses))
            &&& m.additional_context@.len() == 0
            &&& m.images is None
        },
        None => false,
    }
}

/// The last in-range assistant turn requests tools.
pub open spec fn range_ends_in_tool_use(
    h: Seq<(UserMessage, AssistantMessage)>,
    range: (int, int),
) -> bool {
    range.0 < range.1 && h[range.1 - 1].1 is ToolUse
}

/// The pending message after enforcement: the overflow placeholder when the history collapses
/// under pending tool results; cancelled results for every invocation of the last in-range
/// assistant turn when it requests tools and the pending message answers none; else unchanged.
pub open spec fn enforced_pending(
    h: Seq<(UserMessage, AssistantMessage)>,
    range: (int, int),
    old_p: Option<UserMessage>,
    new_p: Option<UserMessage>,
) -> bool {
    if history_collapses(h) && pending_with_results(old_p) {
        is_overflow_message(new_p)
    } else if range_ends_in_tool_use(h, range) && pending_unanswered(
        old_p,
        h[range.1 - 1].1.invocations().len(),
    ) {
        is_cancelled_reply(new_p, old_p->0.prompt_view(), h[range.1 - 1].1.invocations())
    } else {
        new_p == old_p
    }
}

/// Names of the tool catalog, the reserved unknown-tool name excluded.
pub open spec fn catalog_names(tools: Seq<ToolSpec>) -> Set<Seq<char>> {
    Set::new(
        |n: Seq<char>|
            n != DUMMY_TOOL_NAME@ && exists|i: int| 0 <= i < tools.len() && tools[i].name@ == n,
    )
}

/// `m` is a catalog name that ends with `n`.
#[verifier::opaque]
pub open spec fn suffix_candidate(names: Set<Seq<char>>, n: Seq<char>, m: Seq<char>) -> bool {
    names.contains(m) && is_suffix(n, m)
}

/// Exactly one catalog name ends with `n`.
pub open spec fn has_unique_suffix_match(names: Set<Seq<char>>, n: Seq<char>) -> bool {
    exists|m: Seq<char>|
        suffix_candidate(names, n, m) && forall|m2: Seq<char>|
            #[trigger] suffix_candidate(names, n, m2) ==> m2 == m
}

/// `name` and `args` are what invocation `t` resolves to against the catalog: kept when its
/// name is in the catalog; its original name and arguments when that name is; the one catalog
/// name that ends with its name, when exactly one does; otherwise the reserved unknown-tool
/// name.
pub open spec fn resolved_as(
    t: AssistantToolUse,
    names: Set<Seq<char>>,
    name: Seq<char>,
    args: Seq<char>,
) -> bool {
    if names.contains(t.name@) {
        name == t.name@ && args == t.args@
    } else if names.contains(t.orig_name@) {
        name == t.orig_name@ && args == t.orig_args@
    } else if has_unique_suffix_match(names, t.name@) {
        suffix_candidate(names, t.name@, name) && args == t.args@
    } else {
        name == DUMMY_TOOL_NAME@ && args == t.args@
    }
}

/// `new_t` is `old_t` with its name resolved.
pub open spec fn resolves(old_t: AssistantToolUse, new_t: AssistantToolUse, names: Set<Seq<char>>) -> bool {
    &&& new_t.id == old_t.id
    &&& new_t.orig_name == old_t.orig_name
    &&& new_t.orig_args == old_t.orig_args
    &&& resolved_as(old_t, names, new_t.name@, new_t.args@)
}

/// `new_m` is `old_m` with the names of its invocations resolved.
pub open spec fn resolved_message(
    old_m: AssistantMessage,
    new_m: AssistantMessage,
    names: Set<Seq<char>>,
) -> bool {
    match old_m {
        AssistantMessage::Response { .. } => new_m == old_m,
        AssistantMessage::ToolUse { message_id, content, tool_uses } => match new_m {
            AssistantMessage::ToolUse { message_id: m2, content: c2, tool_uses: t2 } => {
                &&& m2 == message_id
                &&& c2 == content
                &&& t2@.len() == tool_uses@.len()
                &&& forall|j: int|
                    0 <= j < tool_uses@.len() ==> resolves(tool_uses@[j], #[trigger] t2@[j], names)
            },
            AssistantMessage::Response { .. } => false,
        },
    }
}

/// `new_h` is `old_h` with every invocation name resolved; user turns are untouched.
pub open spec fn resolved_history(
    old_h: Seq<(UserMessage, AssistantMessage)>,
    new_h: Seq<(UserMessage, AssistantMessage)>,
    names: Set<Seq<char>>,
) -> bool {
    &&& new_h.len() == old_h.len()
    &&& forall|i: int|
        0 <= i < old_h.len() ==> (#[trigger] new_h[i]).0 == old_h[i].0 && resolved_message(
            old_h[i].1,
            new_h[i].1,
            names,
        )
}

/// Fields that enforcement leaves alone.
pub open spec fn same_settings(o: ConversationState, n: ConversationState) -> bool {
    &&& n.tools_spec() == o.tools_spec()
    &&& n.transcript_spec() == o.transcript_spec()
    &&& n.latest_summary_spec() == o.latest_summary_spec()
    &&& n.model_spec() == o.model_spec()
    &&& n.conversation_id_spec() == o.conversation_id_spec()
    &&& n.current_profile_spec() == o.current_profile_spec()
    &&& n.context_message_length_spec() == o.context_message_length_spec()
}

/// `n` is `o` after enforcing the conversation invariants.
pub open spec fn enforce_post(o: ConversationState, n: ConversationState) -> bool {
    let h = o.history_spec();
    let range = valid_range_for(h);
    &&& n.wf()
    &&& n.valid_range_spec().0 == range.0
    &&& n.valid_range_spec().1 == range.1
    &&& resolved_history(h, n.history_spec(), catalog_names(o.tools_spec()))
    &&& enforced_pending(h, range, o.next_message_spec(), n.next_message_spec())
    &&& same_settings(o, n)
}

/// Some string of `r` has the characters `n`.
pub open spec fn names_contain(r: Seq<String>, n: Seq<char>) -> bool {
    exists|k: int| 0 <= k < r.len() && (#[trigger] r[k])@ == n
}

/// A tool among the first `i` of the catalog is named `n`, other than the reserved name.
pub open spec fn named_before(tools: Seq<ToolSpec>, i: int, n: Seq<char>) -> bool {
    n != DUMMY_TOOL_NAME@ && exists|j: int| 0 <= j < i && (#[trigger] tools[j]).name@ == n
}

fn catalog_name_list(tools: &Vec<ToolSpec>) -> (r: Vec<String>)
    ensures
        forall|n: Seq<char>| #[trigger] catalog_names(tools@).contains(n) <==> names_contain(r@, n),
{
    let dummy = String::from_str(DUMMY_TOOL_NAME);
    let mut r: Vec<String> = Vec::new();
    let mut i: usize = 0;
    while i < tools.len()
        invariant
            i <= tools.len(),
            dummy@ == DUMMY_TOOL_NAME@,
            forall|n: Seq<char>|
                #![trigger names_contain(r@, n)]
                #![trigger named_before(tools@, i as int, n)]
                named_before(tools@, i as int, n) <==> names_contain(r@, n),
        decreases tools.len() - i,
    {
        let ghost r0 = r@;
        if tools[i].name != dummy {
            r.push(tools[i].name.clone());
        }
        proof {
            assert forall|n: Seq<char>|
                #![trigger names_contain(r@, n)]
                #![trigger named_before(tools@, i + 1, n)]
                named_before(tools@, i + 1, n) <==> names_contain(r@, n) by {
                if named_before(tools@, i + 1, n) {
                    let j = choose|j: int| 0 <= j < i + 1 && (#[trigger] tools@[j]).name@ == n;
                    if j == i {
                        assert(r@[r@.len() - 1]@ == n);
                    } else {
                        assert(named_before(tools@, i as int, n));
                        let k = choose|k: int| 0 <= k < r0.len() && (#[trigger] r0[k])@ == n;
                        assert(r@[k]@ == n);
                    }
                }
                if names_contain(r@, n) {
                    let k = choose|k: int| 0 <= k < r@.len() && (#[trigger] r@[k])@ == n;
                    if k < r0.len() {
                        assert(names_contain(r0, n));
                        assert(named_before(tools@, i as int, n));
                        let j = choose|j: int| 0 <= j < i && (#[trigger] tools@[j]).name@ == n;
                        assert(tools@[j].name@ == n);
                    } else {
                        assert(tools@[i as int].name@ == n);
                    }
                }
            }
        }
        i = i + 1;
    }
    proof {
        assert forall|n: Seq<char>| #[trigger] catalog_names(tools@).contains(n) <==> names_contain(
            r@,
            n,
        ) by {
            if catalog_names(tools@).contains(n) {
                let j = choose|j: int| 0 <= j < tools@.len() && tools@[j].name@ == n;
                assert(named_before(tools@, i as int, n));
            }
            if names_contain(r@, n) {
                assert(named_before(tools@, i as int, n));
                let j = choose|j: int| 0 <= j < i && (#[trigger] tools@[j]).name@ == n;
                assert(tools@[j].name@ == n);
            }
        }
    }
    r
}

fn contains_name(names: &Vec<String>, n: &String) -> (r: bool)
    ensures
        r == names_contain(names@, n@),
{
    let mut i: usize = 0;
    while i < names.len()
        invariant
            i <= names.len(),
            forall|j: int| 0 <= j < i ==> (#[trigger] names@[j])@ != n@,
        decreases names.len() - i,
    {
        if names[i] == *n {
            return true;
        }
        i = i + 1;
    }
    false
}

#[verifier::spinoff_prover]
proof fn lemma_no_suffix_candidate(set: Set<Seq<char>>, names: Seq<String>, n: Seq<char>)
    requires
        forall|m: Seq<char>| #[trigger] set.contains(m) <==> names_contain(names, m),
        forall|j: int| 0 <= j < names.len() ==> !is_suffix(n, (#[trigger] names[j])@),
    ensures
        !has_unique_suffix_match(set, n),
{
    if has_unique_suffix_match(set, n) {
        let m = choose|m: Seq<char>|
            suffix_candidate(set, n, m) && forall|m2: Seq<char>|
                #[trigger] suffix_candidate(set, n, m2) ==> m2 == m;
        reveal(suffix_candidate);
        assert(names_contain(names, m));
        let j = choose|j: int| 0 <= j < names.len() && (#[trigger] names[j])@ == m;
        assert(!is_suffix(n, names[j]@));
    }
}

#[verifier::spinoff_prover]
proof fn lemma_two_suffix_candidates(set: Set<Seq<char>>, n: Seq<char>, a: Seq<char>, b: Seq<char>)
    requires
        suffix_candidate(set, n, a),
        suffix_candidate(set, n, b),
        a != b,
    ensures
        !has_unique_suffix_match(set, n),
{
    if has_unique_suffix_match(set, n) {
        let m = choose|m: Seq<char>|
            suffix_candidate(set, n, m) && forall|m2: Seq<char>|
                #[trigger] suffix_candidate(set, n, m2) ==> m2 == m;
        assert(a == m);
        assert(b == m);
    }
}

/// Index in `names` of the unique name that ends with `n`, if exactly one (as a name) does.
fn unique_suffix_index(names: &Vec<String>, n: &String, Ghost(set): Ghost<Set<Seq<char>>>) -> (r:
    Option<usize>)
    requires
        forall|m: Seq<char>| #[trigger] set.contains(m) <==> names_contain(names@, m),
    ensures
        match r {
            Some(k) => k < names@.len() && has_unique_suffix_match(set, n@) && suffix_candidate(
                set,
                n@,
                names@[k as int]@,
            ),
            None => !has_unique_suffix_match(set, n@),
        },
{
    let mut found: Option<usize> = None;
    let mut ambiguous = false;
    let ghost mut wit: int = 0;
    let mut i: usize = 0;
    while i < names.len()
        invariant
            i <= names.len(),
            found is None ==> forall|j: int| 0 <= j < i ==> !is_suffix(n@, (#[trigger] names@[j])@),
            found matches Some(k) ==> k < i && is_suffix(n@, names@[k as int]@),
            (!ambiguous && found is Some) ==> forall|j: int|
                0 <= j < i && is_suffix(n@, (#[trigger] names@[j])@) ==> names@[j]@
                    == names@[found->0 as int]@,
            ambiguous ==> found is Some && 0 <= wit < i && is_suffix(n@, names@[wit]@)
                && names@[wit]@ != names@[found->0 as int]@,
        decreases names.len() - i,
    {
        if ends_with(names[i].as_str(), n.as_str()) {
            match found {
                None => {
                    found = Some(i);
                },
                Some(k) => {
                    if names[i] != names[k] {
                        if !ambiguous {
                            proof {
                                wit = i as int;
                            }
                        }
                        ambiguous = true;
                    }
                },
            }
        }
        i = i + 1;
    }
    match found {
        None => {
            proof {
                lemma_no_suffix_candidate(set, names@, n@);
            }
            None
        },
        Some(k) => {
            if ambiguous {
                proof {
                    assert(names_contain(names@, names@[wit]@));
                    assert(names_contain(names@, names@[k as int]@));
                    reveal(suffix_candidate);
                    lemma_two_suffix_candidates(set, n@, names@[wit]@, names@[k as int]@);
                }
                None
            } else {
                proof {
                    let m = names@[k as int]@;
                    assert(names_contain(names@, m));
                    reveal(suffix_candidate);
                    assert forall|m2: Seq<char>| suffix_candidate(set, n@, m2) implies m2 == m by {
                        assert(names_contain(names@, m2));
                        let j = choose|j: int| 0 <= j < names@.len() && (#[trigger] names@[j])@ == m2;
                        assert(is_suffix(n@, names@[j]@));
                    }
                    assert(suffix_candidate(set, n@, m));
                }
                Some(k)
            }
        },
    }
}

fn resolve_tool_use(t: AssistantToolUse, names: &Vec<String>, Ghost(set): Ghost<Set<Seq<char>>>) -> (r:
    AssistantToolUse)
    requires
        forall|m: Seq<char>| #[trigger] set.contains(m) <==> names_contain(names@, m),
    ensures
        resolves(t, r, set),
{
    if contains_name(names, &t.name) {
        return t;
    }
    if contains_name(names, &t.orig_name) {
        let name = t.orig_name.clone();
        let args = t.orig_args.clone();
        return AssistantToolUse { id: t.id, name, orig_name: t.orig_name, args, orig_args: t.orig_args };
    }
    let name = match unique_suffix_index(names, &t.name, Ghost(set)) {
        Some(k) => names[k].clone(),
        None => String::from_str(DUMMY_TOOL_NAME),
    };
    AssistantToolUse { id: t.id, name, orig_name: t.orig_name, args: t.args, orig_args: t.orig_args }
}

fn resolve_message(m: AssistantMessage, names: &Vec<String>, Ghost(set): Ghost<Set<Seq<char>>>) -> (r:
    AssistantMessage)
    requires
        forall|n: Seq<char>| #[trigger] set.contains(n) <==> names_contain(names@, n),
    ensures
        resolved_message(m, r, set),
{
    match m {
        AssistantMessage::Response { message_id, content } => AssistantMessage::Response {
            message_id,
            content,
        },
        AssistantMessage::ToolUse { message_id, content, tool_uses } => {
            let ghost orig = tool_uses@;
            let mut rest = tool_uses;
            let mut out: Vec<AssistantToolUse> = Vec::new();
            while rest.len() > 0
                invariant
                    forall|n: Seq<char>| #[trigger] set.contains(n) <==> names_contain(names@, n),
                    out@.len() + rest@.len() == orig.len(),
                    rest@ == orig.subrange(out@.len() as int, orig.len() as int),
                    forall|j: int| 0 <= j < out@.len() ==> resolves(orig[j], #[trigger] out@[j], set),
                decreases rest.len(),
            {
                let t = rest.remove(0);
                assert(t == orig[out@.len() as int]);
                out.push(resolve_tool_use(t, names, Ghost(set)));
                assert(rest@ =~= orig.subrange(out@.len() as int, orig.len() as int));
            }
            AssistantMessage::ToolUse { message_id, content, tool_uses: out }
        },
    }
}

fn joined_tool_names(t: &Vec<AssistantToolUse>) -> (r: String)
    ensures
        r@ == joined_names(t@),
{
    let mut r = String::new();
    let mut i: usize = 0;
    while i < t.len()
        invariant
            i <= t.len(),
            r@ == joined_names(t@.subrange(0, i as int)),
        decreases t.len() - i,
    {
        assert(t@.subrange(0, i + 1).drop_last() == t@.subrange(0, i as int));
        if i > 0 {
            r.append(",");
        }
        r.append(t[i].name.as_str());
        i = i + 1;
    }
    assert(t@.subrange(0, t.len() as int) == t@);
    r
}

impl ConversationState {
    /// The structural invariant of the store.
    pub closed spec fn wf(&self) -> bool {
        &&& self.valid_history_range.0 <= self.valid_history_range.1 <= self.history@.len()
        &&& self.transcript@.len() <= MAX_CONVERSATION_STATE_HISTORY_LEN
    }

    pub closed spec fn history_spec(&self) -> Seq<(UserMessage, AssistantMessage)> {
        self.history@
    }

    pub closed spec fn next_message_spec(&self) -> Option<UserMessage> {
        self.next_message
    }

    pub closed spec fn valid_range_spec(&self) -> (usize, usize) {
        self.valid_history_range
    }

    pub closed spec fn transcript_spec(&self) -> Seq<Seq<char>> {
        views_of(self.transcript@)
    }

    pub closed spec fn latest_summary_spec(&self) -> Option<String> {
        self.latest_summary
    }

    pub closed spec fn conversation_id_spec(&self) -> Seq<char> {
        self.conversation_id@
    }

    pub closed spec fn context_message_length_spec(&self) -> Option<usize> {
        self.context_message_length
    }

    pub closed spec fn current_profile_spec(&self) -> Option<String> {
        self.current_profile
    }

    pub closed spec fn tools_spec(&self) -> Seq<ToolSpec> {
        self.tools@
    }

    pub closed spec fn model_spec(&self) -> Option<String> {
        self.model
    }

    /// The pairs of history in the valid range.
    pub closed spec fn in_range(&self) -> Seq<(UserMessage, AssistantMessage)> {
        self.history@.subrange(self.valid_history_range.0 as int, self.valid_history_range.1 as int)
    }

    /// A new, empty conversation.
    pub fn new(
        conversation_id: &str,
        tools: Vec<ToolSpec>,
        current_model_id: Option<String>,
        current_profile: Option<String>,
    ) -> (s: Self)
        ensures
            s.wf(),
            s.conversation_id_spec() == conversation_id@,
            s.history_spec().len() == 0,
            s.next_message_spec() is None,
            s.valid_range_spec() == (0usize, 0usize),
            s.transcript_spec().len() == 0,
            s.tools_spec() == tools@,
            s.model_spec() == current_model_id,
            s.current_profile_spec() == current_profile,
            s.latest_summary_spec() is None,
            s.context_message_length_spec() is None,
    {
        ConversationState {
            conversation_id: String::from_str(conversation_id),
            next_message: None,
            history: Vec::new(),
            valid_history_range: (0, 0),
            transcript: Vec::new(),
            tools,
            context_message_length: None,
            latest_summary: None,
            model: current_model_id,
            current_profile,
        }
    }

    pub fn latest_summary(&self) -> (r: Option<&String>)
        ensures
            r matches Some(s) ==> self.latest_summary_spec() == Some(*s),
            r is None ==> self.latest_summary_spec() is None,
    {
        self.latest_summary.as_ref()
    }

    pub fn history(&self) -> (r: &Vec<(UserMessage, AssistantMessage)>)
        ensures
            r@ == self.history_spec(),
    {
        &self.history
    }

    pub fn transcript(&self) -> (r: &Vec<String>)
        ensures
            views_of(r@) == self.transcript_spec(),
    {
        &self.transcript
    }

    pub fn valid_history_range(&self) -> (r: (usize, usize))
        ensures
            r == self.valid_range_spec(),
    {
        self.valid_history_range
    }

    pub fn next_user_message(&self) -> (r: Option<&UserMessage>)
        ensures
            r matches Some(m) ==> self.next_message_spec() == Some(*m),
            r is None ==> self.next_message_spec() is None,
    {
        self.next_message.as_ref()
    }

    pub fn conversation_id(&self) -> (r: &String)
        ensures
            r@ == self.conversation_id_spec(),
    {
        &self.conversation_id
    }

    pub fn current_profile(&self) -> (r: Option<&String>)
        ensures
            r matches Some(s) ==> self.current_profile_spec() == Some(*s),
            r is None ==> self.current_profile_spec() is None,
    {
        self.current_profile.as_ref()
    }

    /// The active tool catalog.
    pub fn tools(&self) -> (r: &Vec<ToolSpec>)
        ensures
            r@ == self.tools_spec(),
    {
        &self.tools
    }

    /// Replaces the tool catalog, as after the tool provider reported a change.
    pub fn set_tools(&mut self, tools: Vec<ToolSpec>)
        requires
            old(self).wf(),
        ensures
            final(self).wf(),
            final(self).tools_spec() == tools@,
            final(self).history_spec() == old(self).history_spec(),
            final(self).next_message_spec() == old(self).next_message_spec(),
            final(self).valid_range_spec() == old(self).valid_range_spec(),
            final(self).transcript_spec() == old(self).transcript_spec(),
            final(self).latest_summary_spec() == old(self).latest_summary_spec(),
            final(self).model_spec() == old(self).model_spec(),
    {
        self.tools = tools;
    }

    /// The model selected for this conversation, if any.
    pub fn model(&self) -> (r: Option<&String>)
        ensures
            r matches Some(s) ==> self.model_spec() == Some(*s),
            r is None ==> self.model_spec() is None,
    {
        self.model.as_ref()
    }

    /// Selects the model for this conversation.
    pub fn set_model(&mut self, model: Option<String>)
        requires
            old(self).wf(),
        ensures
            final(self).wf(),
            final(self).model_spec() == model,
            final(self).tools_spec() == old(self).tools_spec(),
            final(self).history_spec() == old(self).history_spec(),
            final(self).next_message_spec() == old(self).next_message_spec(),
            final(self).valid_range_spec() == old(self).valid_range_spec(),
            final(self).transcript_spec() == old(self).transcript_spec(),
            final(self).latest_summary_spec() == old(self).latest_summary_spec(),
    {
        self.model = model;
    }

    /// The length of the user message used as context, if any.
    pub fn context_message_length(&self) -> (r: Option<usize>)
        ensures
            r == self.context_message_length_spec(),
    {
        self.context_message_length
    }

    /// The message id of the last assistant turn, if it has one.
    pub fn message_id(&self) -> (r: Option<&String>)
        ensures
            self.history_spec().len() == 0 ==> r is None,
            self.history_spec().len() > 0 ==> (match r {
                Some(s) => self.history_spec().last().1.message_id_view() == Some(*s),
                None => self.history_spec().last().1.message_id_view() is None,
            }),
    {
        if self.history.len() == 0 {
            None
        } else {
            self.history[self.history.len() - 1].1.message_id()
        }
    }

    /// Clears the history and the pending message, and the summary unless it is preserved.
    pub fn clear(&mut self, preserve_summary: bool)
        requires
            old(self).wf(),
        ensures
            final(self).wf(),
            final(self).history_spec().len() == 0,
            final(self).next_message_spec() is None,
            final(self).valid_range_spec() == (0usize, 0usize),
            final(self).conversation_id_spec() == old(self).conversation_id_spec(),
            final(self).model_spec() == old(self).model_spec(),
            final(self).current_profile_spec() == old(self).current_profile_spec(),
            final(self).latest_summary_spec() == if preserve_summary {
                old(self).latest_summary_spec()
            } else {
                None
            },
            final(self).transcript_spec() == old(self).transcript_spec(),
            final(self).tools_spec() == old(self).tools_spec(),
    {
        self.next_message = None;
        self.history.clear();
        self.valid_history_range = (0, 0);
        if !preserve_summary {
            self.latest_summary = None;
        }
    }

    /// Drops the pending message.
    pub fn reset_next_user_message(&mut self)
        requires
            old(self).wf(),
        ensures
            final(self).wf(),
            final(self).next_message_spec() is None,
            final(self).history_spec() == old(self).history_spec(),
            final(self).valid_range_spec() == old(self).valid_range_spec(),
            final(self).transcript_spec() == old(self).transcript_spec(),
            final(self).tools_spec() == old(self).tools_spec(),
    {
        self.next_message = None;
    }

    /// Sets the pending message to a prompt; an empty prompt is replaced with a placeholder.
    pub fn set_next_user_message(&mut self, input: String) -> (r: Result<(), ConversationError>)
        requires
            old(self).wf(),
        ensures
            final(self).wf(),
            r is Err <==> old(self).next_message_spec() is Some,
            r is Err ==> r == Err::<(), ConversationError>(ConversationError::PendingMessageExists),
            r is Err ==> *final(self) == *old(self),
            r is Ok ==> (final(self).next_message_spec() matches Some(m) && m.content
                matches UserMessageContent::Prompt { prompt } && prompt@ == if input@.len() == 0 {
                EMPTY_PROMPT_TEXT@
            } else {
                input@
            }),
            r is Ok ==> (final(self).next_message_spec() matches Some(m) && m.additional_context@.len()
                == 0 && m.images is None),
            final(self).history_spec() == old(self).history_spec(),
            final(self).valid_range_spec() == old(self).valid_range_spec(),
            final(self).transcript_spec() == old(self).transcript_spec(),
            final(self).tools_spec() == old(self).tools_spec(),
            final(self).latest_summary_spec() == old(self).latest_summary_spec(),
    {
        if self.next_message.is_some() {
            return Err(ConversationError::PendingMessageExists);
        }
        let input = if input.as_str().unicode_len() == 0 {
            String::from_str(EMPTY_PROMPT_TEXT)
        } else {
            input
        };
        self.next_message = Some(UserMessage::new_prompt(input));
        Ok(())
    }

    /// Appends `message` to the transcript, dropping the oldest line at capacity.
    pub fn append_transcript(&mut self, message: String)
        requires
            old(self).wf(),
        ensures
            final(self).wf(),
            final(self).transcript_spec() == appended_transcript(old(self).transcript_spec(), message@),
            final(self).history_spec() == old(self).history_spec(),
            final(self).next_message_spec() == old(self).next_message_spec(),
            final(self).valid_range_spec() == old(self).valid_range_spec(),
            final(self).tools_spec() == old(self).tools_spec(),
            final(self).latest_summary_spec() == old(self).latest_summary_spec(),
    {
        if self.transcript.len() >= MAX_CONVERSATION_STATE_HISTORY_LEN {
            self.transcript.remove(0);
        }
        self.transcript.push(message);
        assert(views_of(self.transcript@) =~= appended_transcript(
            old(self).transcript_spec(),
            message@,
        ));
    }

    /// Records a user prompt in the transcript, quoted with `"> "`.
    pub fn append_user_transcript(&mut self, message: &str)
        requires
            old(self).wf(),
        ensures
            final(self).wf(),
            final(self).transcript_spec() == appended_transcript(
                old(self).transcript_spec(),
                "> "@ + quoted_newlines(message@),
            ),
            final(self).history_spec() == old(self).history_spec(),
            final(self).next_message_spec() == old(self).next_message_spec(),
            final(self).valid_range_spec() == old(self).valid_range_spec(),
            final(self).tools_spec() == old(self).tools_spec(),
    {
        let mut line = String::from_str("> ");
        let quoted = quote_newlines(message);
        line.append(quoted.as_str());
        self.append_transcript(line);
    }

    /// Records an assistant turn in the transcript, with the names of the tools it requested.
    pub fn append_assistant_transcript(&mut self, message: &AssistantMessage)
        requires
            old(self).wf(),
        ensures
            final(self).wf(),
            final(self).transcript_spec() == appended_transcript(
                old(self).transcript_spec(),
                assistant_transcript_text(*message),
            ),
            final(self).history_spec() == old(self).history_spec(),
            final(self).next_message_spec() == old(self).next_message_spec(),
            final(self).valid_range_spec() == old(self).valid_range_spec(),
            final(self).tools_spec() == old(self).tools_spec(),
            final(self).latest_summary_spec() == old(self).latest_summary_spec(),
    {
        let mut line = message.content().clone();
        line.append("\n[Tool uses: ");
        match message.tool_uses() {
            Some(t) => {
                let names = joined_tool_names(t);
                line.append(names.as_str());
            },
            None => {
                line.append("none");
            },
        }
        line.append("]");
        self.append_transcript(line);
    }

    /// Completes the pending turn with the backend's answer: the (pending, `message`) pair is
    /// appended to the history and recorded in the transcript.
    pub fn push_assistant_message(&mut self, message: AssistantMessage) -> (r: Result<
        (),
        ConversationError,
    >)
        requires
            old(self).wf(),
        ensures
            final(self).wf(),
            r is Err <==> old(self).next_message_spec() is None,
            r is Err ==> r == Err::<(), ConversationError>(ConversationError::NoPendingMessage),
            r is Err ==> *final(self) == *old(self),
            r is Ok ==> final(self).history_spec() == old(self).history_spec().push(
                (old(self).next_message_spec()->0, message),
            ),
            r is Ok ==> final(self).next_message_spec() is None,
            r is Ok ==> final(self).transcript_spec() == appended_transcript(
                old(self).transcript_spec(),
                assistant_transcript_text(message),
            ),
            final(self).valid_range_spec() == old(self).valid_range_spec(),
            final(self).tools_spec() == old(self).tools_spec(),
            final(self).latest_summary_spec() == old(self).latest_summary_spec(),
    {
        if self.next_message.is_none() {
            return Err(ConversationError::NoPendingMessage);
        }
        let mut pending: Option<UserMessage> = None;
        std::mem::swap(&mut pending, &mut self.next_message);
        let user = match pending {
            Some(u) => u,
            None => {
                return Err(ConversationError::NoPendingMessage);
            },
        };
        self.append_assistant_transcript(&message);
        self.history.push((user, message));
        Ok(())
    }

    /// Sets the pending message to a tool-results turn.
    pub fn add_tool_results(&mut self, tool_results: Vec<ToolUseResult>) -> (r: Result<
        (),
        ConversationError,
    >)
        requires
            old(self).wf(),
        ensures
            final(self).wf(),
            r is Err <==> old(self).next_message_spec() is Some,
            r is Err ==> r == Err::<(), ConversationError>(ConversationError::PendingMessageExists),
            r is Err ==> *final(self) == *old(self),
            r is Ok ==> (final(self).next_message_spec() matches Some(m) && m.content
                == (UserMessageContent::ToolUseResults { tool_use_results: tool_results })
                && m.images is None && m.additional_context@.len() == 0),
            final(self).history_spec() == old(self).history_spec(),
            final(self).valid_range_spec() == old(self).valid_range_spec(),
            final(self).transcript_spec() == old(self).transcript_spec(),
            final(self).tools_spec() == old(self).tools_spec(),
            final(self).latest_summary_spec() == old(self).latest_summary_spec(),
    {
        if self.next_message.is_some() {
            return Err(ConversationError::PendingMessageExists);
        }
        self.next_message = Some(UserMessage::new_tool_use_results(tool_results));
        Ok(())
    }

    /// Sets the pending message to a tool-results turn that carries images.
    pub fn add_tool_results_with_images(
        &mut self,
        tool_results: Vec<ToolUseResult>,
        images: Vec<ImageBlock>,
    ) -> (r: Result<(), ConversationError>)
        requires
            old(self).wf(),
        ensures
            final(self).wf(),
            r is Err <==> old(self).next_message_spec() is Some,
            r is Err ==> r == Err::<(), ConversationError>(ConversationError::PendingMessageExists),
            r is Err ==> *final(self) == *old(self),
            r is Ok ==> (final(self).next_message_spec() matches Some(m) && m.content
                == (UserMessageContent::ToolUseResults { tool_use_results: tool_results })
                && m.images == Some(images) && m.additional_context@.len() == 0),
            final(self).history_spec() == old(self).history_spec(),
            final(self).valid_range_spec() == old(self).valid_range_spec(),
            final(self).transcript_spec() == old(self).transcript_spec(),
            final(self).tools_spec() == old(self).tools_spec(),
            final(self).latest_summary_spec() == old(self).latest_summary_spec(),
    {
        if self.next_message.is_some() {
            return Err(ConversationError::PendingMessageExists);
        }
        self.next_message = Some(UserMessage::new_tool_use_results_with_images(tool_results, images));
        Ok(())
    }

    /// Sets the pending message to "cancelled" results, one per abandoned invocation, explained
    /// by `deny_input`.
    pub fn abandon_tool_use(&mut self, tools_to_be_abandoned: &Vec<QueuedTool>, deny_input: String)
        requires
            old(self).wf(),
        ensures
            final(self).wf(),
            final(self).next_message_spec() matches Some(m) && m.content is CancelledToolUses
                && m.prompt_view() == Some(deny_input@) && cancelled_results(
                m.results(),
                queued_ids(tools_to_be_abandoned@),
            ),
            final(self).history_spec() == old(self).history_spec(),
            final(self).valid_range_spec() == old(self).valid_range_spec(),
            final(self).transcript_spec() == old(self).transcript_spec(),
            final(self).tools_spec() == old(self).tools_spec(),
            final(self).latest_summary_spec() == old(self).latest_summary_spec(),
    {
        let ids = ids_of_queued(tools_to_be_abandoned);
        self.next_message = Some(UserMessage::new_cancelled_tool_uses(Some(deny_input), ids));
    }

    /// Resolves every tool name in the history against the catalog, so that the backend never
    /// sees a name it would reject while each invocation keeps its id and its result.
    pub fn enforce_tool_use_history_invariants(&mut self)
        requires
            old(self).wf(),
        ensures
            final(self).wf(),
            resolved_history(
                old(self).history_spec(),
                final(self).history_spec(),
                catalog_names(old(self).tools_spec()),
            ),
            final(self).next_message_spec() == old(self).next_message_spec(),
            final(self).valid_range_spec() == old(self).valid_range_spec(),
            same_settings(*old(self), *final(self)),
    {
        let names = catalog_name_list(&self.tools);
        let ghost set = catalog_names(self.tools@);
        let ghost orig = self.history@;
        let mut rest: Vec<(UserMessage, AssistantMessage)> = Vec::new();
        std::mem::swap(&mut rest, &mut self.history);
        let mut out: Vec<(UserMessage, AssistantMessage)> = Vec::new();
        while rest.len() > 0
            invariant
                forall|n: Seq<char>| #[trigger] set.contains(n) <==> names_contain(names@, n),
                out@.len() + rest@.len() == orig.len(),
                rest@ == orig.subrange(out@.len() as int, orig.len() as int),
                forall|i: int|
                    0 <= i < out@.len() ==> (#[trigger] out@[i]).0 == orig[i].0 && resolved_message(
                        orig[i].1,
                        out@[i].1,
                        set,
                    ),
            decreases rest.len(),
        {
            let (user, assistant) = rest.remove(0);
            assert(user == orig[out@.len() as int].0 && assistant == orig[out@.len() as int].1);
            let resolved = resolve_message(assistant, &names, Ghost(set));
            out.push((user, resolved));
            assert(rest@ =~= orig.subrange(out@.len() as int, orig.len() as int));
        }
        self.history = out;
    }

    /// Recomputes the valid range of the history and repairs the pending message so that the
    /// next request is valid: see `enforce_post`.
    pub fn enforce_conversation_invariants(&mut self)
        requires
            old(self).wf(),
        ensures
            enforce_post(*old(self), *final(self)),
    {
        let ghost h = self.history@;
        let len = self.history.len();
        self.valid_history_range = (0, len);
        if len > (MAX_CONVERSATION_STATE_HISTORY_LEN - 6) / 2 {
            let mut i: usize = 1;
            while i < len && self.history[i].0.has_tool_use_results()
                invariant
                    len == h.len(),
                    self.history@ == h,
                    1 <= i <= len,
                    first_plain_from(h, 1) == first_plain_from(h, i as int),
                decreases len - i,
            {
                i = i + 1;
            }
            if i < len {
                self.valid_history_range = (i, len);
            } else {
                self.valid_history_range = (0, 0);
                let pending_has_results = match &self.next_message {
                    Some(m) => m.has_tool_use_results(),
                    None => false,
                };
                if pending_has_results {
                    self.next_message = Some(
                        UserMessage::new_prompt(String::from_str(HISTORY_OVERFLOW_TEXT)),
                    );
                }
            }
        }
        let (start, end) = self.valid_history_range;
        if start < end {
            let ids = match &self.history[end - 1].1 {
                AssistantMessage::ToolUse { tool_uses, .. } => Some(ids_of_tool_uses(tool_uses)),
                AssistantMessage::Response { .. } => None,
            };
            let to_answer: usize = match &ids {
                Some(v) => v.len(),
                None => 0,
            };
            let prompt = match &self.next_message {
                Some(m) => {
                    let answered = match m.tool_use_results() {
                        Some(rs) => !(rs.len() == 0 && to_answer > 0),
                        None => false,
                    };
                    if answered {
                        None
                    } else {
                        match m.prompt() {
                            Some(p) => Some(Some(p.clone())),
                            None => Some(None),
                        }
                    }
                },
                None => None,
            };
            match (ids, prompt) {
                (Some(ids), Some(prompt)) => {
                    self.next_message = Some(UserMessage::new_cancelled_tool_uses(prompt, ids));
                },
                _ => {},
            }
        }
        self.enforce_tool_use_history_invariants();
    }

    /// Appends the pairs formed by a list of prompts to the history and returns the content of
    /// the last prompt, which is left for the caller to send. `None` on an empty list.
    pub fn append_prompts(&mut self, prompts: Vec<Prompt>) -> (r: Option<String>)
        requires
            old(self).wf(),
        ensures
            final(self).wf(),
            prompts@.len() == 0 ==> r is None && *final(self) == *old(self),
            prompts@.len() > 0 ==> (r matches Some(s) && s@ == prompts@.last().content@),
            prompts@.len() > 0 ==> {
                let pairs = prompt_pairs(prompts@.drop_last(), None, None);
                &&& final(self).history_spec().len() == old(self).history_spec().len() + pairs.len()
                &&& final(self).history_spec().subrange(0, old(self).history_spec().len() as int)
                    == old(self).history_spec()
                &&& forall|k: int|
                    0 <= k < pairs.len() ==> pair_from_prompts(
                        #[trigger] final(self).history_spec()[old(self).history_spec().len() + k],
                        pairs[k],
                    )
            },
            final(self).next_message_spec() == old(self).next_message_spec(),
            final(self).valid_range_spec() == old(self).valid_range_spec(),
            final(self).tools_spec() == old(self).tools_spec(),
            final(self).latest_summary_spec() == old(self).latest_summary_spec(),
    {
        let mut prompts = prompts;
        let last = match prompts.pop() {
            Some(p) => p,
            None => {
                return None;
            },
        };
        let ghost all = prompts@;
        let ghost base = self.history@.len();
        let mut user: Option<String> = None;
        let mut asst: Option<String> = None;
        let ghost mut k: int = 0;
        while prompts.len() > 0
            invariant
                self.wf(),
                0 <= k <= all.len(),
                prompts@ == all.subrange(k, all.len() as int),
                self.history@.len() >= base,
                self.history@.subrange(0, base as int) == old(self).history_spec(),
                base == old(self).history_spec().len(),
                user is Some ==> asst is None,
                asst is Some ==> user is None,
                ({
                    let done = self.history@.len() - base;
                    let rest = prompt_pairs(
                        prompts@,
                        opt_view(user),
                        opt_view(asst),
                    );
                    &&& done + rest.len() == prompt_pairs(all, None, None).len()
                    &&& forall|j: int|
                        0 <= j < done ==> pair_from_prompts(
                            #[trigger] self.history@[base + j],
                            prompt_pairs(all, None, None)[j],
                        )
                    &&& forall|j: int|
                        0 <= j < rest.len() ==> #[trigger] rest[j] == prompt_pairs(
                            all,
                            None,
                            None,
                        )[done + j]
                }),
                self.next_message == old(self).next_message_spec(),
                self.valid_history_range == old(self).valid_range_spec(),
                self.tools@ == old(self).tools_spec(),
                self.latest_summary == old(self).latest_summary_spec(),
            decreases prompts.len(),
        {
            let ghost before_hist = self.history@;
            let ghost before_prompts = prompts@;
            let ghost all_pairs = prompt_pairs(all, None, None);
            let ghost done0 = self.history@.len() - base;
            let ghost before_rest = prompt_pairs(prompts@, opt_view(user), opt_view(asst));
            let p = prompts.remove(0);
            assert(prompts@ == before_prompts.drop_first());
            match p.role {
                PromptRole::User => {
                    user = Some(p.content);
                },
                PromptRole::Assistant => {
                    asst = Some(p.content);
                },
            }
            if user.is_some() && asst.is_some() {
                assert(before_rest == seq![(opt_view(user)->0, opt_view(asst)->0)] + prompt_pairs(
                    prompts@,
                    None,
                    None,
                ));
                let mut u: Option<String> = None;
                let mut a: Option<String> = None;
                std::mem::swap(&mut u, &mut user);
                std::mem::swap(&mut a, &mut asst);
                match (u, a) {
                    (Some(u), Some(a)) => {
                        let assistant = AssistantMessage::new_response(None, a);
                        self.append_assistant_transcript(&assistant);
                        self.history.push((UserMessage::new_prompt(u), assistant));
                        proof {
                            assert(self.history@.subrange(0, base as int) =~= old(
                                self,
                            ).history_spec()) by {
                                assert(self.history@.subrange(0, base as int)
                                    =~= before_hist.subrange(0, base as int));
                            }
                            assert(before_rest[0] == all_pairs[done0]);
                            assert forall|j: int|
                                0 <= j < self.history@.len() - base implies pair_from_prompts(
                                #[trigger] self.history@[base + j],
                                all_pairs[j],
                            ) by {
                                if j < done0 {
                                    assert(self.history@[base + j] == before_hist[base + j]);
                                }
                            }
                            let rest = prompt_pairs(prompts@, None, None);
                            assert forall|j: int| 0 <= j < rest.len() implies #[trigger] rest[j]
                                == all_pairs[done0 + 1 + j] by {
                                assert(rest[j] == before_rest[j + 1]);
                            }
                        }
                    },
                    _ => {},
                }
            } else {
                assert(before_rest == prompt_pairs(prompts@, opt_view(user), opt_view(asst)));
            }
            proof {
                k = k + 1;
                assert(prompts@ =~= all.subrange(k, all.len() as int));
            }
        }
        Some(last.content)
    }
}

} // verus!

verus! {

/// Two histories have the same user turns, and the same tool names, arguments and ids in
/// their assistant turns.
pub open spec fn same_resolution(
    h1: Seq<(UserMessage, AssistantMessage)>,
    h2: Seq<(UserMessage, AssistantMessage)>,
) -> bool {
    &&& h2.len() == h1.len()
    &&& forall|i: int|
        0 <= i < h1.len() ==> {
            &&& (#[trigger] h2[i]).0 == h1[i].0
            &&& (h2[i].1 is ToolUse <==> h1[i].1 is ToolUse)
            &&& h2[i].1.invocations().len() == h1[i].1.invocations().len()
            &&& forall|j: int|
                0 <= j < h1[i].1.invocations().len() ==> {
                    &&& (#[trigger] h2[i].1.invocations()[j]).name@
                        == h1[i].1.invocations()[j].name@
                    &&& h2[i].1.invocations()[j].args@ == h1[i].1.invocations()[j].args@
                    &&& h2[i].1.invocations()[j].id == h1[i].1.invocations()[j].id
                }
        }
}

proof fn lemma_first_plain_bounds(h: Seq<(UserMessage, AssistantMessage)>, k: int)
    requires
        k >= 0,
    ensures
        first_plain_from(h, k) matches Some(i) ==> k <= i < h.len(),
    decreases h.len() - k,
{
    if k < h.len() && h[k].0.has_results() {
        lemma_first_plain_bounds(h, k + 1);
    }
}

proof fn lemma_first_plain_same_users(
    h0: Seq<(UserMessage, AssistantMessage)>,
    h1: Seq<(UserMessage, AssistantMessage)>,
    k: int,
)
    requires
        h1.len() == h0.len(),
        forall|i: int| 0 <= i < h0.len() ==> (#[trigger] h1[i]).0 == h0[i].0,
    ensures
        first_plain_from(h0, k) == first_plain_from(h1, k),
    decreases h0.len() - k,
{
    if 0 <= k < h0.len() {
        assert(h1[k].0 == h0[k].0);
        lemma_first_plain_same_users(h0, h1, k + 1);
    }
}

/// With one pair more than a request keeps (`2 * pairs <= max - 4`), enforcement leaves a
/// valid range that fits, together with the context pair, within the maximum history length.
pub proof fn lemma_valid_range_fits(s0: ConversationState, s1: ConversationState)
    requires
        s0.wf(),
        enforce_post(s0, s1),
        2 * s0.history_spec().len() <= MAX_CONVERSATION_STATE_HISTORY_LEN - 4,
    ensures
        2 * (s1.valid_range_spec().1 - s1.valid_range_spec().0) + 2
            <= MAX_CONVERSATION_STATE_HISTORY_LEN,
{
    lemma_first_plain_bounds(s0.history_spec(), 1);
}

proof fn lemma_resolve_idempotent(
    t0: AssistantToolUse,
    t1: AssistantToolUse,
    t2: AssistantToolUse,
    names: Set<Seq<char>>,
)
    requires
        resolves(t0, t1, names),
        resolves(t1, t2, names),
        !names.contains(DUMMY_TOOL_NAME@),
        forall|m: Seq<char>| #[trigger] names.contains(m) ==> !is_suffix(DUMMY_TOOL_NAME@, m),
    ensures
        t2.name@ == t1.name@,
        t2.args@ == t1.args@,
        t2.id == t1.id,
{
    if !names.contains(t0.name@) && !names.contains(t0.orig_name@) && has_unique_suffix_match(
        names,
        t0.name@,
    ) {
        reveal(suffix_candidate);
    }
    if !names.contains(t1.name@) && !names.contains(t1.orig_name@) {
        assert(t1.name@ == DUMMY_TOOL_NAME@) by {
            reveal(suffix_candidate);
        }
        assert(!has_unique_suffix_match(names, t1.name@)) by {
            reveal(suffix_candidate);
        }
    }
}

/// Enforcing the invariants twice in a row yields the same valid range, pending message and
/// tool-name resolutions as enforcing them once, provided no catalog tool other than the
/// reserved unknown-tool name has a name ending with that name.
pub proof fn lemma_enforce_idempotent(
    s0: ConversationState,
    s1: ConversationState,
    s2: ConversationState,
)
    requires
        s0.wf(),
        enforce_post(s0, s1),
        enforce_post(s1, s2),
        forall|m: Seq<char>|
            #[trigger] catalog_names(s0.tools_spec()).contains(m) ==> !is_suffix(
                DUMMY_TOOL_NAME@,
                m,
            ),
    ensures
        s2.valid_range_spec() == s1.valid_range_spec(),
        s2.next_message_spec() == s1.next_message_spec(),
        same_resolution(s1.history_spec(), s2.history_spec()),
{
    let h0 = s0.history_spec();
    let h1 = s1.history_spec();
    let h2 = s2.history_spec();
    let names = catalog_names(s0.tools_spec());
    assert(forall|i: int| 0 <= i < h0.len() ==> (#[trigger] h1[i]).0 == h0[i].0);
    lemma_first_plain_same_users(h0, h1, 1);
    lemma_first_plain_bounds(h0, 1);
    assert(valid_range_for(h1) == valid_range_for(h0));
    let r = valid_range_for(h0);
    if range_ends_in_tool_use(h0, r) {
        assert(h1[r.1 - 1].1 is ToolUse);
        assert(resolved_message(h0[r.1 - 1].1, h1[r.1 - 1].1, names));
        assert(h1[r.1 - 1].1.invocations().len() == h0[r.1 - 1].1.invocations().len());
    }
    if range_ends_in_tool_use(h1, r) {
        assert(h0[r.1 - 1].1 is ToolUse);
    }
    assert(!names.contains(DUMMY_TOOL_NAME@));
    assert forall|i: int| 0 <= i < h1.len() implies {
        &&& (#[trigger] h2[i]).0 == h1[i].0
        &&& (h2[i].1 is ToolUse <==> h1[i].1 is ToolUse)
        &&& h2[i].1.invocations().len() == h1[i].1.invocations().len()
        &&& forall|j: int|
            0 <= j < h1[i].1.invocations().len() ==> {
                &&& (#[trigger] h2[i].1.invocations()[j]).name@ == h1[i].1.invocations()[j].name@
                &&& h2[i].1.invocations()[j].args@ == h1[i].1.invocations()[j].args@
                &&& h2[i].1.invocations()[j].id == h1[i].1.invocations()[j].id
            }
    } by {
        assert(resolved_message(h0[i].1, h1[i].1, names));
        assert(resolved_message(h1[i].1, h2[i].1, names));
        assert forall|j: int| 0 <= j < h1[i].1.invocations().len() implies {
            &&& (#[trigger] h2[i].1.invocations()[j]).name@ == h1[i].1.invocations()[j].name@
            &&& h2[i].1.invocations()[j].args@ == h1[i].1.invocations()[j].args@
            &&& h2[i].1.invocations()[j].id == h1[i].1.invocations()[j].id
        } by {
            lemma_resolve_idempotent(
                h0[i].1.invocations()[j],
                h1[i].1.invocations()[j],
                h2[i].1.invocations()[j],
                names,
            );
        }
    }
}

} // verus!

verus! {

/// Opens a context entry.
pub const CONTEXT_ENTRY_START_HEADER: &'static str = "--- CONTEXT ENTRY BEGIN ---\n";

/// Closes a context entry.
pub const CONTEXT_ENTRY_END_HEADER: &'static str = "--- CONTEXT ENTRY END ---\n\n";

/// Introduces the output of hooks.
pub const HOOK_CONTEXT_INTRO: &'static str =
    "This section (like others) contains important information that I want you to use in your responses. I have gathered this context from valuable programmatic script hooks. You must follow any requests and consider all of the information in this section";

/// Added to the hook introduction for hooks that run once per conversation.
pub const HOOK_CONVERSATION_SCOPE: &'static str = " for the entire conversation";

/// Introduces the latest summary.
pub const SUMMARY_INTRO: &'static str =
    "This summary contains ALL relevant information from our previous conversation including tool uses, results, code analysis, and file operations. YOU MUST reference this information when answering questions and explicitly acknowledge specific details from the summary when they're relevant to the current question.\n\n";

/// Labels the summary text.
pub const SUMMARY_LABEL: &'static str = "SUMMARY CONTENT:\n";

/// The assistant half of the context pair.
pub const CONTEXT_ACKNOWLEDGEMENT: &'static str =
    "I will fully incorporate this information when generating my responses, and explicitly acknowledge relevant parts of the summary when answering questions.";

/// When a hook runs.
#[derive(Debug, Clone, Copy, PartialEq, Eq, Structural)]
pub enum HookTrigger {
    ConversationStart,
    PerPrompt,
}

/// A configured hook.
#[derive(Debug, Clone)]
pub struct Hook {
    pub name: String,
    pub trigger: HookTrigger,
}

/// The entries of the hooks of `trigger`, in order: their name in quotes and their output.
pub open spec fn hook_entries(hooks: Seq<(Hook, String)>, trigger: HookTrigger) -> Seq<char>
    decreases hooks.len(),
{
    if hooks.len() == 0 {
        Seq::empty()
    } else {
        hook_entries(hooks.drop_last(), trigger) + if hooks.last().0.trigger == trigger {
            "'"@ + hooks.last().0.name@ + "': "@ + hooks.last().1@ + "\n\n"@
        } else {
            Seq::empty()
        }
    }
}

/// The context entry that carries the output of the hooks of `trigger`.
pub open spec fn hook_context_text(hooks: Seq<(Hook, String)>, trigger: HookTrigger) -> Seq<char> {
    let scope = if trigger == HookTrigger::ConversationStart {
        HOOK_CONVERSATION_SCOPE@
    } else {
        Seq::empty()
    };
    CONTEXT_ENTRY_START_HEADER@ + HOOK_CONTEXT_INTRO@ + scope + "\n\n"@ + hook_entries(hooks, trigger)
        + CONTEXT_ENTRY_END_HEADER@
}

/// Context files, each as its name in brackets followed by its content.
pub open spec fn files_text(files: Seq<(String, String)>) -> Seq<char>
    decreases files.len(),
{
    if files.len() == 0 {
        Seq::empty()
    } else {
        files_text(files.drop_last()) + "["@ + files.last().0@ + "]\n"@ + files.last().1@ + "\n"@
    }
}

/// The text of the context turn: the summary entry, the context-file entry and the hook
/// context, each when present.
pub open spec fn context_text(
    summary: Option<Seq<char>>,
    files: Seq<(String, String)>,
    start: Option<Seq<char>>,
) -> Seq<char> {
    let summary_part = match summary {
        Some(t) => CONTEXT_ENTRY_START_HEADER@ + SUMMARY_INTRO@ + SUMMARY_LABEL@ + t + "\n"@
            + CONTEXT_ENTRY_END_HEADER@,
        None => Seq::empty(),
    };
    let files_part = if files.len() > 0 {
        CONTEXT_ENTRY_START_HEADER@ + files_text(files) + CONTEXT_ENTRY_END_HEADER@
    } else {
        Seq::empty()
    };
    let start_part = match start {
        Some(c) => c,
        None => Seq::empty(),
    };
    summary_part + files_part + start_part
}

/// The synthetic (user, assistant) pair that carries `text`.
pub open spec fn is_context_pair(p: (UserMessage, AssistantMessage), text: Seq<char>) -> bool {
    &&& p.0.content matches UserMessageContent::Prompt { prompt } && prompt@ == text
    &&& p.0.additional_context@.len() == 0
    &&& p.0.images is None
    &&& p.1 matches AssistantMessage::Response { message_id, content } && message_id is None
        && content@ == CONTEXT_ACKNOWLEDGEMENT@
}

/// The context pair as a sequence of zero or one pair.
pub open spec fn ctx_pairs(c: Option<(UserMessage, AssistantMessage)>) -> Seq<
    (UserMessage, AssistantMessage),
> {
    match c {
        Some(p) => seq![p],
        None => Seq::empty(),
    }
}

/// The pending message after hooks ran: same turn, with the per-prompt hook context attached.
pub open spec fn hooks_applied(
    before: Option<UserMessage>,
    after: Option<UserMessage>,
    ran: bool,
    ctx: Seq<char>,
) -> bool {
    if ran && before is Some {
        &&& after is Some
        &&& after->0.content == before->0.content
        &&& after->0.images == before->0.images
        &&& after->0.additional_context@ == ctx
    } else {
        after == before
    }
}

/// The conversation-start hook context, when hooks run and a context manager is configured.
pub open spec fn start_context(o: ConversationState, run_hooks: bool, hooks: Seq<(Hook, String)>) -> Option<
    Seq<char>,
> {
    if run_hooks && o.current_profile_spec() is Some {
        Some(hook_context_text(hooks, HookTrigger::ConversationStart))
    } else {
        None
    }
}

/// The first history message is the context turn, with text `text` and no tool results.
pub open spec fn context_turn_first(h: Seq<ChatMessage>, text: Seq<char>) -> bool {
    h.len() >= 2 && match h[0] {
        ChatMessage::UserInputMessage(u) => u.content@ == text && !carries_results(u),
        ChatMessage::AssistantResponseMessage(_) => false,
    }
}

/// An owned, immutable snapshot of exactly what is sent to the backend.
#[derive(Debug)]
pub struct BackendConversationStateImpl {
    pub conversation_id: String,
    pub next_user_message: Option<UserMessage>,
    pub history: Vec<(UserMessage, AssistantMessage)>,
    pub context_messages: Option<(UserMessage, AssistantMessage)>,
    pub dropped_context_files: Vec<(String, String)>,
    pub tools: Vec<ToolSpec>,
    pub model_id: Option<String>,
}

/// Characters used by the parts of a conversation.
#[derive(Debug, Clone, Copy)]
pub struct ConversationSize {
    pub context_messages: usize,
    pub user_messages: usize,
    pub assistant_messages: usize,
}

/// Character count warning levels for conversation size.
#[derive(Debug, Clone, Copy, PartialEq, Eq, Structural)]
pub enum TokenWarningLevel {
    /// The conversation is within normal limits.
    Normal,
    /// The conversation is at or above the character threshold.
    Critical,
}

/// Characters of the user turns of `h`, added with saturation.
pub open spec fn users_chars(h: Seq<(UserMessage, AssistantMessage)>) -> int
    decreases h.len(),
{
    if h.len() == 0 {
        0
    } else {
        sat(users_chars(h.drop_last()) + h.last().0.chars())
    }
}

/// Characters of the assistant turns of `h`, added with saturation.
pub open spec fn assistants_chars(h: Seq<(UserMessage, AssistantMessage)>) -> int
    decreases h.len(),
{
    if h.len() == 0 {
        0
    } else {
        sat(assistants_chars(h.drop_last()) + h.last().1.chars())
    }
}

impl ConversationSize {
    /// All characters, added with saturation.
    pub open spec fn total_spec(self) -> int {
        sat(sat(self.context_messages + self.user_messages) + self.assistant_messages)
    }

    pub fn total(&self) -> (r: usize)
        ensures
            r == self.total_spec(),
    {
        self.context_messages.saturating_add(self.user_messages).saturating_add(
            self.assistant_messages,
        )
    }
}

impl TokenWarningLevel {
    /// `Critical` at or above the character ceiling, `None` below it.
    pub fn for_size(size: &ConversationSize) -> (r: TokenWarningLevel)
        ensures
            r == (if size.total_spec() >= MAX_CHARS {
                TokenWarningLevel::Critical
            } else {
                TokenWarningLevel::Normal
            }),
    {
        if size.total() >= MAX_CHARS {
            TokenWarningLevel::Critical
        } else {
            TokenWarningLevel::Normal
        }
    }
}

/// The hook context for `trigger`.
pub fn format_hook_context(hook_results: &Vec<(Hook, String)>, trigger: HookTrigger) -> (r: String)
    ensures
        r@ == hook_context_text(hook_results@, trigger),
{
    let mut c = String::from_str(CONTEXT_ENTRY_START_HEADER);
    c.append(HOOK_CONTEXT_INTRO);
    if trigger == HookTrigger::ConversationStart {
        c.append(HOOK_CONVERSATION_SCOPE);
    }
    c.append("\n\n");
    let ghost prefix = c@;
    let mut i: usize = 0;
    while i < hook_results.len()
        invariant
            i <= hook_results.len(),
            c@ == prefix + hook_entries(hook_results@.subrange(0, i as int), trigger),
        decreases hook_results.len() - i,
    {
        assert(hook_results@.subrange(0, i + 1).drop_last() == hook_results@.subrange(0, i as int));
        if hook_results[i].0.trigger == trigger {
            c.append("'");
            c.append(hook_results[i].0.name.as_str());
            c.append("': ");
            c.append(hook_results[i].1.as_str());
            c.append("\n\n");
        }
        i = i + 1;
    }
    assert(hook_results@.subrange(0, hook_results.len() as int) == hook_results@);
    c.append(CONTEXT_ENTRY_END_HEADER);
    c
}

fn format_files(files: &Vec<(String, String)>) -> (r: String)
    ensures
        r@ == files_text(files@),
{
    let mut c = String::new();
    let mut i: usize = 0;
    while i < files.len()
        invariant
            i <= files.len(),
            c@ == files_text(files@.subrange(0, i as int)),
        decreases files.len() - i,
    {
        assert(files@.subrange(0, i + 1).drop_last() == files@.subrange(0, i as int));
        c.append("[");
        c.append(files[i].0.as_str());
        c.append("]\n");
        c.append(files[i].1.as_str());
        c.append("\n");
        i = i + 1;
    }
    assert(files@.subrange(0, files.len() as int) == files@);
    c
}

/// The context pair and the history, flattened into alternating wire messages.
pub fn flatten_history(
    context: Option<(UserMessage, AssistantMessage)>,
    history: Vec<(UserMessage, AssistantMessage)>,
) -> (h: Vec<ChatMessage>)
    ensures
        history_wire_of(ctx_pairs(context) + history@, h@),
        alternates(h@),
        no_tools_in_history(h@),
{
    let ghost pairs = ctx_pairs(context) + history@;
    let mut out: Vec<ChatMessage> = Vec::new();
    let mut done: usize = 0;
    match context {
        Some((u, a)) => {
            out.push(ChatMessage::UserInputMessage(user_into_wire(u, None, None)));
            out.push(ChatMessage::AssistantResponseMessage(assistant_into_wire(a)));
            done = 1;
            assert(wire_pair_at(pairs, out@, 0));
        },
        None => {},
    }
    let mut rest = history;
    while rest.len() > 0
        invariant
            done + rest@.len() == pairs.len(),
            rest@ == pairs.subrange(done as int, pairs.len() as int),
            out@.len() == 2 * done,
            forall|k: int| 0 <= k < done ==> #[trigger] wire_pair_at(pairs, out@, k),
        decreases rest.len(),
    {
        let (u, a) = rest.remove(0);
        assert(u == pairs[done as int].0 && a == pairs[done as int].1);
        let ghost before = out@;
        out.push(ChatMessage::UserInputMessage(user_into_wire(u, None, None)));
        out.push(ChatMessage::AssistantResponseMessage(assistant_into_wire(a)));
        proof {
            assert forall|k: int| 0 <= k < done + 1 implies #[trigger] wire_pair_at(
                pairs,
                out@,
                k,
            ) by {
                if k < done {
                    assert(wire_pair_at(pairs, before, k));
                    assert(out@[2 * k] == before[2 * k]);
                    assert(out@[2 * k + 1] == before[2 * k + 1]);
                }
            }
        }
        let written = out.len();
        assert(written == 2 * done + 2);
        done = done + 1;
        assert(rest@ =~= pairs.subrange(done as int, pairs.len() as int));
    }
    let ghost h = out@;
    proof {
        assert forall|i: int| 0 <= i < h.len() implies ((#[trigger] h[i]) is UserInputMessage
            <==> i % 2 == 0) by {
            assert(wire_pair_at(pairs, h, i / 2));
        }
        assert forall|i: int| 0 <= i < h.len() implies match #[trigger] h[i] {
            ChatMessage::UserInputMessage(u) => u.context.tools is None,
            ChatMessage::AssistantResponseMessage(_) => true,
        } by {
            assert(wire_pair_at(pairs, h, i / 2));
        }
    }
    out
}

impl BackendConversationStateImpl {
    /// The request for this snapshot: the context pair and the history flattened into
    /// alternating messages, then the pending message with the tool catalog and model id.
    /// Fails when no pending message is set.
    pub fn into_fig_conversation_state(self) -> (r: Result<ConversationRequest, ConversationError>)
        ensures
            r is Err <==> self.next_user_message is None,
            r matches Ok(req) ==> {
                &&& history_wire_of(ctx_pairs(self.context_messages) + self.history@, req.history@)
                &&& alternates(req.history@)
                &&& no_tools_in_history(req.history@)
                &&& user_wire_of(self.next_user_message->0, req.user_input_message)
                &&& req.user_input_message.context.tools == Some(self.tools)
                &&& req.user_input_message.model_id == self.model_id
                &&& req.conversation_id == self.conversation_id
            },
    {
        let next = match self.next_user_message {
            Some(m) => m,
            None => {
                return Err(ConversationError::NoPendingMessage);
            },
        };
        let history = flatten_history(self.context_messages, self.history);
        Ok(
            ConversationRequest {
                conversation_id: self.conversation_id,
                user_input_message: user_into_wire(next, Some(self.tools), self.model_id),
                history,
            },
        )
    }

    /// Characters used by the context pair, the user turns and the assistant turns.
    pub fn calculate_conversation_size(&self) -> (r: ConversationSize)
        ensures
            r.user_messages == users_chars(self.history@),
            r.assistant_messages == assistants_chars(self.history@),
            r.context_messages == match self.context_messages {
                Some(p) => sat(p.0.chars() + p.1.chars()),
                None => 0,
            },
    {
        let mut user_chars: usize = 0;
        let mut assistant_chars: usize = 0;
        let mut i: usize = 0;
        while i < self.history.len()
            invariant
                i <= self.history.len(),
                user_chars == users_chars(self.history@.subrange(0, i as int)),
                assistant_chars == assistants_chars(self.history@.subrange(0, i as int)),
            decreases self.history.len() - i,
        {
            assert(self.history@.subrange(0, i + 1).drop_last() == self.history@.subrange(
                0,
                i as int,
            ));
            user_chars = user_chars.saturating_add(self.history[i].0.char_count());
            assistant_chars = assistant_chars.saturating_add(self.history[i].1.char_count());
            i = i + 1;
        }
        assert(self.history@.subrange(0, self.history.len() as int) == self.history@);
        let context_chars = match &self.context_messages {
            Some((u, a)) => u.char_count().saturating_add(a.char_count()),
            None => 0,
        };
        ConversationSize {
            context_messages: context_chars,
            user_messages: user_chars,
            assistant_messages: assistant_chars,
        }
    }
}

} // verus!

verus! {

/// `snap` is the snapshot of `o`, and `n` is `o` once hooks ran and the context pair was built:
/// the in-range history and the pending message are copied, the context pair carries the
/// summary, the context files and the conversation-start hook context.
pub open spec fn snapshot_from(
    o: ConversationState,
    n: ConversationState,
    snap: BackendConversationStateImpl,
    run_hooks: bool,
    hooks: Seq<(Hook, String)>,
    files: Seq<(String, String)>,
    dropped: Seq<(String, String)>,
) -> bool {
    let r = o.valid_range_spec();
    let text = context_text(opt_view(o.latest_summary_spec()), files, start_context(o, run_hooks, hooks));
    &&& n.wf()
    &&& n.history_spec() == o.history_spec()
    &&& n.valid_range_spec() == r
    &&& n.tools_spec() == o.tools_spec()
    &&& n.transcript_spec() == o.transcript_spec()
    &&& n.latest_summary_spec() == o.latest_summary_spec()
    &&& n.model_spec() == o.model_spec()
    &&& n.conversation_id_spec() == o.conversation_id_spec()
    &&& n.current_profile_spec() == o.current_profile_spec()
    &&& hooks_applied(
        o.next_message_spec(),
        n.next_message_spec(),
        run_hooks && o.current_profile_spec() is Some,
        hook_context_text(hooks, HookTrigger::PerPrompt),
    )
    &&& n.context_message_length_spec() == if text.len() > 0 {
        Some(vstd::utf8::encode_utf8(text).len() as usize)
    } else {
        o.context_message_length_spec()
    }
    &&& snap.history@.len() == r.1 - r.0
    &&& forall|k: int|
        0 <= k < r.1 - r.0 ==> same_user(o.history_spec()[r.0 + k].0, (#[trigger] snap.history@[k]).0)
            && same_assistant(o.history_spec()[r.0 + k].1, snap.history@[k].1)
    &&& (snap.next_user_message is Some <==> n.next_message_spec() is Some)
    &&& (n.next_message_spec() is Some ==> same_user(
        n.next_message_spec()->0,
        snap.next_user_message->0,
    ))
    &&& (snap.context_messages is Some <==> text.len() > 0)
    &&& (snap.context_messages matches Some(p) ==> is_context_pair(p, text))
    &&& snap.tools@ == o.tools_spec()
    &&& snap.model_id == o.model_spec()
    &&& snap.conversation_id@ == o.conversation_id_spec()
    &&& snap.dropped_context_files@ == dropped
}

/// What a successful send guarantees about the request `req` built from `o`, leaving `n`.
pub open spec fn sendable_post(
    o: ConversationState,
    n: ConversationState,
    req: ConversationRequest,
    run_hooks: bool,
    hooks: Seq<(Hook, String)>,
    files: Seq<(String, String)>,
) -> bool {
    let r = valid_range_for(o.history_spec());
    &&& n.wf()
    &&& alternates(req.history@)
    &&& no_tools_in_history(req.history@)
    &&& (ends_with_tool_uses(req.history@) ==> carries_results(req.user_input_message))
    &&& ((forall|i: int|
        0 <= i < o.history_spec().len() ==> !(#[trigger] o.history_spec()[i]).0.has_results())
        ==> results_correlated(req.history@) && no_results_in_history(req.history@))
    &&& (o.latest_summary_spec() matches Some(s) ==> context_turn_first(
        req.history@,
        context_text(Some(s@), files, start_context(o, run_hooks, hooks)),
    ))
    &&& (2 * o.history_spec().len() <= MAX_CONVERSATION_STATE_HISTORY_LEN - 4 ==> req.history@.len()
        <= MAX_CONVERSATION_STATE_HISTORY_LEN)
    &&& n.history_spec().len() == r.1 - r.0
    &&& n.valid_range_spec() == (0usize, (r.1 - r.0) as usize)
    &&& n.next_message_spec() is Some
    &&& req.user_input_message.context.tools matches Some(t) && t@ == o.tools_spec()
    &&& req.user_input_message.model_id == o.model_spec()
    &&& req.conversation_id@ == o.conversation_id_spec()
    &&& n.latest_summary_spec() == o.latest_summary_spec()
    &&& n.tools_spec() == o.tools_spec()
    &&& n.transcript_spec() == o.transcript_spec()
    &&& n.model_spec() == o.model_spec()
    &&& n.conversation_id_spec() == o.conversation_id_spec()
    &&& n.current_profile_spec() == o.current_profile_spec()
    &&& exists|e: ConversationState|
        #[trigger] enforce_post(o, e) && kept_after_enforcing(e, n, run_hooks && o.current_profile_spec() is Some, hooks)
    &&& exists|snap: BackendConversationStateImpl|
        #[trigger] request_from(snap, req) && snapshot_of_sent(
            n,
            snap,
            context_text(opt_view(o.latest_summary_spec()), files, start_context(o, run_hooks, hooks)),
        )
}

/// No user message of the history carries tool results.
pub open spec fn no_results_in_history(h: Seq<ChatMessage>) -> bool {
    forall|i: int| 0 <= i < h.len() ==> !crate::wire::user_with_results(#[trigger] h[i])
}

/// `n` keeps exactly the in-range pairs of the enforced state `e`, in order, and its pending
/// turn is that of `e` with the per-prompt hook context attached when hooks ran.
pub open spec fn kept_after_enforcing(
    e: ConversationState,
    n: ConversationState,
    hooks_ran: bool,
    hooks: Seq<(Hook, String)>,
) -> bool {
    &&& n.history_spec() == e.history_spec().subrange(
        e.valid_range_spec().0 as int,
        e.valid_range_spec().1 as int,
    )
    &&& hooks_applied(
        e.next_message_spec(),
        n.next_message_spec(),
        hooks_ran,
        hook_context_text(hooks, HookTrigger::PerPrompt),
    )
}

/// `c` holds a copy of each pair of `h`, in order.
pub open spec fn copies_of(
    h: Seq<(UserMessage, AssistantMessage)>,
    c: Seq<(UserMessage, AssistantMessage)>,
) -> bool {
    &&& c.len() == h.len()
    &&& forall|k: int|
        0 <= k < h.len() ==> same_user(h[k].0, (#[trigger] c[k]).0) && same_assistant(h[k].1, c[k].1)
}

/// `req` is snapshot `snap` on the wire: the context pair and the history flattened, then the
/// pending message.
pub open spec fn request_from(snap: BackendConversationStateImpl, req: ConversationRequest) -> bool {
    &&& snap.next_user_message is Some
    &&& history_wire_of(ctx_pairs(snap.context_messages) + snap.history@, req.history@)
    &&& user_wire_of(snap.next_user_message->0, req.user_input_message)
}

/// `snap` copies the history and the pending turn of `n`, behind the context pair that carries
/// `text` (present exactly when `text` is not empty).
pub open spec fn snapshot_of_sent(
    n: ConversationState,
    snap: BackendConversationStateImpl,
    text: Seq<char>,
) -> bool {
    &&& copies_of(n.history_spec(), snap.history@)
    &&& n.next_message_spec() is Some
    &&& same_user(n.next_message_spec()->0, snap.next_user_message->0)
    &&& (snap.context_messages is Some <==> text.len() > 0)
    &&& (snap.context_messages matches Some(p) ==> is_context_pair(p, text))
}

proof fn lemma_enforced_pending_answers(
    h: Seq<(UserMessage, AssistantMessage)>,
    before: Option<UserMessage>,
    after: Option<UserMessage>,
)
    requires
        enforced_pending(h, valid_range_for(h), before, after),
        before is Some,
        range_ends_in_tool_use(h, valid_range_for(h)),
        h[valid_range_for(h).1 - 1].1.invocations().len() > 0,
    ensures
        after is Some && after->0.has_results() && after->0.results().len() > 0,
{
    let r = valid_range_for(h);
    if pending_unanswered(before, h[r.1 - 1].1.invocations().len()) {
        assert(tool_use_ids(h[r.1 - 1].1.invocations()).len() == h[r.1 - 1].1.invocations().len());
    }
}

impl ConversationState {
    /// The context pair for the summary, the context files and the conversation-start context.
    fn context_messages(
        &mut self,
        context_files: &Vec<(String, String)>,
        conversation_start_context: Option<String>,
    ) -> (r: Option<(UserMessage, AssistantMessage)>)
        requires
            old(self).wf(),
        ensures
            ({
                let text = context_text(
                    opt_view(old(self).latest_summary_spec()),
                    context_files@,
                    opt_view(conversation_start_context),
                );
                &&& (r is Some <==> text.len() > 0)
                &&& (r matches Some(p) ==> is_context_pair(p, text))
                &&& final(self).context_message_length_spec() == if text.len() > 0 {
                    Some(vstd::utf8::encode_utf8(text).len() as usize)
                } else {
                    old(self).context_message_length_spec()
                }
            }),
            final(self).wf(),
            final(self).history_spec() == old(self).history_spec(),
            final(self).next_message_spec() == old(self).next_message_spec(),
            final(self).valid_range_spec() == old(self).valid_range_spec(),
            final(self).tools_spec() == old(self).tools_spec(),
            final(self).transcript_spec() == old(self).transcript_spec(),
            final(self).latest_summary_spec() == old(self).latest_summary_spec(),
            final(self).model_spec() == old(self).model_spec(),
            final(self).conversation_id_spec() == old(self).conversation_id_spec(),
            final(self).current_profile_spec() == old(self).current_profile_spec(),
    {
        let ghost files_spec = context_files@;
        let ghost summary_part = match opt_view(self.latest_summary) {
            Some(t) => CONTEXT_ENTRY_START_HEADER@ + SUMMARY_INTRO@ + SUMMARY_LABEL@ + t + "\n"@
                + CONTEXT_ENTRY_END_HEADER@,
            None => Seq::<char>::empty(),
        };
        let ghost files_part = if files_spec.len() > 0 {
            CONTEXT_ENTRY_START_HEADER@ + files_text(files_spec) + CONTEXT_ENTRY_END_HEADER@
        } else {
            Seq::<char>::empty()
        };
        let mut content = String::new();
        match &self.latest_summary {
            Some(summary) => {
                content.append(CONTEXT_ENTRY_START_HEADER);
                content.append(SUMMARY_INTRO);
                content.append(SUMMARY_LABEL);
                content.append(summary.as_str());
                content.append("\n");
                content.append(CONTEXT_ENTRY_END_HEADER);
            },
            None => {},
        }
        assert(content@ =~= summary_part);
        if context_files.len() > 0 {
            content.append(CONTEXT_ENTRY_START_HEADER);
            let files = format_files(context_files);
            content.append(files.as_str());
            content.append(CONTEXT_ENTRY_END_HEADER);
        }
        assert(content@ =~= summary_part + files_part);
        match &conversation_start_context {
            Some(c) => {
                content.append(c.as_str());
            },
            None => {},
        }
        assert(content@ =~= context_text(
            opt_view(self.latest_summary),
            context_files@,
            opt_view(conversation_start_context),
        ));
        let len = content.as_str().unicode_len();
        if len > 0 {
            self.context_message_length = Some(content.as_str().len());
            let user = UserMessage::new_prompt(content);
            let assistant = AssistantMessage::new_response(
                None,
                String::from_str(CONTEXT_ACKNOWLEDGEMENT),
            );
            Some((user, assistant))
        } else {
            None
        }
    }

    /// Runs the hooks, builds the context pair and copies what is to be sent.
    fn build_snapshot(
        &mut self,
        run_hooks: bool,
        hook_results: &Vec<(Hook, String)>,
        context_files: &Vec<(String, String)>,
        dropped_context_files: Vec<(String, String)>,
    ) -> (snap: BackendConversationStateImpl)
        requires
            old(self).wf(),
        ensures
            snapshot_from(
                *old(self),
                *final(self),
                snap,
                run_hooks,
                hook_results@,
                context_files@,
                dropped_context_files@,
            ),
    {
        let mut start: Option<String> = None;
        if run_hooks && self.current_profile.is_some() {
            start = Some(format_hook_context(hook_results, HookTrigger::ConversationStart));
            let per_prompt = format_hook_context(hook_results, HookTrigger::PerPrompt);
            let mut pending: Option<UserMessage> = None;
            std::mem::swap(&mut pending, &mut self.next_message);
            self.next_message = match pending {
                Some(m) => Some(
                    UserMessage {
                        additional_context: per_prompt,
                        content: m.content,
                        images: m.images,
                    },
                ),
                None => None,
            };
        }
        let context_messages = self.context_messages(context_files, start);
        let (s, e) = self.valid_history_range;
        let mut history: Vec<(UserMessage, AssistantMessage)> = Vec::new();
        let mut k: usize = s;
        while k < e
            invariant
                self.wf(),
                s == self.valid_history_range.0,
                e == self.valid_history_range.1,
                s <= k <= e,
                history@.len() == k - s,
                forall|j: int|
                    0 <= j < k - s ==> same_user(self.history@[s + j].0, (#[trigger] history@[j]).0)
                        && same_assistant(self.history@[s + j].1, history@[j].1),
            decreases e - k,
        {
            let u = self.history[k].0.duplicate();
            let a = self.history[k].1.duplicate();
            history.push((u, a));
            k = k + 1;
        }
        let next_user_message = match &self.next_message {
            Some(m) => Some(m.duplicate()),
            None => None,
        };
        BackendConversationStateImpl {
            conversation_id: self.conversation_id.clone(),
            next_user_message,
            history,
            context_messages,
            dropped_context_files,
            tools: copy_tools(&self.tools),
            model_id: copy_opt_string(&self.model),
        }
    }

    /// The snapshot of exactly what would be sent now: invariants are enforced first, then
    /// hooks run (when asked for and a context manager is configured) and the context pair is
    /// built from the summary, the context files and the hook output.
    pub fn backend_conversation_state(
        &mut self,
        run_hooks: bool,
        hook_results: &Vec<(Hook, String)>,
        context_files: &Vec<(String, String)>,
        dropped_context_files: Vec<(String, String)>,
    ) -> (snap: BackendConversationStateImpl)
        requires
            old(self).wf(),
        ensures
            exists|e: ConversationState|
                #[trigger] enforce_post(*old(self), e) && snapshot_from(
                    e,
                    *final(self),
                    snap,
                    run_hooks,
                    hook_results@,
                    context_files@,
                    dropped_context_files@,
                ),
    {
        self.enforce_conversation_invariants();
        let ghost e = *self;
        let snap = self.build_snapshot(run_hooks, hook_results, context_files, dropped_context_files);
        assert(enforce_post(*old(self), e));
        snap
    }

    /// The request to send for the pending message. Invariants are enforced, history outside
    /// the valid range is dropped, hooks run when asked for, and the context pair is built.
    /// Fails, changing nothing, when no pending message is set.
    pub fn as_sendable_conversation_state(
        &mut self,
        run_hooks: bool,
        hook_results: &Vec<(Hook, String)>,
        context_files: &Vec<(String, String)>,
        dropped_context_files: Vec<(String, String)>,
    ) -> (r: Result<ConversationRequest, ConversationError>)
        requires
            old(self).wf(),
        ensures
            final(self).wf(),
            r is Err <==> old(self).next_message_spec() is None,
            r is Err ==> *final(self) == *old(self),
            r matches Ok(req) ==> sendable_post(
                *old(self),
                *final(self),
                req,
                run_hooks,
                hook_results@,
                context_files@,
            ),
    {
        if self.next_message.is_none() {
            return Err(ConversationError::NoPendingMessage);
        }
        let ghost o = *self;
        self.enforce_conversation_invariants();
        let ghost e = *self;
        let (s, end) = self.valid_history_range;
        let mut kept: Vec<(UserMessage, AssistantMessage)> = Vec::new();
        std::mem::swap(&mut kept, &mut self.history);
        kept.truncate(end);
        let mut i: usize = 0;
        while i < s
            invariant
                s <= end <= e.history_spec().len(),
                i <= s,
                kept@ == e.history_spec().subrange(i as int, end as int),
            decreases s - i,
        {
            kept.remove(0);
            i = i + 1;
            assert(kept@ =~= e.history_spec().subrange(i as int, end as int));
        }
        self.history = kept;
        self.valid_history_range = (0, end - s);
        let ghost d = *self;
        let snap = self.build_snapshot(run_hooks, hook_results, context_files, dropped_context_files);
        let ghost sn = snap;
        let r = snap.into_fig_conversation_state();
        let ghost gr = r;
        proof {
            let h0 = o.history_spec();
            let rg = valid_range_for(h0);
            let names = catalog_names(o.tools_spec());
            assert(d.history_spec() == e.history_spec().subrange(rg.0, rg.1));
            assert(d.next_message_spec() == e.next_message_spec());
            lemma_first_plain_bounds(h0, 1);
            match gr {
                Ok(req) => {
                    assert(kept_after_enforcing(
                        e,
                        *self,
                        run_hooks && o.current_profile_spec() is Some,
                        hook_results@,
                    ));
                    assert(enforce_post(o, e));
                    assert(request_from(sn, req));
                    assert(copies_of(self.history_spec(), sn.history@)) by {
                        assert forall|k: int| 0 <= k < self.history_spec().len() implies same_user(
                            self.history_spec()[k].0,
                            (#[trigger] sn.history@[k]).0,
                        ) && same_assistant(self.history_spec()[k].1, sn.history@[k].1) by {
                            assert(d.history_spec()[0 + k] == self.history_spec()[k]);
                        }
                    }
                    assert(snapshot_of_sent(
                        *self,
                        sn,
                        context_text(
                            opt_view(o.latest_summary_spec()),
                            context_files@,
                            start_context(o, run_hooks, hook_results@),
                        ),
                    ));
                    let pairs = ctx_pairs(sn.context_messages) + sn.history@;
                    let n = sn.history@.len();
                    let c = ctx_pairs(sn.context_messages).len();
                    if ends_with_tool_uses(req.history@) {
                        let last = (pairs.len() - 1) as int;
                        assert(wire_pair_at(pairs, req.history@, last));
                        if n == 0 {
                            assert(pairs[last] == sn.context_messages->0);
                        } else {
                            assert(pairs[last] == sn.history@[n - 1]);
                            assert(same_assistant(d.history_spec()[n - 1].1, sn.history@[n - 1].1));
                            assert(d.history_spec()[n - 1] == e.history_spec()[rg.1 - 1]);
                            assert(resolved_message(h0[rg.1 - 1].1, e.history_spec()[rg.1 - 1].1, names));
                            lemma_enforced_pending_answers(
                                h0,
                                o.next_message_spec(),
                                e.next_message_spec(),
                            );
                        }
                    }
                    if forall|i: int|
                        0 <= i < o.history_spec().len() ==> !(
                        #[trigger] o.history_spec()[i]).0.has_results() {
                        assert forall|i: int|
                            0 <= i < req.history@.len() && crate::wire::user_with_results(
                                #[trigger] req.history@[i],
                            ) implies false by {
                            let k = i / 2;
                            assert(wire_pair_at(pairs, req.history@, k));
                            if k >= c {
                                let j = k - c;
                                assert(pairs[k] == sn.history@[j]);
                                assert(same_user(d.history_spec()[j].0, sn.history@[j].0));
                                assert(d.history_spec()[j] == e.history_spec()[rg.0 + j]);
                                assert(e.history_spec()[rg.0 + j].0 == h0[rg.0 + j].0);
                            }
                        }
                        assert(no_results_in_history(req.history@));
                    }
                    match o.latest_summary_spec() {
                        Some(sm) => {
                            reveal_strlit("--- CONTEXT ENTRY BEGIN ---\n");
                            assert(wire_pair_at(pairs, req.history@, 0));
                        },
                        None => {},
                    }
                },
                Err(_) => {},
            }
        }
        r
    }
}

} // verus!

verus! {

/// Default request for a summary of the conversation.
pub const SUMMARY_REQUEST_TEXT: &'static str = "[SYSTEM NOTE: This is an automated summarization request, not from the user]\n\nFORMAT REQUIREMENTS: Create a structured, concise summary in bullet-point format. DO NOT respond conversationally. DO NOT address the user directly.\n\nYour task is to create a structured summary document containing:\n1) A bullet-point list of key topics/questions covered\n2) Bullet points for all significant tools executed and their results\n3) Bullet points for any code or technical information shared\n4) A section of key insights gained\n\nFORMAT THE SUMMARY IN THIRD PERSON, NOT AS A DIRECT RESPONSE. Example format:\n\n## CONVERSATION SUMMARY\n* Topic 1: Key information\n* Topic 2: Key information\n\n## TOOLS EXECUTED\n* Tool X: Result Y\n\nRemember this is a DOCUMENT not a chat response.\nFILTER OUT CHAT CONVENTIONS (greetings, offers to help, etc).";

/// Start of a summary request that carries a custom instruction.
pub const CUSTOM_SUMMARY_REQUEST_HEAD: &'static str = "[SYSTEM NOTE: This is an automated summarization request, not from the user]\n\nFORMAT REQUIREMENTS: Create a structured, concise summary in bullet-point format. DO NOT respond conversationally. DO NOT address the user directly.\n\nIMPORTANT CUSTOM INSTRUCTION: ";

/// End of a summary request that carries a custom instruction.
pub const CUSTOM_SUMMARY_REQUEST_TAIL: &'static str = "\n\nYour task is to create a structured summary document containing:\n1) A bullet-point list of key topics/questions covered\n2) Bullet points for all significant tools executed and their results\n3) Bullet points for any code or technical information shared\n4) A section of key insights gained\n\nFORMAT THE SUMMARY IN THIRD PERSON, NOT AS A DIRECT RESPONSE. Example format:\n\n## CONVERSATION SUMMARY\n* Topic 1: Key information\n* Topic 2: Key information\n\n## TOOLS EXECUTED\n* Tool X: Result Y\n\nRemember this is a DOCUMENT not a chat response. The custom instruction above modifies what to prioritize.\nFILTER OUT CHAT CONVENTIONS (greetings, offers to help, etc).";

/// The text of a summary request, with the custom instruction when there is one.
pub open spec fn summary_request_text(custom: Option<Seq<char>>) -> Seq<char> {
    match custom {
        Some(c) => CUSTOM_SUMMARY_REQUEST_HEAD@ + c + CUSTOM_SUMMARY_REQUEST_TAIL@,
        None => SUMMARY_REQUEST_TEXT@,
    }
}

/// The prompt that stands for tool results once their invocations are gone: the texts of their
/// blocks joined by spaces (a placeholder when that is empty), cut to the maximum prompt size.
pub open spec fn tool_results_prompt(results: Seq<ToolUseResult>) -> Seq<char> {
    let joined = joined_with_spaces(block_texts(results));
    first_chars(
        if joined.len() == 0 {
            REDACTED_TOOL_RESULT_TEXT@
        } else {
            joined
        },
        MAX_USER_MESSAGE_SIZE as nat,
    )
}

/// `n` is `o` after its history was replaced by `summary`: at most the most recent pair is
/// kept, and tool results of its user turn become a plain prompt.
pub open spec fn replace_post(o: ConversationState, summary: String, n: ConversationState) -> bool {
    let h = o.history_spec();
    &&& n.wf()
    &&& n.latest_summary_spec() == Some(summary)
    &&& n.history_spec().len() == if h.len() == 0 {
        0int
    } else {
        1int
    }
    &&& h.len() > 0 ==> {
        let u = h.last().0;
        &&& n.history_spec()[0].1 == h.last().1
        &&& if u.has_results() {
            &&& n.history_spec()[0].0.content matches UserMessageContent::Prompt { prompt } && prompt@
                == tool_results_prompt(u.results())
            &&& n.history_spec()[0].0.additional_context == u.additional_context
            &&& n.history_spec()[0].0.images == u.images
        } else {
            n.history_spec()[0].0 == u
        }
    }
    &&& forall|i: int|
        0 <= i < n.history_spec().len() ==> !(#[trigger] n.history_spec()[i]).0.has_results()
    &&& n.next_message_spec() == o.next_message_spec()
    &&& n.tools_spec() == o.tools_spec()
    &&& n.transcript_spec() == o.transcript_spec()
    &&& n.model_spec() == o.model_spec()
    &&& n.conversation_id_spec() == o.conversation_id_spec()
    &&& n.current_profile_spec() == o.current_profile_spec()
}

/// The pairs of `e` in its valid range.
pub open spec fn in_range_of(e: ConversationState) -> Seq<(UserMessage, AssistantMessage)> {
    e.history_spec().subrange(e.valid_range_spec().0 as int, e.valid_range_spec().1 as int)
}

/// The results a summary request carries for the history `c` it sends: one cancelled result per
/// invocation when `c` ends with a tool-use turn, none otherwise.
pub open spec fn summary_results(c: Seq<(UserMessage, AssistantMessage)>, req: ConversationRequest) -> bool {
    if c.len() > 0 && c.last().1 is ToolUse {
        req.user_input_message.context.tool_results matches Some(rs) && cancelled_results(
            rs@,
            tool_use_ids(c.last().1.invocations()),
        )
    } else {
        req.user_input_message.context.tool_results is None
    }
}

/// `req` sends a copy of the in-range history of the enforced state `e`, with its results.
pub open spec fn summary_history(e: ConversationState, req: ConversationRequest) -> bool {
    exists|c: Seq<(UserMessage, AssistantMessage)>|
        #[trigger] copies_of(in_range_of(e), c) && history_wire_of(c, req.history@)
            && summary_results(c, req)
}

/// What a summary request `req` built from `o`, leaving `n`, is.
pub open spec fn summary_request_post(
    o: ConversationState,
    n: ConversationState,
    req: ConversationRequest,
    custom: Option<Seq<char>>,
) -> bool {
    &&& req.user_input_message.content@ == summary_request_text(custom)
    &&& alternates(req.history@)
    &&& no_tools_in_history(req.history@)
    &&& (ends_with_tool_uses(req.history@) ==> carries_results(req.user_input_message))
    &&& (req.user_input_message.context.tools matches Some(t) ==> t@ == o.tools_spec())
    &&& (req.user_input_message.context.tools is Some <==> o.tools_spec().len() > 0)
    &&& req.user_input_message.model_id == o.model_spec()
    &&& req.user_input_message.images is None
    &&& req.conversation_id@ == o.conversation_id_spec()
    &&& n.latest_summary_spec() == o.latest_summary_spec()
    &&& exists|e: ConversationState|
        #[trigger] enforce_post(o, e) && n.history_spec() == e.history_spec() && n.next_message_spec()
            == e.next_message_spec() && summary_history(e, req)
}

/// The size of a snapshot.
pub open spec fn size_of(snap: BackendConversationStateImpl) -> ConversationSize {
    ConversationSize {
        context_messages: match snap.context_messages {
            Some(p) => sat(p.0.chars() + p.1.chars()) as usize,
            None => 0,
        },
        user_messages: users_chars(snap.history@) as usize,
        assistant_messages: assistants_chars(snap.history@) as usize,
    }
}

impl ConversationState {
    /// Replaces the history with `summary`: only the most recent pair is kept, and when its user
    /// turn carries tool results they become a plain prompt, since the invocations they answer
    /// are gone.
    pub fn replace_history_with_summary(&mut self, summary: String)
        requires
            old(self).wf(),
        ensures
            replace_post(*old(self), summary, *final(self)),
    {
        let ghost h = self.history@;
        let mut history: Vec<(UserMessage, AssistantMessage)> = Vec::new();
        std::mem::swap(&mut history, &mut self.history);
        let last = history.pop();
        match last {
            Some((user, assistant)) => {
                let user = match user.tool_use_results() {
                    Some(results) => {
                        let texts = result_block_texts(results);
                        let mut joined = join_with_spaces(&texts);
                        if joined.as_str().unicode_len() == 0 {
                            joined = String::from_str(REDACTED_TOOL_RESULT_TEXT);
                        }
                        let prompt = take_chars(joined.as_str(), MAX_USER_MESSAGE_SIZE);
                        UserMessage {
                            additional_context: user.additional_context,
                            content: UserMessageContent::Prompt { prompt },
                            images: user.images,
                        }
                    },
                    None => user,
                };
                self.history.push((user, assistant));
            },
            None => {},
        }
        self.valid_history_range = (0, self.history.len());
        self.latest_summary = Some(summary);
    }

    /// Cuts the prompts and plain result texts of every user turn in the history to the size
    /// used for a second compaction attempt.
    pub fn truncate_large_user_messages(&mut self)
        requires
            old(self).wf(),
        ensures
            final(self).wf(),
            final(self).history_spec().len() == old(self).history_spec().len(),
            forall|i: int|
                0 <= i < old(self).history_spec().len() ==> truncated_user(
                    old(self).history_spec()[i].0,
                    (#[trigger] final(self).history_spec()[i]).0,
                    TRUNCATED_USER_MESSAGE_SIZE as nat,
                ) && final(self).history_spec()[i].1 == old(self).history_spec()[i].1,
            final(self).next_message_spec() == old(self).next_message_spec(),
            final(self).valid_range_spec() == old(self).valid_range_spec(),
            same_settings(*old(self), *final(self)),
    {
        let ghost orig = self.history@;
        let mut rest: Vec<(UserMessage, AssistantMessage)> = Vec::new();
        std::mem::swap(&mut rest, &mut self.history);
        let mut out: Vec<(UserMessage, AssistantMessage)> = Vec::new();
        while rest.len() > 0
            invariant
                out@.len() + rest@.len() == orig.len(),
                rest@ == orig.subrange(out@.len() as int, orig.len() as int),
                forall|i: int|
                    0 <= i < out@.len() ==> truncated_user(
                        orig[i].0,
                        (#[trigger] out@[i]).0,
                        TRUNCATED_USER_MESSAGE_SIZE as nat,
                    ) && out@[i].1 == orig[i].1,
            decreases rest.len(),
        {
            let (user, assistant) = rest.remove(0);
            assert(user == orig[out@.len() as int].0 && assistant == orig[out@.len() as int].1);
            out.push((user.truncate_safe(TRUNCATED_USER_MESSAGE_SIZE), assistant));
            assert(rest@ =~= orig.subrange(out@.len() as int, orig.len() as int));
        }
        self.history = out;
    }

    /// A request for a summary of the conversation: the in-range history, once invariants are
    /// enforced, is sent (without the context pair) with the summary instruction as the user
    /// message, and the stored history is kept. When that history ends with tool uses, they are
    /// answered with one cancelled result each.
    pub fn create_summary_request(&mut self, custom_prompt: Option<String>) -> (req: ConversationRequest)
        requires
            old(self).wf(),
        ensures
            final(self).wf(),
            summary_request_post(*old(self), *final(self), req, opt_view(custom_prompt)),
    {
        let content = match &custom_prompt {
            Some(c) => {
                let mut t = String::from_str(CUSTOM_SUMMARY_REQUEST_HEAD);
                t.append(c.as_str());
                t.append(CUSTOM_SUMMARY_REQUEST_TAIL);
                t
            },
            None => String::from_str(SUMMARY_REQUEST_TEXT),
        };
        let no_hooks: Vec<(Hook, String)> = Vec::new();
        let no_files: Vec<(String, String)> = Vec::new();
        let snap = self.backend_conversation_state(false, &no_hooks, &no_files, Vec::new());
        let ghost c = snap.history@;
        let history = flatten_history(None, snap.history);
        assert(ctx_pairs(None) + c =~= c);
        let tools = if self.tools.len() == 0 {
            None
        } else {
            Some(copy_tools(&self.tools))
        };
        let mut tool_results: Option<Vec<ToolUseResult>> = None;
        if history.len() > 0 {
            proof {
                assert(wire_pair_at(c, history@, c.len() - 1));
            }
            match &history[history.len() - 1] {
                ChatMessage::AssistantResponseMessage(a) => match &a.tool_uses {
                    Some(t) => {
                        let results = crate::message::cancelled_results_for(ids_of_tool_uses(t));
                        tool_results = Some(results);
                    },
                    None => {},
                },
                ChatMessage::UserInputMessage(_) => {},
            }
        }
        let req = ConversationRequest {
            conversation_id: self.conversation_id.clone(),
            user_input_message: crate::wire::UserInputMessage {
                content,
                context: crate::wire::UserInputMessageContext { tool_results, tools },
                images: None,
                model_id: copy_opt_string(&self.model),
            },
            history,
        };
        proof {
            let e = choose|e: ConversationState|
                #[trigger] enforce_post(*old(self), e) && snapshot_from(
                    e,
                    *self,
                    snap,
                    false,
                    no_hooks@,
                    no_files@,
                    Seq::empty(),
                );
            let r = e.valid_range_spec();
            assert(copies_of(in_range_of(e), c)) by {
                assert forall|k: int| 0 <= k < in_range_of(e).len() implies same_user(
                    in_range_of(e)[k].0,
                    (#[trigger] c[k]).0,
                ) && same_assistant(in_range_of(e)[k].1, c[k].1) by {
                    assert(in_range_of(e)[k] == e.history_spec()[r.0 + k]);
                }
            }
            assert(summary_history(e, req));
            assert(enforce_post(*old(self), e));
        }
        req
    }

    /// Total characters of what would be sent now.
    pub fn calculate_char_count(
        &mut self,
        context_files: &Vec<(String, String)>,
        dropped_context_files: Vec<(String, String)>,
    ) -> (r: usize)
        requires
            old(self).wf(),
        ensures
            final(self).wf(),
            exists|e: ConversationState, snap: BackendConversationStateImpl|
                #![trigger enforce_post(*old(self), e), size_of(snap)]
                enforce_post(*old(self), e) && snapshot_from(
                    e,
                    *final(self),
                    snap,
                    false,
                    Seq::empty(),
                    context_files@,
                    dropped_context_files@,
                ) && r == size_of(snap).total_spec(),
    {
        let no_hooks: Vec<(Hook, String)> = Vec::new();
        let ghost dropped = dropped_context_files@;
        let snap = self.backend_conversation_state(false, &no_hooks, context_files, dropped_context_files);
        let size = snap.calculate_conversation_size();
        proof {
            assert(no_hooks@ =~= Seq::<(Hook, String)>::empty());
            let e = choose|e: ConversationState|
                #[trigger] enforce_post(*old(self), e) && snapshot_from(
                    e,
                    *self,
                    snap,
                    false,
                    no_hooks@,
                    context_files@,
                    dropped,
                );
            assert(size == size_of(snap));
            assert(enforce_post(*old(self), e));
        }
        size.total()
    }

    /// `Critical` when what would be sent now reaches the character ceiling, else `Normal`.
    pub fn get_token_warning_level(
        &mut self,
        context_files: &Vec<(String, String)>,
        dropped_context_files: Vec<(String, String)>,
    ) -> (r: TokenWarningLevel)
        requires
            old(self).wf(),
        ensures
            final(self).wf(),
            exists|e: ConversationState, snap: BackendConversationStateImpl|
                #![trigger enforce_post(*old(self), e), size_of(snap)]
                enforce_post(*old(self), e) && snapshot_from(
                    e,
                    *final(self),
                    snap,
                    false,
                    Seq::empty(),
                    context_files@,
                    dropped_context_files@,
                ) && r == if size_of(snap).total_spec() >= MAX_CHARS {
                    TokenWarningLevel::Critical
                } else {
                    TokenWarningLevel::Normal
                },
    {
        let no_hooks: Vec<(Hook, String)> = Vec::new();
        let ghost dropped = dropped_context_files@;
        let snap = self.backend_conversation_state(false, &no_hooks, context_files, dropped_context_files);
        let size = snap.calculate_conversation_size();
        proof {
            assert(no_hooks@ =~= Seq::<(Hook, String)>::empty());
            let e = choose|e: ConversationState|
                #[trigger] enforce_post(*old(self), e) && snapshot_from(
                    e,
                    *self,
                    snap,
                    false,
                    no_hooks@,
                    context_files@,
                    dropped,
                );
            assert(size == size_of(snap));
            assert(enforce_post(*old(self), e));
        }
        TokenWarningLevel::for_size(&size)
    }
}

/// After the history is replaced with a summary, the next request never carries tool results
/// that do not follow an assistant message with tool uses, even when the kept pair carried
/// tool results.
pub proof fn lemma_summary_keeps_results_correlated(
    s0: ConversationState,
    summary: String,
    s1: ConversationState,
    s2: ConversationState,
    req: ConversationRequest,
    run_hooks: bool,
    hooks: Seq<(Hook, String)>,
    files: Seq<(String, String)>,
)
    requires
        s0.wf(),
        replace_post(s0, summary, s1),
        sendable_post(s1, s2, req, run_hooks, hooks, files),
    ensures
        results_correlated(req.history@),
        no_results_in_history(req.history@),
        context_turn_first(
            req.history@,
            context_text(Some(summary@), files, start_context(s1, run_hooks, hooks)),
        ),
{
}

} // verus!

verus! {

impl ConversationState {
    /// Takes a new tool catalog when the tool provider reported a change (or when forced) and
    /// resolves every tool name in the history against it.
    pub fn update_state(&mut self, new_tools: Option<Vec<ToolSpec>>)
        requires
            old(self).wf(),
        ensures
            final(self).wf(),
            match new_tools {
                Some(t) => {
                    &&& final(self).tools_spec() == t@
                    &&& resolved_history(
                        old(self).history_spec(),
                        final(self).history_spec(),
                        catalog_names(t@),
                    )
                },
                None => {
                    &&& final(self).tools_spec() == old(self).tools_spec()
                    &&& final(self).history_spec() == old(self).history_spec()
                },
            },
            final(self).next_message_spec() == old(self).next_message_spec(),
            final(self).valid_range_spec() == old(self).valid_range_spec(),
            final(self).latest_summary_spec() == old(self).latest_summary_spec(),
            final(self).conversation_id_spec() == old(self).conversation_id_spec(),
            final(self).transcript_spec() == old(self).transcript_spec(),
            final(self).model_spec() == old(self).model_spec(),
            final(self).current_profile_spec() == old(self).current_profile_spec(),
    {
        match new_tools {
            Some(t) => {
                self.tools = t;
                self.enforce_tool_use_history_invariants();
            },
            None => {},
        }
    }
}

} // verus!

verus! {

/// A send keeps the history bounded from turn to turn: when the history holds at most one pair
/// more than a request keeps, the history left after the send, with the next pair added, again
/// holds at most one pair more.
pub proof fn lemma_turn_keeps_history_bounded(
    o: ConversationState,
    n: ConversationState,
    req: ConversationRequest,
    run_hooks: bool,
    hooks: Seq<(Hook, String)>,
    files: Seq<(String, String)>,
)
    requires
        o.wf(),
        sendable_post(o, n, req, run_hooks, hooks, files),
        2 * o.history_spec().len() <= MAX_CONVERSATION_STATE_HISTORY_LEN - 4,
    ensures
        2 * (n.history_spec().len() + 1) <= MAX_CONVERSATION_STATE_HISTORY_LEN - 4,
        req.history@.len() <= MAX_CONVERSATION_STATE_HISTORY_LEN,
{
    lemma_first_plain_bounds(o.history_spec(), 1);
}

} // verus!
