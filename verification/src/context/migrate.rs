//! Conversion of an ACP-native transcript into the message history a model
//! request replays, with the warnings for what could not be carried over.
//! Old `batch_id` values collide and are never used as keys.

use vstd::prelude::*;

use crate::context::hydrate::{
    chunk_text, chunk_text_spec, entry_views, is_call_kind, load_failed, pending_view, prompt_text,
    prompt_text_spec, unavailable, EntryKind, HydrateError, TranscriptEntry,
};
use crate::context::store::{
    copy_fact, fact_view, feedback_view, finalize_fact, finalize_view, part_views, AssistantPart,
    ExecutionFact, FactView, PartView,
};
use crate::context::transcript::{
    call_id_view, copy_compact, extract_native_meta, extract_spec, texts, tool_call_id_of,
    CommitView, CompactRecord, CompactView, ModelCommit, NativeMeta, NativeMetaError,
    NativeMetaView, OutputLocator,
};
use crate::json::{jview, vget, vget_str, JsonValue, JsonView};
use crate::text::{decimal_seq, push_decimal, push_str, str_eq};

verus! {

/// Something a conversion could not carry over faithfully.
#[derive(Debug)]
pub struct MigrateWarning {
    pub code: &'static str,
    pub message: String,
}

/// One tool result handed back to the model.
#[derive(Debug)]
pub struct ToolResultText {
    pub id: String,
    pub name: String,
    pub body: String,
}

/// A message of the recovered history.
#[derive(Debug)]
pub enum ChatMessage {
    /// A user prompt.
    User { text: String },
    /// An assistant message: its text, then the tool calls it made.
    Assistant { id: Option<String>, parts: Vec<AssistantPart> },
    /// The results of tool calls, handed back as a user message.
    ToolResults { results: Vec<ToolResultText> },
}

/// A recovered history, the warnings raised on the way, and whether every
/// call was paired with its result.
#[derive(Debug)]
pub struct MigratedMessages {
    pub messages: Vec<ChatMessage>,
    pub warnings: Vec<MigrateWarning>,
    pub complete: bool,
}

pub enum ChatView {
    User(Seq<char>),
    Assistant { id: Option<Seq<char>>, parts: Seq<PartView> },
    ToolResults(Seq<(Seq<char>, Seq<char>, Seq<char>)>),
}

pub open spec fn result_views(rs: Seq<ToolResultText>) -> Seq<(Seq<char>, Seq<char>, Seq<char>)> {
    rs.map_values(|r: ToolResultText| (r.id@, r.name@, r.body@))
}

pub open spec fn opt_text(o: Option<String>) -> Option<Seq<char>> {
    match o {
        Some(s) => Some(s@),
        None => None,
    }
}

pub open spec fn chat_view(m: ChatMessage) -> ChatView {
    match m {
        ChatMessage::User { text } => ChatView::User(text@),
        ChatMessage::Assistant { id, parts } => ChatView::Assistant {
            id: opt_text(id),
            parts: part_views(parts@),
        },
        ChatMessage::ToolResults { results } => ChatView::ToolResults(result_views(results@)),
    }
}

pub open spec fn chat_views(ms: Seq<ChatMessage>) -> Seq<ChatView> {
    ms.map_values(|m: ChatMessage| chat_view(m))
}

pub open spec fn warning_views(ws: Seq<MigrateWarning>) -> Seq<(Seq<char>, Seq<char>)> {
    ws.map_values(|w: MigrateWarning| (w.code@, w.message@))
}

/// An assistant message whose commit was seen but whose calls are not yet
/// paired with results.
pub struct PendingView {
    pub model_message_id: Option<Seq<char>>,
    pub text: Seq<char>,
    pub call_ids: Seq<Seq<char>>,
    pub parts_hint: nat,
}

/// What a conversion has produced so far and what it holds open.
pub struct MigState {
    pub messages: Seq<ChatView>,
    pub warnings: Seq<(Seq<char>, Seq<char>)>,
    pub complete: bool,
    pub open_text: Seq<char>,
    pub open_model_message_id: Option<Seq<char>>,
    pub facts: Seq<FactView>,
    pub pending: Option<PendingView>,
    pub compact: Option<CompactView>,
    pub prompts: nat,
    pub current_turn: Option<Seq<char>>,
    pub emitted: Set<Seq<char>>,
}

pub open spec fn initial_mig() -> MigState {
    MigState {
        messages: Seq::empty(),
        warnings: Seq::empty(),
        complete: true,
        open_text: Seq::empty(),
        open_model_message_id: None,
        facts: Seq::empty(),
        pending: None,
        compact: None,
        prompts: 0,
        current_turn: None,
        emitted: Set::empty(),
    }
}

pub open spec fn has_code(ws: Seq<(Seq<char>, Seq<char>)>, code: Seq<char>) -> bool {
    exists|i: int| 0 <= i < ws.len() && #[trigger] ws[i].0 == code
}

/// A warning is raised once per code.
pub open spec fn warn(s: MigState, code: Seq<char>, message: Seq<char>) -> MigState {
    if has_code(s.warnings, code) {
        s
    } else {
        MigState { warnings: s.warnings.push((code, message)), ..s }
    }
}

/// Index of the fact recorded for `id`.
pub open spec fn find_fact(facts: Seq<FactView>, id: Seq<char>) -> Option<int>
    decreases facts.len(),
{
    if facts.len() == 0 {
        None
    } else {
        match find_fact(facts.drop_last(), id) {
            Some(i) => Some(i),
            None => if facts.last().tool_call_id == id {
                Some(facts.len() - 1)
            } else {
                None
            },
        }
    }
}

/// Ids joined by `, `.
pub open spec fn joined(ids: Seq<Seq<char>>) -> Seq<char>
    decreases ids.len(),
{
    if ids.len() == 0 {
        Seq::empty()
    } else if ids.len() == 1 {
        ids[0]
    } else {
        joined(ids.drop_last()) + ", "@ + ids.last()
    }
}

/// The facts after the calls of a commit are settled: a call without an
/// outcome is closed as unknown or cancelled (see [`finalize_view`]).
pub open spec fn settle_ids(facts: Seq<FactView>, ids: Seq<Seq<char>>) -> Seq<FactView>
    decreases ids.len(),
{
    if ids.len() == 0 {
        facts
    } else {
        let f = settle_ids(facts, ids.drop_last());
        match find_fact(f, ids.last()) {
            Some(i) => f.update(i, finalize_view(f[i])),
            None => f,
        }
    }
}

/// The tool call parts of the committed calls that have a fact.
pub open spec fn calls_of(facts: Seq<FactView>, ids: Seq<Seq<char>>) -> Seq<PartView>
    decreases ids.len(),
{
    if ids.len() == 0 {
        Seq::empty()
    } else {
        let rest = calls_of(facts, ids.drop_last());
        match find_fact(facts, ids.last()) {
            Some(i) => rest.push(
                PartView::ToolCall {
                    id: ids.last(),
                    name: facts[i].function_name,
                    args: facts[i].raw_input,
                },
            ),
            None => rest,
        }
    }
}

/// Their results: id, function name and what the model is told.
pub open spec fn results_of(facts: Seq<FactView>, ids: Seq<Seq<char>>) -> Seq<(Seq<char>, Seq<char>, Seq<char>)>
    decreases ids.len(),
{
    if ids.len() == 0 {
        Seq::empty()
    } else {
        let rest = results_of(facts, ids.drop_last());
        match find_fact(facts, ids.last()) {
            Some(i) => rest.push((ids.last(), facts[i].function_name, feedback_view(facts[i]))),
            None => rest,
        }
    }
}

/// The committed calls that have no fact.
pub open spec fn missing_of(facts: Seq<FactView>, ids: Seq<Seq<char>>) -> Seq<Seq<char>>
    decreases ids.len(),
{
    if ids.len() == 0 {
        Seq::empty()
    } else {
        let rest = missing_of(facts, ids.drop_last());
        match find_fact(facts, ids.last()) {
            Some(_) => rest,
            None => rest.push(ids.last()),
        }
    }
}

pub open spec fn paired_ids(facts: Seq<FactView>, ids: Seq<Seq<char>>) -> Set<Seq<char>> {
    Set::new(|id: Seq<char>| ids.contains(id) && find_fact(facts, id) is Some)
}

/// The pending assistant message is written out: its text and the calls
/// that have facts, then their results; calls without facts make the
/// history incomplete.
pub open spec fn flush_pending(s: MigState) -> MigState {
    match s.pending {
        None => s,
        Some(p) => {
            let facts = settle_ids(s.facts, p.call_ids);
            let text: Seq<PartView> = if p.text.len() > 0 {
                seq![PartView::Text(p.text)]
            } else {
                Seq::empty()
            };
            let content = text + calls_of(facts, p.call_ids);
            let results = results_of(facts, p.call_ids);
            let missing = missing_of(facts, p.call_ids);
            let s1 = MigState {
                pending: None,
                facts,
                emitted: s.emitted.union(paired_ids(facts, p.call_ids)),
                ..s
            };
            let s2 = if missing.len() > 0 {
                warn(
                    MigState { complete: false, ..s1 },
                    "incomplete_tool_chain"@,
                    "model commit call_ids had no recoverable native execution metadata: "@
                        + joined(missing),
                )
            } else {
                s1
            };
            let s3 = if p.call_ids.len() > 0 {
                warn(
                    s2,
                    "missing_provider_ids"@,
                    "old JSONL has no provider dual-ids or reasoning; not fabricated"@,
                )
            } else {
                s2
            };
            let s4 = if p.parts_hint > 0 && content.len() < p.parts_hint {
                warn(
                    s3,
                    "missing_assistant_parts"@,
                    "old JSONL assistant parts are incomplete; missing text or reasoning was not fabricated"@,
                )
            } else {
                s3
            };
            let s5 = if content.len() > 0 {
                MigState {
                    messages: s4.messages.push(
                        ChatView::Assistant { id: p.model_message_id, parts: content },
                    ),
                    ..s4
                }
            } else {
                s4
            };
            if results.len() > 0 {
                MigState { messages: s5.messages.push(ChatView::ToolResults(results)), ..s5 }
            } else {
                s5
            }
        },
    }
}

/// Assistant text with no commit is recovered as a text message, with a
/// warning.
pub open spec fn flush_text(s: MigState) -> MigState {
    if s.open_text.len() == 0 {
        s
    } else {
        warn(
            MigState {
                messages: s.messages.push(
                    ChatView::Assistant {
                        id: s.open_model_message_id,
                        parts: seq![PartView::Text(s.open_text)],
                    },
                ),
                open_text: Seq::empty(),
                open_model_message_id: None,
                ..s
            },
            "uncommitted_assistant_text"@,
            "assistant text had no model_commit boundary; recovered as a text message"@,
        )
    }
}

pub open spec fn close_all(s: MigState) -> MigState {
    flush_text(flush_pending(s))
}

/// A prompt closes what is open, opens turn `<session_id>:<n>`, and is
/// replayed as a user message unless its text is empty.
pub open spec fn prompt_mig(s: MigState, session_id: Seq<char>, p: JsonView) -> MigState {
    let s1 = close_all(s);
    let n = s1.prompts + 1;
    let text = prompt_text_spec(p);
    MigState {
        messages: if text.len() > 0 {
            s1.messages.push(ChatView::User(text))
        } else {
            s1.messages
        },
        prompts: n,
        current_turn: Some(session_id + ":"@ + decimal_seq(n)),
        ..s1
    }
}

pub open spec fn push_chunk(s: MigState, p: JsonView) -> MigState {
    match chunk_text_spec(p) {
        Some(t) => MigState { open_text: s.open_text + t, ..s },
        None => s,
    }
}

/// A fact with what a record says: function name, input (when the record
/// or the payload gives one), phase, outcome, executed flag, presentation,
/// reason and locator where given; truncation only ever switched on.
pub open spec fn migrate_overlay(base: FactView, meta: NativeMetaView, raw: JsonView, raw_given: bool) -> FactView {
    let b = FactView {
        function_name: match meta.function_name {
            Some(n) => n,
            None => base.function_name,
        },
        raw_input: if raw_given {
            raw
        } else {
            base.raw_input
        },
        ..base
    };
    FactView {
        phase: match meta.phase {
            Some(x) => x,
            None => b.phase,
        },
        outcome: if meta.outcome is Some {
            meta.outcome
        } else {
            b.outcome
        },
        executed: if meta.executed is Some {
            meta.executed
        } else {
            b.executed
        },
        model_presentation: if meta.model_presentation is Some {
            meta.model_presentation
        } else {
            b.model_presentation
        },
        reason: if meta.reason is Some {
            meta.reason
        } else {
            b.reason
        },
        truncated: if meta.truncated == Some(true) {
            true
        } else {
            b.truncated
        },
        output_locator: if meta.output_locator is Some {
            meta.output_locator
        } else {
            b.output_locator
        },
        ..b
    }
}

/// A tool call or update with its record. A call must have an id; a first
/// record of a call must name the function (a bare commit marker is passed
/// over) and know its turn.
pub open spec fn tool_mig(s: MigState, p: JsonView, meta: NativeMetaView) -> Result<MigState, Seq<char>> {
    let tid = match meta.tool_call_id {
        Some(t) => Some(t),
        None => call_id_view(p),
    };
    match tid {
        None => Err("tool call missing id"@),
        Some(id) => {
            let idx = find_fact(s.facts, id);
            if meta.function_name is None && idx is None {
                if meta.model_commit is Some {
                    Ok(s)
                } else {
                    Err("tool call missing function_name; refusing to infer from title"@)
                }
            } else {
                let raw_given = meta.raw_input is Some || vget(p, "rawInput"@) is Some;
                let raw = match meta.raw_input {
                    Some(x) => x,
                    None => match vget(p, "rawInput"@) {
                        Some(x) => x,
                        None => JsonView::Null,
                    },
                };
                match idx {
                    Some(i) => Ok(
                        MigState {
                            facts: s.facts.update(i, migrate_overlay(s.facts[i], meta, raw, raw_given)),
                            ..s
                        },
                    ),
                    None => {
                        let turn = match meta.turn_id {
                            Some(t) => Some(t),
                            None => s.current_turn,
                        };
                        match turn {
                            None => Err("tool call is missing a model message boundary"@),
                            Some(t) => Ok(
                                MigState {
                                    facts: s.facts.push(
                                        migrate_overlay(
                                            pending_view(t, id, meta.function_name->Some_0, raw),
                                            meta,
                                            raw,
                                            raw_given,
                                        ),
                                    ),
                                    ..s
                                },
                            ),
                        }
                    },
                }
            }
        },
    }
}

/// A commit closes the pending message and, unless nothing was said or
/// called, makes the text and calls seen since the next pending message.
pub open spec fn commit_mig(s: MigState, c: CommitView) -> MigState {
    let s1 = flush_pending(s);
    let s2 = MigState { open_text: Seq::empty(), open_model_message_id: None, ..s1 };
    if s1.open_text.len() == 0 && c.call_ids.len() == 0 {
        s2
    } else {
        MigState {
            pending: Some(
                PendingView {
                    model_message_id: s1.open_model_message_id,
                    text: s1.open_text,
                    call_ids: c.call_ids,
                    parts_hint: c.parts.len(),
                },
            ),
            ..s2
        }
    }
}

/// An update that carries a record.
pub open spec fn native_mig(s: MigState, p: JsonView, meta: NativeMetaView) -> Result<MigState, Seq<char>> {
    let s1 = push_chunk(s, p);
    let s2 = if meta.model_message_id is Some {
        MigState { open_model_message_id: meta.model_message_id, ..s1 }
    } else {
        s1
    };
    let r = if is_call_kind(vget_str(p, "sessionUpdate"@)) {
        tool_mig(s2, p, meta)
    } else {
        Ok(s2)
    };
    match r {
        Err(e) => Err(e),
        Ok(s3) => {
            let s4 = match meta.model_commit {
                Some(c) => commit_mig(s3, c),
                None => s3,
            };
            Ok(
                match meta.compact {
                    Some(c) => MigState { compact: Some(c), ..s4 },
                    None => s4,
                },
            )
        },
    }
}

pub open spec fn update_mig(s: MigState, p: JsonView) -> Result<MigState, Seq<char>> {
    match extract_spec(p) {
        Err(NativeMetaError::UnsupportedVersion(v)) => Err(
            "unsupported codeg_native metadata version "@ + decimal_seq(v as nat),
        ),
        Err(NativeMetaError::Malformed) => Err("malformed codeg_native metadata"@),
        Ok(None) => {
            let kind = vget_str(p, "sessionUpdate"@);
            if is_call_kind(kind) {
                Err("tool call is missing required codeg_native execution metadata"@)
            } else if kind == Some("agent_message_chunk"@) {
                Ok(push_chunk(s, p))
            } else {
                Ok(s)
            }
        },
        Ok(Some(meta)) => native_mig(s, p, meta),
    }
}

pub open spec fn step_mig(s: MigState, session_id: Seq<char>, e: (EntryKind, JsonView)) -> Result<
    MigState,
    Seq<char>,
> {
    match e.0 {
        EntryKind::Prompt => Ok(prompt_mig(s, session_id, e.1)),
        EntryKind::TurnEnd => Ok(close_all(s)),
        EntryKind::Update => update_mig(s, e.1),
    }
}

pub open spec fn run_mig(session_id: Seq<char>, es: Seq<(EntryKind, JsonView)>, n: nat) -> Result<
    MigState,
    Seq<char>,
>
    decreases n,
{
    if n == 0 {
        Ok(initial_mig())
    } else {
        match run_mig(session_id, es, (n - 1) as nat) {
            Err(e) => Err(e),
            Ok(s) => step_mig(s, session_id, es[n - 1]),
        }
    }
}

/// Ids of the facts no commit paired with a result, in the order they were
/// first recorded.
pub open spec fn unpaired_ids(facts: Seq<FactView>, emitted: Set<Seq<char>>) -> Seq<Seq<char>>
    decreases facts.len(),
{
    if facts.len() == 0 {
        Seq::empty()
    } else {
        let rest = unpaired_ids(facts.drop_last(), emitted);
        if emitted.contains(facts.last().tool_call_id) {
            rest
        } else {
            rest.push(facts.last().tool_call_id)
        }
    }
}

/// The end of a conversion: what is open is written out; unpaired facts make
/// the history incomplete; an old compaction record is reported as not
/// applied.
pub open spec fn finish_mig(s: MigState) -> MigState {
    let s1 = close_all(s);
    let unpaired = unpaired_ids(s1.facts, s1.emitted);
    let s2 = if unpaired.len() > 0 {
        warn(
            MigState { complete: false, ..s1 },
            "unpaired_tool_facts"@,
            "tool execution records were not paired with a model_commit call_id: "@ + joined(
                unpaired,
            ),
        )
    } else {
        s1
    };
    if s2.compact is Some {
        warn(
            s2,
            "compact_not_applied"@,
            "old CompactRecord through_turn could not be mapped to a legal message seq; keeping full recovered messages"@,
        )
    } else {
        s2
    }
}

pub open spec fn migrate_spec(session_id: Seq<char>, es: Seq<(EntryKind, JsonView)>) -> Result<
    MigState,
    Seq<char>,
> {
    match run_mig(session_id, es, es.len()) {
        Err(e) => Err(e),
        Ok(s) => Ok(finish_mig(s)),
    }
}

proof fn lemma_find_fact_prefix(facts: Seq<FactView>, id: Seq<char>, k: int)
    requires
        0 <= k <= facts.len(),
        find_fact(facts.take(k), id) is Some,
    ensures
        find_fact(facts, id) == find_fact(facts.take(k), id),
    decreases facts.len(),
{
    if k == facts.len() {
        assert(facts.take(k) =~= facts);
    } else {
        assert(facts.drop_last().take(k) =~= facts.take(k));
        lemma_find_fact_prefix(facts.drop_last(), id, k);
    }
}

proof fn lemma_find_fact_props(facts: Seq<FactView>, id: Seq<char>)
    ensures
        find_fact(facts, id) matches Some(i) ==> 0 <= i < facts.len() && facts[i].tool_call_id == id,
        find_fact(facts, id) is None ==> forall|i: int| 0 <= i < facts.len() ==> #[trigger] facts[i].tool_call_id != id,
    decreases facts.len(),
{
    if facts.len() > 0 {
        lemma_find_fact_props(facts.drop_last(), id);
        assert forall|i: int| 0 <= i < facts.len() - 1 implies facts.drop_last()[i] == #[trigger] facts[i] by {}
    }
}

/// Every tool call a commit writes out is answered by a result for the same
/// call and function, in the same order, and each committed call is either
/// answered or reported missing.
pub proof fn lemma_calls_and_results_pair(facts: Seq<FactView>, ids: Seq<Seq<char>>)
    ensures
        calls_of(facts, ids).len() == results_of(facts, ids).len(),
        calls_of(facts, ids).len() + missing_of(facts, ids).len() == ids.len(),
        forall|k: int|
            0 <= k < calls_of(facts, ids).len() ==> (#[trigger] calls_of(facts, ids)[k] matches PartView::ToolCall {
                id,
                name,
                ..
            } && id == results_of(facts, ids)[k].0 && name == results_of(facts, ids)[k].1),
    decreases ids.len(),
{
    if ids.len() > 0 {
        lemma_calls_and_results_pair(facts, ids.drop_last());
        let c = calls_of(facts, ids.drop_last());
        let r = results_of(facts, ids.drop_last());
        match find_fact(facts, ids.last()) {
            Some(i) => {
                assert forall|k: int| 0 <= k < calls_of(facts, ids).len() implies (#[trigger] calls_of(facts, ids)[k] matches PartView::ToolCall {
                    id,
                    name,
                    ..
                } && id == results_of(facts, ids)[k].0 && name == results_of(facts, ids)[k].1) by {
                    if k < c.len() {
                        assert(calls_of(facts, ids)[k] == c[k]);
                        assert(results_of(facts, ids)[k] == r[k]);
                    }
                }
            },
            None => {},
        }
    }
}

/// The batch id of a commit plays no part: batch ids of old transcripts
/// collide, so they are never used as keys.
pub proof fn lemma_batch_id_is_not_a_key(s: MigState, c: CommitView, other_batch: Seq<char>)
    ensures
        commit_mig(s, c) == commit_mig(s, CommitView { batch_id: other_batch, ..c }),
{
}

// ----- the conversion -----

struct PendingAssistant {
    model_message_id: Option<String>,
    text: String,
    call_ids: Vec<String>,
    parts_hint: usize,
}

/// A conversion in progress.
struct Migrator {
    messages: Vec<ChatMessage>,
    warnings: Vec<MigrateWarning>,
    complete: bool,
    open_text: String,
    open_model_message_id: Option<String>,
    facts: Vec<ExecutionFact>,
    pending: Option<PendingAssistant>,
    compact: Option<CompactRecord>,
    prompts: u64,
    current_turn: Option<String>,
    emitted: Vec<String>,
}

pub open spec fn text_views(v: Seq<String>) -> Seq<Seq<char>> {
    v.map_values(|s: String| s@)
}

pub open spec fn text_set(v: Seq<String>) -> Set<Seq<char>> {
    Set::new(|x: Seq<char>| exists|i: int| 0 <= i < v.len() && #[trigger] v[i]@ == x)
}

pub open spec fn fact_views(v: Seq<ExecutionFact>) -> Seq<FactView> {
    v.map_values(|f: ExecutionFact| fact_view(f))
}

impl Migrator {
    spec fn state(&self) -> MigState {
        MigState {
            messages: chat_views(self.messages@),
            warnings: warning_views(self.warnings@),
            complete: self.complete,
            open_text: self.open_text@,
            open_model_message_id: opt_text(self.open_model_message_id),
            facts: fact_views(self.facts@),
            pending: match self.pending {
                Some(p) => Some(
                    PendingView {
                        model_message_id: opt_text(p.model_message_id),
                        text: p.text@,
                        call_ids: text_views(p.call_ids@),
                        parts_hint: p.parts_hint as nat,
                    },
                ),
                None => None,
            },
            compact: match self.compact {
                Some(c) => Some(c@),
                None => None,
            },
            prompts: self.prompts as nat,
            current_turn: opt_text(self.current_turn),
            emitted: text_set(self.emitted@),
        }
    }

    fn warn(&mut self, code: &'static str, message: String)
        ensures
            final(self).state() == warn(old(self).state(), code@, message@),
            final(self).prompts == old(self).prompts,
    {
        let ghost ws = warning_views(self.warnings@);
        let mut i: usize = 0;
        while i < self.warnings.len()
            invariant
                i <= self.warnings.len(),
                ws == warning_views(self.warnings@),
                forall|k: int| 0 <= k < i ==> ws[k].0 != code@,
            decreases self.warnings.len() - i,
        {
            if str_eq(self.warnings[i].code, code) {
                assert(ws[i as int].0 == code@);
                return;
            }
            i = i + 1;
        }
        let ghost before = self.state();
        self.warnings.push(MigrateWarning { code, message });
        proof {
            assert(warning_views(self.warnings@) =~= ws.push((code@, message@)));
            assert(self.state() == MigState { warnings: ws.push((code@, message@)), ..before });
        }
    }

    /// Writes out the pending assistant message; see [`flush_pending`].
    fn flush_pending(&mut self)
        ensures
            final(self).state() == flush_pending(old(self).state()),
            final(self).prompts == old(self).prompts,
    {
        let ghost s = self.state();
        let pending = match self.pending.take() {
            Some(p) => p,
            None => {
                return;
            },
        };
        let PendingAssistant { model_message_id, text, call_ids, parts_hint } = pending;
        let ghost pv = PendingView {
            model_message_id: opt_text(model_message_id),
            text: text@,
            call_ids: text_views(call_ids@),
            parts_hint: parts_hint as nat,
        };
        assert(s.pending == Some(pv));
        settle_calls(&mut self.facts, &call_ids);
        let ghost facts = settle_ids(s.facts, pv.call_ids);
        let mut content: Vec<AssistantPart> = Vec::new();
        let ghost tv = text@;
        if !text.as_str().is_empty() {
            content.push(AssistantPart::Text(text));
            proof {
                assert(part_views(content@) =~= seq![PartView::Text(tv)]);
            }
        } else {
            proof {
                assert(part_views(content@) =~= Seq::<PartView>::empty());
            }
        }
        let ghost text_part = part_views(content@);
        let (results, missing) = pair_calls(&self.facts, &call_ids, &mut content, &mut self.emitted);
        let ghost s1 = MigState {
            pending: None,
            facts,
            emitted: s.emitted.union(paired_ids(facts, pv.call_ids)),
            ..s
        };
        assert(self.state() == s1);
        let ghost cv = part_views(content@);
        assert(cv == text_part + calls_of(facts, pv.call_ids));
        if missing.len() > 0 {
            self.complete = false;
            let mut m = "model commit call_ids had no recoverable native execution metadata: ".to_owned();
            let list = join_ids(&missing);
            push_str(&mut m, list.as_str());
            self.warn("incomplete_tool_chain", m);
        }
        let ghost s2 = self.state();
        if call_ids.len() > 0 {
            self.warn(
                "missing_provider_ids",
                "old JSONL has no provider dual-ids or reasoning; not fabricated".to_owned(),
            );
        }
        if parts_hint > 0 && content.len() < parts_hint {
            self.warn(
                "missing_assistant_parts",
                "old JSONL assistant parts are incomplete; missing text or reasoning was not fabricated".to_owned(),
            );
        }
        if content.len() > 0 {
            let msg = ChatMessage::Assistant { id: model_message_id, parts: content };
            let ghost before = self.messages@;
            self.messages.push(msg);
            proof {
                assert(chat_views(self.messages@) =~= chat_views(before).push(
                    ChatView::Assistant { id: pv.model_message_id, parts: cv },
                ));
            }
        }
        if results.len() > 0 {
            let ghost rv = result_views(results@);
            let ghost before = self.messages@;
            self.messages.push(ChatMessage::ToolResults { results });
            proof {
                assert(chat_views(self.messages@) =~= chat_views(before).push(ChatView::ToolResults(rv)));
            }
        }
    }

    /// A tool call or update with its record; see [`tool_mig`].
    fn apply_tool(&mut self, payload: &JsonValue, meta: &NativeMeta, session_id: &str) -> (r: Result<(), HydrateError>)
        ensures
            match tool_mig(old(self).state(), jview(*payload), meta@) {
                Ok(s) => r is Ok && final(self).state() == s,
                Err(m) => r matches Err(e) && load_failed(e, session_id@, m),
            },
            final(self).prompts == old(self).prompts,
    {
        let ghost s = self.state();
        let tool_call_id: String = match &meta.tool_call_id {
            Some(t) => t.clone(),
            None => match tool_call_id_of(payload) {
                Some(t) => t.clone(),
                None => {
                    return Err(unavailable(session_id, "tool call missing id"));
                },
            },
        };
        let idx = find_fact_index(&self.facts, tool_call_id.as_str());
        if meta.function_name.is_none() && idx.is_none() {
            if meta.model_commit.is_some() {
                return Ok(());
            }
            return Err(unavailable(session_id, "tool call missing function_name; refusing to infer from title"));
        }
        let given = payload.get("rawInput");
        let raw_given = meta.raw_input.is_some() || given.is_some();
        let raw: JsonValue = match &meta.raw_input {
            Some(x) => x.deep_copy(),
            None => match given {
                Some(x) => x.deep_copy(),
                None => JsonValue::Null,
            },
        };
        match idx {
            Some(i) => {
                let ghost before = self.facts@;
                let f = overlay_record(copy_fact(&self.facts[i]), meta, raw, raw_given);
                self.facts.set(i, f);
                proof {
                    assert(fact_views(self.facts@) =~= fact_views(before).update(i as int, fact_view(f)));
                }
            },
            None => {
                let name = match &meta.function_name {
                    Some(n) => n.clone(),
                    None => {
                        return Err(unavailable(session_id, "tool call missing function_name; refusing to infer from title"));
                    },
                };
                let turn = match &meta.turn_id {
                    Some(t) => t.clone(),
                    None => match &self.current_turn {
                        Some(t) => t.clone(),
                        None => {
                            return Err(unavailable(session_id, "tool call is missing a model message boundary"));
                        },
                    },
                };
                let base = ExecutionFact::pending(turn, tool_call_id, name, raw.deep_copy());
                let f = overlay_record(base, meta, raw, raw_given);
                let ghost before = self.facts@;
                self.facts.push(f);
                proof {
                    assert(fact_views(self.facts@) =~= fact_views(before).push(fact_view(f)));
                }
            },
        }
        Ok(())
    }

    /// A model commit; see [`commit_mig`].
    fn apply_commit(&mut self, commit: &ModelCommit)
        ensures
            final(self).state() == commit_mig(old(self).state(), commit@),
            final(self).prompts == old(self).prompts,
    {
        self.flush_pending();
        let ghost s1 = self.state();
        let mut text = String::new();
        std::mem::swap(&mut text, &mut self.open_text);
        let model_message_id = self.open_model_message_id.take();
        proof {
            assert(self.state() == MigState { open_text: Seq::empty(), open_model_message_id: None, ..s1 });
        }
        if text.as_str().is_empty() && commit.call_ids.len() == 0 {
            return;
        }
        let call_ids = copy_texts(&commit.call_ids);
        self.pending = Some(
            PendingAssistant { model_message_id, text, call_ids, parts_hint: commit.parts.len() },
        );
    }

    /// A prompt; see [`prompt_mig`].
    fn prompt(&mut self, payload: &JsonValue, session_id: &str)
        requires
            old(self).prompts < u64::MAX,
        ensures
            final(self).state() == prompt_mig(old(self).state(), session_id@, jview(*payload)),
            final(self).prompts == old(self).prompts + 1,
    {
        self.flush_pending();
        self.flush_text();
        self.prompts = self.prompts + 1;
        let mut turn = session_id.to_owned();
        push_str(&mut turn, ":");
        push_decimal(&mut turn, self.prompts);
        let text = prompt_text(payload);
        if !text.as_str().is_empty() {
            let ghost before = self.messages@;
            let ghost tv = text@;
            self.messages.push(ChatMessage::User { text });
            proof {
                assert(chat_views(self.messages@) =~= chat_views(before).push(ChatView::User(tv)));
            }
        }
        self.current_turn = Some(turn);
    }

    /// Text of a message chunk.
    fn push_chunk(&mut self, payload: &JsonValue)
        ensures
            final(self).state() == push_chunk(old(self).state(), jview(*payload)),
            final(self).prompts == old(self).prompts,
    {
        match chunk_text(payload) {
            Some(t) => {
                push_str(&mut self.open_text, t.as_str());
            },
            None => {},
        }
    }

    /// An update that carries a record; see [`native_mig`].
    fn apply_native_update(&mut self, payload: &JsonValue, meta: NativeMeta, session_id: &str) -> (r: Result<(), HydrateError>)
        ensures
            match native_mig(old(self).state(), jview(*payload), meta@) {
                Ok(s) => r is Ok && final(self).state() == s,
                Err(m) => r matches Err(e) && load_failed(e, session_id@, m),
            },
            final(self).prompts == old(self).prompts,
    {
        self.push_chunk(payload);
        if meta.model_message_id.is_some() {
            self.open_model_message_id = meta.model_message_id.clone();
        }
        let is_call = match payload.get_str("sessionUpdate") {
            Some(k) => str_eq(k.as_str(), "tool_call") || str_eq(k.as_str(), "tool_call_update"),
            None => false,
        };
        if is_call {
            match self.apply_tool(payload, &meta, session_id) {
                Ok(()) => {},
                Err(e) => {
                    return Err(e);
                },
            }
        }
        match &meta.model_commit {
            Some(c) => self.apply_commit(c),
            None => {},
        }
        match &meta.compact {
            Some(c) => {
                self.compact = Some(copy_compact(c));
            },
            None => {},
        }
        Ok(())
    }

    /// The end of a conversion; see [`finish_mig`].
    fn finish(&mut self)
        ensures
            final(self).state() == finish_mig(old(self).state()),
    {
        self.flush_pending();
        self.flush_text();
        let ghost s1 = self.state();
        let ghost fv = s1.facts;
        let mut unpaired: Vec<String> = Vec::new();
        let mut i: usize = 0;
        while i < self.facts.len()
            invariant
                i <= self.facts.len(),
                self.state() == s1,
                fv == fact_views(self.facts@),
                text_views(unpaired@) == unpaired_ids(fv.take(i as int), s1.emitted),
            decreases self.facts.len() - i,
        {
            let ghost t = fv.take(i + 1);
            assert(t.drop_last() =~= fv.take(i as int));
            assert(t.last() == fact_view(self.facts@[i as int]));
            let id = &self.facts[i].tool_call_id;
            if !contains_text(&self.emitted, id.as_str()) {
                let ghost before = unpaired@;
                unpaired.push(id.clone());
                proof {
                    assert(text_views(unpaired@) =~= text_views(before).push(id@));
                }
            }
            i = i + 1;
        }
        assert(fv.take(i as int) =~= fv);
        if unpaired.len() > 0 {
            self.complete = false;
            let mut m = "tool execution records were not paired with a model_commit call_id: ".to_owned();
            let list = join_ids(&unpaired);
            push_str(&mut m, list.as_str());
            self.warn("unpaired_tool_facts", m);
        }
        if self.compact.is_some() {
            self.warn(
                "compact_not_applied",
                "old CompactRecord through_turn could not be mapped to a legal message seq; keeping full recovered messages".to_owned(),
            );
        }
    }

    /// Assistant text with no commit becomes a text message; see [`flush_text`].
    fn flush_text(&mut self)
        ensures
            final(self).state() == flush_text(old(self).state()),
            final(self).prompts == old(self).prompts,
    {
        if self.open_text.as_str().is_empty() {
            return;
        }
        let ghost before = self.state();
        let mut text = String::new();
        std::mem::swap(&mut text, &mut self.open_text);
        let id = self.open_model_message_id.take();
        let ghost tv = text@;
        let mut parts: Vec<AssistantPart> = Vec::new();
        parts.push(AssistantPart::Text(text));
        let msg = ChatMessage::Assistant { id, parts };
        let ghost mv = chat_view(msg);
        self.messages.push(msg);
        proof {
            assert(tv.len() > 0) by {
                assert(before.open_text == tv);
            }
            assert(part_views(seq![AssistantPart::Text(text)]) =~= seq![PartView::Text(tv)]) by {
                assert(part_views(seq![AssistantPart::Text(text)])[0] == PartView::Text(tv));
            }
            assert(chat_views(self.messages@) =~= before.messages.push(mv));
            assert(self.state() == MigState {
                messages: before.messages.push(
                    ChatView::Assistant { id: before.open_model_message_id, parts: seq![PartView::Text(before.open_text)] },
                ),
                open_text: Seq::empty(),
                open_model_message_id: None,
                ..before
            });
            reveal_strlit("");
        }
        self.warn(
            "uncommitted_assistant_text",
            "assistant text had no model_commit boundary; recovered as a text message".to_owned(),
        );
    }
}

fn find_fact_index(facts: &Vec<ExecutionFact>, id: &str) -> (r: Option<usize>)
    ensures
        match (r, find_fact(fact_views(facts@), id@)) {
            (Some(a), Some(b)) => a == b,
            (None, None) => true,
            _ => false,
        },
        r matches Some(a) ==> a < facts.len(),
{
    let ghost fv = fact_views(facts@);
    let mut i: usize = 0;
    while i < facts.len()
        invariant
            i <= facts.len(),
            fv == fact_views(facts@),
            find_fact(fv.take(i as int), id@) is None,
        decreases facts.len() - i,
    {
        assert(fv.take(i + 1).drop_last() =~= fv.take(i as int));
        if str_eq(facts[i].tool_call_id.as_str(), id) {
            proof {
                assert(fv.take(i + 1).last() == fv[i as int]);
                assert(find_fact(fv.take(i + 1), id@) == Some(i as int));
                lemma_find_fact_prefix(fv, id@, i + 1);
            }
            return Some(i);
        }
        i = i + 1;
    }
    assert(fv.take(i as int) =~= fv);
    None
}

fn join_ids(ids: &Vec<String>) -> (r: String)
    ensures
        r@ == joined(text_views(ids@)),
{
    let ghost v = text_views(ids@);
    let mut out = String::new();
    let mut i: usize = 0;
    while i < ids.len()
        invariant
            i <= ids.len(),
            v == text_views(ids@),
            out@ == joined(v.take(i as int)),
        decreases ids.len() - i,
    {
        let ghost before = out@;
        if i > 0 {
            push_str(&mut out, ", ");
        }
        push_str(&mut out, ids[i].as_str());
        proof {
            let t = v.take(i + 1);
            assert(t.drop_last() =~= v.take(i as int));
            if i == 0 {
                reveal_strlit("");
                assert(before =~= Seq::<char>::empty());
                assert(out@ =~= t[0]);
            }
        }
        i = i + 1;
    }
    assert(v.take(i as int) =~= v);
    out
}

/// Settles the facts of a commit's calls; see [`settle_ids`].
fn settle_calls(facts: &mut Vec<ExecutionFact>, ids: &Vec<String>)
    ensures
        fact_views(final(facts)@) == settle_ids(fact_views(old(facts)@), text_views(ids@)),
{
    let ghost f0 = fact_views(facts@);
    let ghost iv = text_views(ids@);
    let mut j: usize = 0;
    while j < ids.len()
        invariant
            j <= ids.len(),
            iv == text_views(ids@),
            fact_views(facts@) == settle_ids(f0, iv.take(j as int)),
        decreases ids.len() - j,
    {
        let ghost t = iv.take(j + 1);
        assert(t.drop_last() =~= iv.take(j as int));
        assert(t.last() == ids@[j as int]@);
        match find_fact_index(facts, ids[j].as_str()) {
            Some(i) => {
                let ghost before = facts@;
                let f = finalize_fact(copy_fact(&facts[i]));
                facts.set(i, f);
                proof {
                    assert(fact_views(facts@) =~= fact_views(before).update(i as int, fact_view(f)));
                }
            },
            None => {},
        }
        j = j + 1;
    }
    assert(iv.take(j as int) =~= iv);
}

/// Pairs a commit's calls with their facts: appends the call parts to
/// `content`, records the paired ids, and hands back the results and the
/// ids without facts.
fn pair_calls(
    facts: &Vec<ExecutionFact>,
    ids: &Vec<String>,
    content: &mut Vec<AssistantPart>,
    emitted: &mut Vec<String>,
) -> (r: (Vec<ToolResultText>, Vec<String>))
    ensures
        part_views(final(content)@) == part_views(old(content)@) + calls_of(fact_views(facts@), text_views(ids@)),
        result_views(r.0@) == results_of(fact_views(facts@), text_views(ids@)),
        text_views(r.1@) == missing_of(fact_views(facts@), text_views(ids@)),
        text_set(final(emitted)@) == text_set(old(emitted)@).union(paired_ids(fact_views(facts@), text_views(ids@))),
{
    let ghost fv = fact_views(facts@);
    let ghost iv = text_views(ids@);
    let ghost c0 = part_views(content@);
    let ghost e0 = text_set(emitted@);
    let mut results: Vec<ToolResultText> = Vec::new();
    let mut missing: Vec<String> = Vec::new();
    let mut j: usize = 0;
    proof {
        assert(iv.take(0) =~= Seq::<Seq<char>>::empty());
        assert(part_views(content@) =~= c0 + calls_of(fv, iv.take(0)));
        assert(text_set(emitted@) =~= e0.union(paired_ids(fv, iv.take(0))));
    }
    while j < ids.len()
        invariant
            j <= ids.len(),
            fv == fact_views(facts@),
            iv == text_views(ids@),
            part_views(content@) == c0 + calls_of(fv, iv.take(j as int)),
            result_views(results@) == results_of(fv, iv.take(j as int)),
            text_views(missing@) == missing_of(fv, iv.take(j as int)),
            text_set(emitted@) == e0.union(paired_ids(fv, iv.take(j as int))),
        decreases ids.len() - j,
    {
        let ghost t = iv.take(j + 1);
        assert(t.drop_last() =~= iv.take(j as int));
        assert(t.last() == ids@[j as int]@);
        let ghost pc = content@;
        let ghost pr = results@;
        let ghost pm = missing@;
        let ghost pe = emitted@;
        let id = &ids[j];
        match find_fact_index(facts, id.as_str()) {
            Some(i) => {
                let fact = &facts[i];
                assert(fv[i as int] == fact_view(*fact));
                content.push(
                    AssistantPart::ToolCall {
                        id: id.clone(),
                        name: fact.function_name.clone(),
                        args: fact.raw_input.deep_copy(),
                    },
                );
                results.push(
                    ToolResultText {
                        id: id.clone(),
                        name: fact.function_name.clone(),
                        body: fact.outcome_feedback(),
                    },
                );
                emitted.push(id.clone());
                proof {
                    assert(part_views(content@) =~= part_views(pc).push(
                        PartView::ToolCall { id: id@, name: fv[i as int].function_name, args: fv[i as int].raw_input },
                    ));
                    assert(result_views(results@) =~= result_views(pr).push(
                        (id@, fv[i as int].function_name, feedback_view(fv[i as int])),
                    ));
                    assert(text_set(emitted@) =~= text_set(pe).insert(id@)) by {
                        assert forall|x: Seq<char>| text_set(emitted@).contains(x) implies text_set(pe).insert(id@).contains(x) by {
                            let k = choose|k: int| 0 <= k < emitted@.len() && #[trigger] emitted@[k]@ == x;
                            if k < pe.len() {
                                assert(pe[k]@ == x);
                            }
                        }
                        assert forall|x: Seq<char>| text_set(pe).insert(id@).contains(x) implies text_set(emitted@).contains(x) by {
                            if x == id@ {
                                assert(emitted@[pe.len() as int]@ == x);
                            } else {
                                let k = choose|k: int| 0 <= k < pe.len() && #[trigger] pe[k]@ == x;
                                assert(emitted@[k]@ == x);
                            }
                        }
                    }
                    assert(paired_ids(fv, t) =~= paired_ids(fv, iv.take(j as int)).insert(id@)) by {
                        assert forall|x: Seq<char>| paired_ids(fv, t).contains(x) implies paired_ids(fv, iv.take(j as int)).insert(id@).contains(x) by {
                            if x != id@ {
                                let k = choose|k: int| 0 <= k < t.len() && t[k] == x;
                                assert(iv.take(j as int)[k] == x);
                            }
                        }
                        assert forall|x: Seq<char>| paired_ids(fv, iv.take(j as int)).insert(id@).contains(x) implies paired_ids(fv, t).contains(x) by {
                            if x == id@ {
                                assert(t[j as int] == x);
                            } else {
                                let k = choose|k: int| 0 <= k < iv.take(j as int).len() && iv.take(j as int)[k] == x;
                                assert(t[k] == x);
                            }
                        }
                    }
                    assert(e0.union(paired_ids(fv, t)) =~= e0.union(paired_ids(fv, iv.take(j as int))).insert(id@));
                    assert(c0 + calls_of(fv, t) =~= (c0 + calls_of(fv, iv.take(j as int))).push(
                        PartView::ToolCall { id: id@, name: fv[i as int].function_name, args: fv[i as int].raw_input },
                    ));
                }
            },
            None => {
                missing.push(id.clone());
                proof {
                    assert(text_views(missing@) =~= text_views(pm).push(id@));
                    assert(paired_ids(fv, t) =~= paired_ids(fv, iv.take(j as int))) by {
                        assert forall|x: Seq<char>| paired_ids(fv, t).contains(x) implies paired_ids(fv, iv.take(j as int)).contains(x) by {
                            let k = choose|k: int| 0 <= k < t.len() && t[k] == x;
                            if k == j {
                                assert(x == id@);
                            } else {
                                assert(iv.take(j as int)[k] == x);
                            }
                        }
                        assert forall|x: Seq<char>| paired_ids(fv, iv.take(j as int)).contains(x) implies paired_ids(fv, t).contains(x) by {
                            let k = choose|k: int| 0 <= k < iv.take(j as int).len() && iv.take(j as int)[k] == x;
                            assert(t[k] == x);
                        }
                    }
                    assert(c0 + calls_of(fv, t) =~= c0 + calls_of(fv, iv.take(j as int)));
                }
            },
        }
        j = j + 1;
    }
    assert(iv.take(j as int) =~= iv);
    (results, missing)
}

/// A fact with what a record says; see [`migrate_overlay`].
fn overlay_record(fact: ExecutionFact, meta: &NativeMeta, raw: JsonValue, raw_given: bool) -> (r: ExecutionFact)
    ensures
        fact_view(r) == migrate_overlay(fact_view(fact), meta@, jview(raw), raw_given),
{
    let mut fact = fact;
    match &meta.function_name {
        Some(n) => {
            fact.function_name = n.clone();
        },
        None => {},
    }
    if raw_given {
        fact.raw_input = raw;
    }
    match meta.phase {
        Some(ph) => {
            fact.phase = ph;
        },
        None => {},
    }
    if meta.outcome.is_some() {
        fact.outcome = meta.outcome;
    }
    if meta.executed.is_some() {
        fact.executed = meta.executed;
    }
    if meta.model_presentation.is_some() {
        fact.model_presentation = meta.model_presentation.clone();
    }
    match &meta.reason {
        Some(reason) => {
            fact.reason = Some(reason.clone());
        },
        None => {},
    }
    match meta.truncated {
        Some(true) => {
            fact.truncated = true;
        },
        _ => {},
    }
    match &meta.output_locator {
        Some(l) => {
            fact.output_locator = Some(OutputLocator { path: l.path.clone(), line: l.line });
        },
        None => {},
    }
    fact
}

fn copy_texts(v: &Vec<String>) -> (r: Vec<String>)
    ensures
        text_views(r@) == text_views(v@),
{
    let mut out: Vec<String> = Vec::new();
    let mut i: usize = 0;
    while i < v.len()
        invariant
            i <= v.len(),
            out.len() == i,
            text_views(out@) == text_views(v@.take(i as int)),
        decreases v.len() - i,
    {
        let ghost before = out@;
        out.push(v[i].clone());
        proof {
            assert forall|k: int| 0 <= k < i + 1 implies #[trigger] text_views(out@)[k] == text_views(v@.take(i + 1))[k] by {
                if k < i {
                    assert(out@[k] == before[k]);
                    assert(text_views(before)[k] == text_views(v@.take(i as int))[k]);
                }
            }
            assert(text_views(out@) =~= text_views(v@.take(i + 1)));
        }
        i = i + 1;
    }
    assert(v@.take(i as int) =~= v@);
    out
}

fn contains_text(v: &Vec<String>, x: &str) -> (r: bool)
    ensures
        r == text_set(v@).contains(x@),
{
    let mut i: usize = 0;
    while i < v.len()
        invariant
            i <= v.len(),
            forall|k: int| 0 <= k < i ==> v@[k]@ != x@,
        decreases v.len() - i,
    {
        if str_eq(v[i].as_str(), x) {
            assert(v@[i as int]@ == x@);
            return true;
        }
        i = i + 1;
    }
    false
}

/// Once a conversion fails it stays failed.
proof fn lemma_run_mig_err(session_id: Seq<char>, es: Seq<(EntryKind, JsonView)>, n: nat, m: nat)
    requires
        n <= m,
        run_mig(session_id, es, n) is Err,
    ensures
        run_mig(session_id, es, m) == run_mig(session_id, es, n),
    decreases m - n,
{
    if n < m {
        lemma_run_mig_err(session_id, es, n, (m - 1) as nat);
    }
}

/// Converts an ACP-native transcript into the history a model request
/// replays; see [`migrate_spec`]. A line that cannot be read fails the whole
/// conversion.
pub fn migrate_transcript_entries(session_id: &str, entries: &Vec<TranscriptEntry>) -> (r: Result<
    MigratedMessages,
    HydrateError,
>)
    ensures
        match migrate_spec(session_id@, entry_views(entries@)) {
            Ok(s) => r matches Ok(m) && chat_views(m.messages@) == s.messages && warning_views(
                m.warnings@,
            ) == s.warnings && m.complete == s.complete,
            Err(msg) => r matches Err(e) && load_failed(e, session_id@, msg),
        },
{
    let mut g = Migrator {
        messages: Vec::new(),
        warnings: Vec::new(),
        complete: true,
        open_text: String::new(),
        open_model_message_id: None,
        facts: Vec::new(),
        pending: None,
        compact: None,
        prompts: 0,
        current_turn: None,
        emitted: Vec::new(),
    };
    let ghost es = entry_views(entries@);
    proof {
        reveal_strlit("");
        assert(chat_views(g.messages@) =~= Seq::<ChatView>::empty());
        assert(warning_views(g.warnings@) =~= Seq::<(Seq<char>, Seq<char>)>::empty());
        assert(fact_views(g.facts@) =~= Seq::<FactView>::empty());
        assert(text_set(g.emitted@) =~= Set::<Seq<char>>::empty());
        assert(g.state() == initial_mig());
    }
    let mut i: usize = 0;
    while i < entries.len()
        invariant
            i <= entries.len(),
            es == entry_views(entries@),
            es.len() == entries.len(),
            run_mig(session_id@, es, i as nat) == Ok::<MigState, Seq<char>>(g.state()),
            g.prompts <= i,
        decreases entries.len() - i,
    {
        let e = &entries[i];
        assert(es[i as int] == (e.k, jview(e.p)));
        match e.k {
            EntryKind::Prompt => {
                g.prompt(&e.p, session_id);
            },
            EntryKind::TurnEnd => {
                g.flush_pending();
                g.flush_text();
            },
            EntryKind::Update => {
                match extract_native_meta(&e.p) {
                    Err(NativeMetaError::UnsupportedVersion(v)) => {
                        let mut m = "unsupported codeg_native metadata version ".to_owned();
                        push_decimal(&mut m, v as u64);
                        proof {
                            lemma_run_mig_err(session_id@, es, (i + 1) as nat, es.len());
                        }
                        return Err(HydrateError::failed(session_id.to_owned(), "session_unavailable", m));
                    },
                    Err(NativeMetaError::Malformed) => {
                        proof {
                            lemma_run_mig_err(session_id@, es, (i + 1) as nat, es.len());
                        }
                        return Err(unavailable(session_id, "malformed codeg_native metadata"));
                    },
                    Ok(None) => {
                        match e.p.get_str("sessionUpdate") {
                            Some(k) => {
                                if str_eq(k.as_str(), "tool_call") || str_eq(k.as_str(), "tool_call_update") {
                                    proof {
                                        lemma_run_mig_err(session_id@, es, (i + 1) as nat, es.len());
                                    }
                                    return Err(
                                        unavailable(
                                            session_id,
                                            "tool call is missing required codeg_native execution metadata",
                                        ),
                                    );
                                }
                                if str_eq(k.as_str(), "agent_message_chunk") {
                                    g.push_chunk(&e.p);
                                }
                            },
                            None => {},
                        }
                    },
                    Ok(Some(meta)) => {
                        match g.apply_native_update(&e.p, meta, session_id) {
                            Ok(()) => {},
                            Err(err) => {
                                proof {
                                    lemma_run_mig_err(session_id@, es, (i + 1) as nat, es.len());
                                }
                                return Err(err);
                            },
                        }
                    },
                }
            },
        }
        i = i + 1;
    }
    g.finish();
    Ok(MigratedMessages { messages: g.messages, warnings: g.warnings, complete: g.complete })
}

} // verus!
