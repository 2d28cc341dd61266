//! Canonical facts of a session: user turns, committed assistant records and
//! one execution fact per tool call.

use vstd::prelude::*;

use crate::context::transcript::{
    empty_meta, ostr, CompactRecord, CompactView, LocatorView, NativeMeta, NativeMetaView,
    OutputLocator, ToolOutcome, ToolPhase,
};
use crate::json::{jview, JsonValue, JsonView};
use crate::strmap::StrMap;
use crate::text::{decimal_seq, push_decimal, push_str};

verus! {

/// What is known of one tool call.
pub struct ExecutionFact {
    pub tool_call_id: String,
    pub function_name: String,
    pub raw_input: JsonValue,
    pub phase: ToolPhase,
    pub outcome: Option<ToolOutcome>,
    pub executed: Option<bool>,
    pub model_presentation: Option<String>,
    pub truncated: bool,
    pub output_locator: Option<OutputLocator>,
    pub reason: Option<String>,
    pub turn_id: String,
}

impl View for ExecutionFact {
    type V = ExecutionFact;

    open spec fn view(&self) -> ExecutionFact {
        *self
    }
}

pub open spec fn tool_text(name: Seq<char>, tail: Seq<char>) -> Seq<char> {
    "tool `"@ + name + "`"@ + tail
}

/// A fact as a mathematical value.
pub struct FactView {
    pub tool_call_id: Seq<char>,
    pub function_name: Seq<char>,
    pub raw_input: JsonView,
    pub phase: ToolPhase,
    pub outcome: Option<ToolOutcome>,
    pub executed: Option<bool>,
    pub model_presentation: Option<Seq<char>>,
    pub truncated: bool,
    pub output_locator: Option<LocatorView>,
    pub reason: Option<Seq<char>>,
    pub turn_id: Seq<char>,
}

pub open spec fn fact_view(f: ExecutionFact) -> FactView {
    FactView {
        tool_call_id: f.tool_call_id@,
        function_name: f.function_name@,
        raw_input: jview(f.raw_input),
        phase: f.phase,
        outcome: f.outcome,
        executed: f.executed,
        model_presentation: ostr(f.model_presentation),
        truncated: f.truncated,
        output_locator: match f.output_locator {
            Some(l) => Some(l@),
            None => None,
        },
        reason: ostr(f.reason),
        turn_id: f.turn_id@,
    }
}

/// What the model is told about a call's result.
pub open spec fn feedback_view(f: FactView) -> Seq<char> {
    let name = f.function_name;
    match f.outcome {
        Some(ToolOutcome::Success) => match f.model_presentation {
            Some(p) => p,
            None => "ok"@,
        },
        Some(ToolOutcome::Rejected) => tool_text(name, " was rejected and was not executed"@),
        Some(ToolOutcome::Cancelled) => tool_text(name, " was cancelled before execution"@),
        Some(ToolOutcome::Unknown) => tool_text(
            name,
            " started but completion could not be confirmed; not replayed"@,
        ),
        Some(ToolOutcome::Timeout) => tool_text(name, " timed out"@),
        Some(ToolOutcome::Error) => match f.reason {
            Some(r) => r,
            None => tool_text(name, " failed"@),
        },
        None => tool_text(name, " has no terminal result"@),
    }
}

/// [`feedback_view`] of a fact.
pub open spec fn feedback_spec(f: ExecutionFact) -> Seq<char> {
    feedback_view(fact_view(f))
}

fn tool_message(name: &str, tail: &str) -> (r: String)
    ensures
        r@ == tool_text(name@, tail@),
{
    let mut s = String::new();
    push_str(&mut s, "tool `");
    push_str(&mut s, name);
    push_str(&mut s, "`");
    push_str(&mut s, tail);
    proof {
        reveal_strlit("");
    }
    s
}

impl ExecutionFact {
    /// A call announced but not started.
    pub fn pending(
        turn_id: String,
        tool_call_id: String,
        function_name: String,
        raw_input: JsonValue,
    ) -> (r: Self)
        ensures
            r == (ExecutionFact {
                tool_call_id,
                function_name,
                raw_input,
                phase: ToolPhase::Pending,
                outcome: None,
                executed: Some(false),
                model_presentation: None,
                truncated: false,
                output_locator: None,
                reason: None,
                turn_id,
            }),
    {
        ExecutionFact {
            tool_call_id,
            function_name,
            raw_input,
            phase: ToolPhase::Pending,
            outcome: None,
            executed: Some(false),
            model_presentation: None,
            truncated: false,
            output_locator: None,
            reason: None,
            turn_id,
        }
    }

    pub fn outcome_feedback(&self) -> (r: String)
        ensures
            r@ == feedback_spec(*self),
    {
        let name = self.function_name.as_str();
        match self.outcome {
            Some(ToolOutcome::Success) => match &self.model_presentation {
                Some(p) => p.clone(),
                None => "ok".to_owned(),
            },
            Some(ToolOutcome::Rejected) => tool_message(name, " was rejected and was not executed"),
            Some(ToolOutcome::Cancelled) => tool_message(name, " was cancelled before execution"),
            Some(ToolOutcome::Unknown) => tool_message(
                name,
                " started but completion could not be confirmed; not replayed",
            ),
            Some(ToolOutcome::Timeout) => tool_message(name, " timed out"),
            Some(ToolOutcome::Error) => match &self.reason {
                Some(r) => r.clone(),
                None => tool_message(name, " failed"),
            },
            None => tool_message(name, " has no terminal result"),
        }
    }

    /// The `codeg_native` record of this fact.
    pub fn native_meta(&self) -> (r: NativeMeta)
        ensures
            r@ == fact_meta(fact_view(*self)),
    {
        let mut meta = NativeMeta::v1();
        meta.turn_id = Some(self.turn_id.clone());
        meta.tool_call_id = Some(self.tool_call_id.clone());
        meta.function_name = Some(self.function_name.clone());
        meta.raw_input = Some(self.raw_input.deep_copy());
        meta.phase = Some(self.phase);
        meta.outcome = self.outcome;
        meta.executed = self.executed;
        meta.reason = self.reason.clone();
        meta.model_presentation = self.model_presentation.clone();
        meta.truncated = Some(self.truncated);
        meta.output_locator = match &self.output_locator {
            Some(l) => Some(OutputLocator { path: l.path.clone(), line: l.line }),
            None => None,
        };
        meta
    }
}

/// The record of a fact: a current-version record with the fact's turn, id,
/// function name, input, phase, outcome, executed flag, reason,
/// presentation, truncation and output locator.
pub open spec fn fact_meta(f: FactView) -> NativeMetaView {
    NativeMetaView {
        turn_id: Some(f.turn_id),
        tool_call_id: Some(f.tool_call_id),
        function_name: Some(f.function_name),
        raw_input: Some(f.raw_input),
        phase: Some(f.phase),
        outcome: f.outcome,
        executed: f.executed,
        reason: f.reason,
        model_presentation: f.model_presentation,
        truncated: Some(f.truncated),
        output_locator: f.output_locator,
        ..empty_meta()
    }
}

/// A fact after its turn was cancelled: a terminal result stays; a started
/// call becomes unknown; anything else becomes cancelled. Facts of other
/// turns are untouched.
pub open spec fn settle_spec(f: ExecutionFact, turn_id: Seq<char>) -> ExecutionFact {
    if f.turn_id@ != turn_id {
        f
    } else if f.phase == ToolPhase::Terminal && f.outcome is Some {
        f
    } else if f.phase == ToolPhase::Started {
        let g = ExecutionFact {
            phase: ToolPhase::Terminal,
            outcome: Some(ToolOutcome::Unknown),
            executed: None,
            ..f
        };
        g
    } else {
        ExecutionFact {
            phase: ToolPhase::Terminal,
            outcome: Some(ToolOutcome::Cancelled),
            executed: Some(false),
            ..f
        }
    }
}

/// Reason recorded when a fact is settled.
pub open spec fn settle_reason(f: ExecutionFact) -> Seq<char> {
    if f.phase == ToolPhase::Started {
        "started but cancelled before a terminal ack"@
    } else {
        "cancelled before execution"@
    }
}

/// Whether `g` is `f` settled for `turn_id` (see [`settle_spec`]), with the
/// settled reason and the matching feedback recorded when it changed.
pub open spec fn settled(f: ExecutionFact, g: ExecutionFact, turn_id: Seq<char>) -> bool {
    let s = settle_spec(f, turn_id);
    if s == f {
        g == f
    } else {
        &&& g.tool_call_id == s.tool_call_id
        &&& g.function_name == s.function_name
        &&& g.raw_input == s.raw_input
        &&& g.phase == s.phase
        &&& g.outcome == s.outcome
        &&& g.executed == s.executed
        &&& g.truncated == s.truncated
        &&& g.output_locator == s.output_locator
        &&& g.turn_id == s.turn_id
        &&& g.reason matches Some(r) && r@ == settle_reason(f)
        &&& g.model_presentation matches Some(p) && p@ == feedback_spec(s)
    }
}

fn settle_fact(f: ExecutionFact, turn_id: &str) -> (r: ExecutionFact)
    ensures
        settled(f, r, turn_id@),
{
    if !crate::text::str_eq(f.turn_id.as_str(), turn_id) {
        return f;
    }
    let mut f = f;
    if f.phase == ToolPhase::Terminal && f.outcome.is_some() {
        return f;
    }
    let ghost orig = f;
    if f.phase == ToolPhase::Started {
        f.phase = ToolPhase::Terminal;
        f.outcome = Some(ToolOutcome::Unknown);
        f.executed = None;
        f.reason = Some("started but cancelled before a terminal ack".to_owned());
        f.model_presentation = Some(f.outcome_feedback());
    } else {
        f.phase = ToolPhase::Terminal;
        f.outcome = Some(ToolOutcome::Cancelled);
        f.executed = Some(false);
        f.reason = Some("cancelled before execution".to_owned());
        f.model_presentation = Some(f.outcome_feedback());
    }
    assert(settle_spec(orig, turn_id@) != orig);
    f
}

/// One piece of an assistant message: text, or a tool call.
#[derive(Debug)]
pub enum AssistantPart {
    Text(String),
    ToolCall { id: String, name: String, args: JsonValue },
}

/// An [`AssistantPart`] as a mathematical value.
pub enum PartView {
    Text(Seq<char>),
    ToolCall { id: Seq<char>, name: Seq<char>, args: JsonView },
}

impl View for AssistantPart {
    type V = PartView;

    open spec fn view(&self) -> PartView {
        match self {
            AssistantPart::Text(t) => PartView::Text(t@),
            AssistantPart::ToolCall { id, name, args } => PartView::ToolCall {
                id: id@,
                name: name@,
                args: jview(*args),
            },
        }
    }
}

/// What the assistant said in one turn.
pub struct AssistantRecord {
    pub model_message_id: Option<String>,
    pub committed: bool,
    pub parts: Vec<AssistantPart>,
}

/// An [`AssistantRecord`] as a mathematical value.
pub struct RecordView {
    pub model_message_id: Option<Seq<char>>,
    pub committed: bool,
    pub parts: Seq<PartView>,
}

pub open spec fn part_views(parts: Seq<AssistantPart>) -> Seq<PartView> {
    parts.map_values(|p: AssistantPart| p@)
}

impl View for AssistantRecord {
    type V = RecordView;

    open spec fn view(&self) -> RecordView {
        RecordView {
            model_message_id: ostr(self.model_message_id),
            committed: self.committed,
            parts: part_views(self.parts@),
        }
    }
}

/// A record with nothing in it yet.
pub open spec fn empty_record() -> RecordView {
    RecordView { model_message_id: None, committed: false, parts: Seq::empty() }
}

impl Default for AssistantRecord {
    fn default() -> (r: Self)
        ensures
            r@ == empty_record(),
    {
        let r = AssistantRecord { model_message_id: None, committed: false, parts: Vec::new() };
        assert(part_views(r.parts@) =~= Seq::<PartView>::empty());
        r
    }
}

/// One user prompt and what the assistant answered.
pub struct CanonicalTurn {
    pub turn_id: String,
    pub user_text: String,
    pub assistant: Option<AssistantRecord>,
}

/// A [`CanonicalTurn`] as a mathematical value.
pub struct TurnView {
    pub turn_id: Seq<char>,
    pub user_text: Seq<char>,
    pub assistant: Option<RecordView>,
}

impl View for CanonicalTurn {
    type V = TurnView;

    open spec fn view(&self) -> TurnView {
        TurnView {
            turn_id: self.turn_id@,
            user_text: self.user_text@,
            assistant: match self.assistant {
                Some(a) => Some(a@),
                None => None,
            },
        }
    }
}

pub open spec fn turn_views(turns: Seq<CanonicalTurn>) -> Seq<TurnView> {
    turns.map_values(|t: CanonicalTurn| t@)
}

/// A fact at the end of a load: one with an outcome stays; a started call
/// becomes unknown; a pending call is cancelled; a terminal call without an
/// outcome becomes unknown. Each changed fact gets the matching feedback.
pub open spec fn finalize_view(f: FactView) -> FactView {
    if f.outcome is Some {
        f
    } else {
        let g = match f.phase {
            ToolPhase::Started => FactView {
                phase: ToolPhase::Terminal,
                outcome: Some(ToolOutcome::Unknown),
                executed: None,
                reason: Some("started without a terminal record"@),
                ..f
            },
            ToolPhase::Pending => FactView {
                phase: ToolPhase::Terminal,
                outcome: Some(ToolOutcome::Cancelled),
                executed: Some(false),
                reason: Some("never started"@),
                ..f
            },
            ToolPhase::Terminal => FactView { outcome: Some(ToolOutcome::Unknown), ..f },
        };
        FactView { model_presentation: Some(feedback_view(g)), ..g }
    }
}

pub(crate) fn finalize_fact(f: ExecutionFact) -> (r: ExecutionFact)
    ensures
        fact_view(r) == finalize_view(fact_view(f)),
{
    if f.outcome.is_some() {
        return f;
    }
    let mut f = f;
    match f.phase {
        ToolPhase::Started => {
            f.phase = ToolPhase::Terminal;
            f.outcome = Some(ToolOutcome::Unknown);
            f.executed = None;
            f.reason = Some("started without a terminal record".to_owned());
        },
        ToolPhase::Pending => {
            f.phase = ToolPhase::Terminal;
            f.outcome = Some(ToolOutcome::Cancelled);
            f.executed = Some(false);
            f.reason = Some("never started".to_owned());
        },
        ToolPhase::Terminal => {
            f.outcome = Some(ToolOutcome::Unknown);
        },
    }
    f.model_presentation = Some(f.outcome_feedback());
    f
}

/// A copy of a fact.
pub fn copy_fact(f: &ExecutionFact) -> (r: ExecutionFact)
    ensures
        fact_view(r) == fact_view(*f),
{
    ExecutionFact {
        tool_call_id: f.tool_call_id.clone(),
        function_name: f.function_name.clone(),
        raw_input: f.raw_input.deep_copy(),
        phase: f.phase,
        outcome: f.outcome,
        executed: f.executed,
        model_presentation: f.model_presentation.clone(),
        truncated: f.truncated,
        output_locator: match &f.output_locator {
            Some(l) => Some(OutputLocator { path: l.path.clone(), line: l.line }),
            None => None,
        },
        reason: f.reason.clone(),
        turn_id: f.turn_id.clone(),
    }
}

/// Index of the last turn with `turn_id`, among turn values.
pub open spec fn last_turn_index_view(turns: Seq<TurnView>, turn_id: Seq<char>) -> Option<int>
    decreases turns.len(),
{
    if turns.len() == 0 {
        None
    } else if turns.last().turn_id == turn_id {
        Some(turns.len() - 1)
    } else {
        last_turn_index_view(turns.drop_last(), turn_id)
    }
}

/// `turns` with `rec` attached to the last turn with `turn_id`; unchanged
/// when there is none.
pub open spec fn commit_turn(turns: Seq<TurnView>, turn_id: Seq<char>, rec: RecordView) -> Seq<
    TurnView,
> {
    match last_turn_index_view(turns, turn_id) {
        Some(i) => turns.update(i, TurnView { assistant: Some(rec), ..turns[i] }),
        None => turns,
    }
}

pub proof fn lemma_last_turn_index_view(turns: Seq<CanonicalTurn>, turn_id: Seq<char>)
    ensures
        last_turn_index(turns, turn_id) == last_turn_index_view(turn_views(turns), turn_id),
    decreases turns.len(),
{
    if turns.len() > 0 {
        assert(turn_views(turns).drop_last() =~= turn_views(turns.drop_last()));
        lemma_last_turn_index_view(turns.drop_last(), turn_id);
    }
}

pub struct ContextStore {
    session_id: String,
    turns: Vec<CanonicalTurn>,
    facts: StrMap<ExecutionFact>,
    compact: Option<CompactRecord>,
}

/// Index of the last turn with `turn_id`.
pub open spec fn last_turn_index(turns: Seq<CanonicalTurn>, turn_id: Seq<char>) -> Option<int>
    decreases turns.len(),
{
    if turns.len() == 0 {
        None
    } else if turns.last().turn_id@ == turn_id {
        Some(turns.len() - 1)
    } else {
        last_turn_index(turns.drop_last(), turn_id)
    }
}

impl ContextStore {
    pub closed spec fn session_id_spec(&self) -> Seq<char> {
        self.session_id@
    }

    pub closed spec fn turns_spec(&self) -> Seq<CanonicalTurn> {
        self.turns@
    }

    /// Facts by tool call id.
    pub closed spec fn facts_spec(&self) -> Map<Seq<char>, ExecutionFact> {
        self.facts@
    }

    pub closed spec fn compact_spec(&self) -> Option<CompactRecord> {
        self.compact
    }

    /// The turns, as values.
    pub open spec fn turns_view(&self) -> Seq<TurnView> {
        turn_views(self.turns_spec())
    }

    /// The facts by tool call id, as values.
    pub open spec fn facts_view(&self) -> Map<Seq<char>, FactView> {
        self.facts_spec().map_values(|f: ExecutionFact| fact_view(f))
    }

    /// The compaction record, as a value.
    pub open spec fn compact_view(&self) -> Option<CompactView> {
        match self.compact_spec() {
            Some(c) => Some(c@),
            None => None,
        }
    }

    pub fn new(session_id: String) -> (r: Self)
        ensures
            r.session_id_spec() == session_id@,
            r.turns_spec() == Seq::<CanonicalTurn>::empty(),
            r.facts_spec() == Map::<Seq<char>, ExecutionFact>::empty(),
            r.compact_spec() is None,
    {
        ContextStore { session_id, turns: Vec::new(), facts: StrMap::new(), compact: None }
    }

    pub fn session_id(&self) -> (r: &str)
        ensures
            r@ == self.session_id_spec(),
    {
        self.session_id.as_str()
    }

    pub fn turns(&self) -> (r: &Vec<CanonicalTurn>)
        ensures
            r@ == self.turns_spec(),
    {
        &self.turns
    }

    pub fn fact(&self, tool_call_id: &str) -> (r: Option<&ExecutionFact>)
        ensures
            r is Some == self.facts_spec().contains_key(tool_call_id@),
            r matches Some(f) ==> *f == self.facts_spec()[tool_call_id@],
    {
        self.facts.get(tool_call_id)
    }

    pub fn compact(&self) -> (r: Option<&CompactRecord>)
        ensures
            r matches Some(c) ==> self.compact_spec() == Some(*c),
            r is None ==> self.compact_spec() is None,
    {
        self.compact.as_ref()
    }

    pub fn set_compact(&mut self, record: CompactRecord)
        ensures
            final(self).compact_spec() == Some(record),
            final(self).compact_view() == Some(record@),
            final(self).turns_spec() == old(self).turns_spec(),
            final(self).facts_spec() == old(self).facts_spec(),
            final(self).session_id_spec() == old(self).session_id_spec(),
    {
        self.compact = Some(record);
    }

    pub fn append_user(&mut self, turn_id: String, user_text: String)
        ensures
            final(self).turns_spec() == old(self).turns_spec().push(
                CanonicalTurn { turn_id, user_text, assistant: None },
            ),
            final(self).turns_view() == old(self).turns_view().push(
                TurnView { turn_id: turn_id@, user_text: user_text@, assistant: None },
            ),
            final(self).facts_spec() == old(self).facts_spec(),
            final(self).compact_spec() == old(self).compact_spec(),
            final(self).session_id_spec() == old(self).session_id_spec(),
    {
        self.turns.push(CanonicalTurn { turn_id, user_text, assistant: None });
        proof {
            assert(self.turns_view() =~= old(self).turns_view().push(
                TurnView { turn_id: turn_id@, user_text: user_text@, assistant: None },
            ));
        }
    }

    /// Number of user turns so far.
    pub fn prompt_index(&self) -> (r: u64)
        ensures
            r == self.turns_spec().len() as u64,
    {
        self.turns.len() as u64
    }

    /// `<session_id>:<prompt_index>`.
    pub fn turn_id_for_prompt(&self, prompt_index: u64) -> (r: String)
        ensures
            r@ == self.session_id_spec() + ":"@ + decimal_seq(prompt_index as nat),
    {
        let mut s = self.session_id.clone();
        push_str(&mut s, ":");
        push_decimal(&mut s, prompt_index);
        s
    }

    /// Records a fact, replacing any earlier fact of the same call.
    pub fn record_fact(&mut self, fact: ExecutionFact)
        ensures
            final(self).facts_spec() == old(self).facts_spec().insert(fact.tool_call_id@, fact),
            final(self).facts_view() == old(self).facts_view().insert(
                fact.tool_call_id@,
                fact_view(fact),
            ),
            final(self).turns_spec() == old(self).turns_spec(),
            final(self).compact_spec() == old(self).compact_spec(),
            final(self).session_id_spec() == old(self).session_id_spec(),
    {
        let id = fact.tool_call_id.clone();
        let ghost f = fact;
        self.facts.insert(id, fact);
        proof {
            assert(self.facts_view() =~= old(self).facts_view().insert(f.tool_call_id@, fact_view(f)));
        }
    }

    /// Attaches the assistant record to the last turn with `turn_id`; no turn,
    /// no change.
    pub fn commit_assistant(&mut self, turn_id: &str, assistant: AssistantRecord)
        ensures
            match last_turn_index(old(self).turns_spec(), turn_id@) {
                Some(i) => final(self).turns_spec() == old(self).turns_spec().update(
                    i,
                    CanonicalTurn { assistant: Some(assistant), ..old(self).turns_spec()[i] },
                ),
                None => final(self).turns_spec() == old(self).turns_spec(),
            },
            final(self).turns_view() == commit_turn(old(self).turns_view(), turn_id@, assistant@),
            final(self).facts_spec() == old(self).facts_spec(),
            final(self).compact_spec() == old(self).compact_spec(),
            final(self).session_id_spec() == old(self).session_id_spec(),
    {
        let ghost t = self.turns@;
        proof {
            lemma_last_turn_index_view(t, turn_id@);
        }
        let mut i: usize = self.turns.len();
        assert(t.take(i as int) =~= t);
        while i > 0
            invariant
                i <= t.len(),
                t == self.turns@,
                t == old(self).turns@,
                self.facts@ == old(self).facts@,
                self.compact == old(self).compact,
                self.session_id == old(self).session_id,
                last_turn_index(t, turn_id@) == last_turn_index(t.take(i as int), turn_id@),
                last_turn_index(t, turn_id@) == last_turn_index_view(turn_views(t), turn_id@),
            decreases i,
        {
            assert(t.take(i as int).drop_last() =~= t.take(i - 1));
            assert(t.take(i as int).last() == t[i - 1]);
            if crate::text::str_eq(self.turns[i - 1].turn_id.as_str(), turn_id) {
                let mut turns: Vec<CanonicalTurn> = Vec::new();
                std::mem::swap(&mut turns, &mut self.turns);
                let old_turn = turns.remove(i - 1);
                let new_turn = CanonicalTurn {
                    turn_id: old_turn.turn_id,
                    user_text: old_turn.user_text,
                    assistant: Some(assistant),
                };
                turns.insert(i - 1, new_turn);
                self.turns = turns;
                assert(self.turns@ =~= t.update(
                    i - 1,
                    CanonicalTurn { assistant: Some(assistant), ..t[i - 1] },
                ));
                assert(turn_views(self.turns@) =~= turn_views(t).update(
                    i - 1,
                    TurnView { assistant: Some(assistant@), ..turn_views(t)[i - 1] },
                ));
                return;
            }
            i -= 1;
        }
    }

    /// Calls replayed automatically after a restart: none.
    pub fn auto_replay_ids(&self) -> (r: Vec<String>)
        ensures
            r@.len() == 0,
    {
        Vec::new()
    }

    /// Close an in-flight tool batch of `turn_id`: confirmed results stay,
    /// started calls become unknown, the rest are cancelled; see [`settled`].
    pub fn settle_cancel(&mut self, turn_id: &str)
        ensures
            final(self).facts_spec().dom() == old(self).facts_spec().dom(),
            forall|k: Seq<char>|
                #[trigger] old(self).facts_spec().contains_key(k) ==> settled(
                    old(self).facts_spec()[k],
                    final(self).facts_spec()[k],
                    turn_id@,
                ),
            final(self).turns_spec() == old(self).turns_spec(),
            final(self).compact_spec() == old(self).compact_spec(),
            final(self).session_id_spec() == old(self).session_id_spec(),
    {
        let ghost start = self.facts@;
        let ids = self.facts.keys();
        let mut j: usize = 0;
        while j < ids.len()
            invariant
                j <= ids.len(),
                start == old(self).facts@,
                self.turns == old(self).turns,
                self.compact == old(self).compact,
                self.session_id == old(self).session_id,
                self.facts@.dom() == start.dom(),
                forall|i: int| 0 <= i < ids@.len() ==> start.contains_key(#[trigger] ids@[i]@),
                forall|k: Seq<char>| #[trigger]
                    start.contains_key(k) ==> exists|i: int| 0 <= i < ids@.len() && ids@[i]@ == k,
                forall|a: int, b: int|
                    0 <= a < ids@.len() && 0 <= b < ids@.len() && a != b ==> #[trigger] ids@[a]@
                        != #[trigger] ids@[b]@,
                forall|k: Seq<char>|
                    #[trigger] start.contains_key(k) ==> if exists|i: int|
                        0 <= i < j && ids@[i]@ == k {
                        settled(start[k], self.facts@[k], turn_id@)
                    } else {
                        self.facts@[k] == start[k]
                    },
            decreases ids.len() - j,
        {
            let ghost before = self.facts@;
            let key = ids[j].as_str();
            match self.facts.take(key) {
                Some(f) => {
                    let g = settle_fact(f, turn_id);
                    self.facts.insert(ids[j].clone(), g);
                    proof {
                        assert forall|k: Seq<char>| #[trigger] start.contains_key(k) implies if exists|i: int|
                            0 <= i < j + 1 && ids@[i]@ == k {
                            settled(start[k], self.facts@[k], turn_id@)
                        } else {
                            self.facts@[k] == start[k]
                        } by {
                            if k == ids@[j as int]@ {
                                assert(!exists|i: int| 0 <= i < j && ids@[i]@ == k) by {
                                    if exists|i: int| 0 <= i < j && ids@[i]@ == k {
                                        let i = choose|i: int| 0 <= i < j && ids@[i]@ == k;
                                        assert(ids@[i]@ != ids@[j as int]@);
                                    }
                                }
                                assert(ids@[j as int]@ == k);
                            } else {
                                if exists|i: int| 0 <= i < j + 1 && ids@[i]@ == k {
                                    let i = choose|i: int| 0 <= i < j + 1 && ids@[i]@ == k;
                                    assert(i < j);
                                }
                            }
                        }
                        assert(self.facts@.dom() =~= start.dom());
                    }
                },
                None => {
                    assert(false);
                },
            }
            j += 1;
        }
        proof {
            assert forall|k: Seq<char>| #[trigger] start.contains_key(k) implies settled(
                start[k],
                self.facts@[k],
                turn_id@,
            ) by {
                let i = choose|i: int| 0 <= i < ids@.len() && ids@[i]@ == k;
                assert(0 <= i < j && ids@[i]@ == k);
            }
        }
    }

    /// Closes every fact left open at the end of a load; see [`finalize_view`].
    pub fn finalize_open_facts(&mut self)
        ensures
            final(self).facts_view() == old(self).facts_view().map_values(
                |f: FactView| finalize_view(f),
            ),
            final(self).turns_spec() == old(self).turns_spec(),
            final(self).compact_spec() == old(self).compact_spec(),
            final(self).session_id_spec() == old(self).session_id_spec(),
    {
        let ghost start = self.facts@;
        let ids = self.facts.keys();
        let mut j: usize = 0;
        while j < ids.len()
            invariant
                j <= ids.len(),
                start == old(self).facts@,
                self.turns == old(self).turns,
                self.compact == old(self).compact,
                self.session_id == old(self).session_id,
                self.facts@.dom() == start.dom(),
                forall|i: int| 0 <= i < ids@.len() ==> start.contains_key(#[trigger] ids@[i]@),
                forall|k: Seq<char>| #[trigger]
                    start.contains_key(k) ==> exists|i: int| 0 <= i < ids@.len() && ids@[i]@ == k,
                forall|a: int, b: int|
                    0 <= a < ids@.len() && 0 <= b < ids@.len() && a != b ==> #[trigger] ids@[a]@
                        != #[trigger] ids@[b]@,
                forall|k: Seq<char>|
                    #[trigger] start.contains_key(k) ==> if exists|i: int|
                        0 <= i < j && ids@[i]@ == k {
                        fact_view(self.facts@[k]) == finalize_view(fact_view(start[k]))
                    } else {
                        self.facts@[k] == start[k]
                    },
            decreases ids.len() - j,
        {
            let key = ids[j].as_str();
            match self.facts.take(key) {
                Some(f) => {
                    let g = finalize_fact(f);
                    self.facts.insert(ids[j].clone(), g);
                    proof {
                        assert forall|k: Seq<char>| #[trigger] start.contains_key(k) implies if exists|i: int|
                            0 <= i < j + 1 && ids@[i]@ == k {
                            fact_view(self.facts@[k]) == finalize_view(fact_view(start[k]))
                        } else {
                            self.facts@[k] == start[k]
                        } by {
                            if k == ids@[j as int]@ {
                                assert(!exists|i: int| 0 <= i < j && ids@[i]@ == k) by {
                                    if exists|i: int| 0 <= i < j && ids@[i]@ == k {
                                        let i = choose|i: int| 0 <= i < j && ids@[i]@ == k;
                                        assert(ids@[i]@ != ids@[j as int]@);
                                    }
                                }
                                assert(ids@[j as int]@ == k);
                            } else {
                                if exists|i: int| 0 <= i < j + 1 && ids@[i]@ == k {
                                    let i = choose|i: int| 0 <= i < j + 1 && ids@[i]@ == k;
                                    assert(i < j);
                                }
                            }
                        }
                        assert(self.facts@.dom() =~= start.dom());
                    }
                },
                None => {
                    assert(false);
                },
            }
            j += 1;
        }
        proof {
            assert forall|k: Seq<char>| #[trigger] start.contains_key(k) implies fact_view(
                self.facts@[k],
            ) == finalize_view(fact_view(start[k])) by {
                let i = choose|i: int| 0 <= i < ids@.len() && ids@[i]@ == k;
                assert(0 <= i < j && ids@[i]@ == k);
            }
            assert(self.facts_view() =~= old(self).facts_view().map_values(
                |f: FactView| finalize_view(f),
            ));
        }
    }

    /// Ids of the calls whose outcome is unknown, each once, in no promised
    /// order.
    pub fn unknown_ids(&self) -> (r: Vec<String>)
        ensures
            forall|i: int|
                0 <= i < r@.len() ==> self.facts_spec().contains_key(#[trigger] r@[i]@)
                    && self.facts_spec()[r@[i]@].outcome == Some(ToolOutcome::Unknown),
            forall|k: Seq<char>|
                #[trigger] self.facts_spec().contains_key(k) && self.facts_spec()[k].outcome
                    == Some(ToolOutcome::Unknown) ==> exists|i: int| 0 <= i < r@.len() && r@[i]@ == k,
            forall|a: int, b: int|
                0 <= a < r@.len() && 0 <= b < r@.len() && a != b ==> #[trigger] r@[a]@
                    != #[trigger] r@[b]@,
    {
        let ids = self.facts.keys();
        let mut out: Vec<String> = Vec::new();
        let ghost mut from: Seq<int> = Seq::empty();
        let mut j: usize = 0;
        while j < ids.len()
            invariant
                j <= ids.len(),
                forall|i: int| 0 <= i < ids@.len() ==> self.facts@.contains_key(#[trigger] ids@[i]@),
                forall|k: Seq<char>| #[trigger]
                    self.facts@.contains_key(k) ==> exists|i: int| 0 <= i < ids@.len() && ids@[i]@ == k,
                forall|a: int, b: int|
                    0 <= a < ids@.len() && 0 <= b < ids@.len() && a != b ==> #[trigger] ids@[a]@
                        != #[trigger] ids@[b]@,
                from.len() == out@.len(),
                forall|x: int| 0 <= x < out@.len() ==> 0 <= #[trigger] from[x] < j && out@[x]@ == ids@[from[x]]@,
                forall|x: int, y: int| 0 <= x < y < out@.len() ==> #[trigger] from[x] < #[trigger] from[y],
                forall|i: int|
                    0 <= i < j && self.facts@[#[trigger] ids@[i]@].outcome == Some(ToolOutcome::Unknown)
                        ==> exists|x: int| 0 <= x < out@.len() && from[x] == i,
                forall|x: int| 0 <= x < out@.len() ==> self.facts@.contains_key(#[trigger] out@[x]@),
                forall|x: int| 0 <= x < out@.len() ==> self.facts@[#[trigger] out@[x]@].outcome == Some(ToolOutcome::Unknown),
            decreases ids.len() - j,
        {
            let ghost old_from = from;
            let ghost old_out = out@;
            match self.facts.get(ids[j].as_str()) {
                Some(f) => {
                    if f.outcome == Some(ToolOutcome::Unknown) {
                        out.push(ids[j].clone());
                        proof {
                            from = from.push(j as int);
                            assert forall|i: int|
                                0 <= i < j + 1 && self.facts@[#[trigger] ids@[i]@].outcome == Some(
                                    ToolOutcome::Unknown,
                                ) implies exists|x: int| 0 <= x < out@.len() && from[x] == i by {
                                if i == j {
                                    assert(from[old_from.len() as int] == i);
                                } else {
                                    let x = choose|x: int| 0 <= x < old_out.len() && old_from[x] == i;
                                    assert(from[x] == i);
                                }
                            }
                        }
                    }
                },
                None => {},
            }
            j += 1;
        }
        proof {
            assert forall|a: int, b: int|
                0 <= a < out@.len() && 0 <= b < out@.len() && a != b implies #[trigger] out@[a]@
                    != #[trigger] out@[b]@ by {
                if a < b {
                    assert(from[a] < from[b]);
                } else {
                    assert(from[b] < from[a]);
                }
            }
            assert forall|k: Seq<char>|
                #[trigger] self.facts@.contains_key(k) && self.facts@[k].outcome == Some(ToolOutcome::Unknown)
                implies exists|i: int| 0 <= i < out@.len() && out@[i]@ == k by {
                let i = choose|i: int| 0 <= i < ids@.len() && ids@[i]@ == k;
                let x = choose|x: int| 0 <= x < out@.len() && from[x] == i;
                assert(out@[x]@ == k);
            }
        }
        out
    }
}

/// The call a tool invocation belongs to.
pub struct CallIdentity {
    pub turn_id: u64,
    pub turn_key: String,
    pub tool_call_id: String,
    pub function_name: String,
}

#[derive(Debug)]
pub enum IdentityError {
    Missing,
    TurnMismatch { expected: u64, current: u64 },
}

impl IdentityError {
    pub open spec fn message_spec(self) -> Seq<char> {
        match self {
            IdentityError::Missing => "missing call identity"@,
            IdentityError::TurnMismatch { expected, current } => "call identity turn "@
                + decimal_seq(expected as nat) + " does not match current "@ + decimal_seq(
                current as nat,
            ),
        }
    }

    pub fn message(&self) -> (r: String)
        ensures
            r@ == self.message_spec(),
    {
        let mut s = String::new();
        match self {
            IdentityError::Missing => push_str(&mut s, "missing call identity"),
            IdentityError::TurnMismatch { expected, current } => {
                push_str(&mut s, "call identity turn ");
                push_decimal(&mut s, *expected);
                push_str(&mut s, " does not match current ");
                push_decimal(&mut s, *current);
            },
        }
        proof {
            reveal_strlit("");
        }
        s
    }
}

/// Hands the identity of the call being executed to the tool layer.
pub struct CallIdentityBridge {
    current: Option<CallIdentity>,
}

impl CallIdentityBridge {
    pub closed spec fn current_spec(&self) -> Option<CallIdentity> {
        self.current
    }

    pub fn new() -> (r: Self)
        ensures
            r.current_spec() is None,
    {
        CallIdentityBridge { current: None }
    }

    pub fn set(&mut self, identity: CallIdentity)
        ensures
            final(self).current_spec() == Some(identity),
    {
        self.current = Some(identity);
    }

    pub fn clear(&mut self)
        ensures
            final(self).current_spec() is None,
    {
        self.current = None;
    }

    /// The identity set for `turn_id`: missing when none is set, a mismatch
    /// when it belongs to another turn.
    pub fn require(&self, turn_id: u64) -> (r: Result<CallIdentity, IdentityError>)
        ensures
            match self.current_spec() {
                None => r matches Err(IdentityError::Missing),
                Some(id) => if id.turn_id != turn_id {
                    r matches Err(IdentityError::TurnMismatch { expected, current }) && expected
                        == id.turn_id && current == turn_id
                } else {
                    r matches Ok(c) && c.turn_id == id.turn_id && c.turn_key@ == id.turn_key@
                        && c.tool_call_id@ == id.tool_call_id@ && c.function_name@
                        == id.function_name@
                },
            },
    {
        match &self.current {
            None => Err(IdentityError::Missing),
            Some(id) => if id.turn_id != turn_id {
                Err(IdentityError::TurnMismatch { expected: id.turn_id, current: turn_id })
            } else {
                Ok(
                    CallIdentity {
                        turn_id: id.turn_id,
                        turn_key: id.turn_key.clone(),
                        tool_call_id: id.tool_call_id.clone(),
                        function_name: id.function_name.clone(),
                    },
                )
            },
        }
    }
}


/// Where a token count came from.
#[derive(Debug, Clone, Copy, PartialEq, Eq, Structural)]
pub enum UsageSource {
    Reported,
    Estimated,
}

/// A fact write the transcript did not confirm.
#[derive(Debug, Clone, Copy, PartialEq, Eq, Structural)]
pub enum FactWriteError {
    AckFailed,
}

impl FactWriteError {
    pub fn message(&self) -> (r: &'static str)
        ensures
            r@ == "critical transcript write was not acknowledged"@,
    {
        "critical transcript write was not acknowledged"
    }
}

} // verus!
