//! Agent-specific workflow wire → canonical [`WorkflowDelta`].
//!
//! Long-running background workflows are not one ACP variant. Grok publishes
//! `_x.ai/session/update` `workflow_updated`; other agents (any AIR speaker)
//! publishes `async_task_*` with `taskType: "workflow"`. This module is the
//! conversion layer: one output shape, one live strip.

use vstd::prelude::*;

use crate::json::{json_get, json_get_str, json_get_u64, JsonValue};
use crate::native_config::{opt_string_view, trimmed_opt, trimmed_optional};
use crate::text::{str_eq, string_eq};

verus! {

/// Agents whose wire this module reads.
#[derive(Debug, Clone, Copy, PartialEq, Eq, Structural)]
pub enum AgentType {
    ClaudeCode,
    Codex,
    OpenCode,
    Grok,
}

/// Usage figures of an AIR async task.
#[derive(Debug, Clone, Copy, PartialEq, Eq, Structural)]
pub struct AsyncTaskUsage {
    pub tool_uses: u64,
    pub duration_ms: u64,
}

/// One AIR `async_task_*` frame.
pub struct AsyncTaskDelta {
    pub task_id: String,
    pub spawned: bool,
    pub name: Option<String>,
    pub task_type: Option<String>,
    pub description: Option<String>,
    pub show_in_transcript: Option<bool>,
    pub can_stop: Option<bool>,
    pub state: Option<String>,
    pub summary: Option<String>,
    pub last_tool_name: Option<String>,
    pub usage: Option<AsyncTaskUsage>,
    pub output_file_path: Option<String>,
    pub tool_call_id: Option<String>,
}

pub struct WorkflowPhase {
    pub title: String,
    pub detail: Option<String>,
    pub state: String,
}

pub struct WorkflowAgent {
    pub agent_id: String,
    pub label: String,
    pub phase: Option<String>,
    pub state: String,
    pub summary: Option<String>,
    pub tokens_used: Option<u64>,
    pub duration_ms: Option<u64>,
}

/// Canonical workflow update shown in the live strip.
pub struct WorkflowDelta {
    pub run_id: String,
    pub spawned: bool,
    pub name: Option<String>,
    pub objective: Option<String>,
    pub state: Option<String>,
    pub phases: Option<Vec<WorkflowPhase>>,
    pub current_phase: Option<String>,
    pub agents: Option<Vec<WorkflowAgent>>,
    pub agents_done: Option<u32>,
    pub agents_running: Option<u32>,
    pub agents_used: Option<u32>,
    pub agent_budget: Option<u32>,
    pub agents_remaining: Option<u32>,
    pub elapsed_ms: Option<u64>,
    pub last_event: Option<String>,
    pub last_event_detail: Option<String>,
    pub can_stop: Option<bool>,
}

pub struct PhaseView {
    pub title: Seq<char>,
    pub detail: Option<Seq<char>>,
    pub state: Seq<char>,
}

pub struct AgentView {
    pub agent_id: Seq<char>,
    pub label: Seq<char>,
    pub phase: Option<Seq<char>>,
    pub state: Seq<char>,
    pub summary: Option<Seq<char>>,
    pub tokens_used: Option<u64>,
    pub duration_ms: Option<u64>,
}

pub struct DeltaView {
    pub run_id: Seq<char>,
    pub spawned: bool,
    pub name: Option<Seq<char>>,
    pub objective: Option<Seq<char>>,
    pub state: Option<Seq<char>>,
    pub phases: Option<Seq<PhaseView>>,
    pub current_phase: Option<Seq<char>>,
    pub agents: Option<Seq<AgentView>>,
    pub agents_done: Option<u32>,
    pub agents_running: Option<u32>,
    pub agents_used: Option<u32>,
    pub agent_budget: Option<u32>,
    pub agents_remaining: Option<u32>,
    pub elapsed_ms: Option<u64>,
    pub last_event: Option<Seq<char>>,
    pub last_event_detail: Option<Seq<char>>,
    pub can_stop: Option<bool>,
}

impl View for WorkflowPhase {
    type V = PhaseView;

    open spec fn view(&self) -> PhaseView {
        PhaseView { title: self.title@, detail: opt_string_view(self.detail), state: self.state@ }
    }
}

impl View for WorkflowAgent {
    type V = AgentView;

    open spec fn view(&self) -> AgentView {
        AgentView {
            agent_id: self.agent_id@,
            label: self.label@,
            phase: opt_string_view(self.phase),
            state: self.state@,
            summary: opt_string_view(self.summary),
            tokens_used: self.tokens_used,
            duration_ms: self.duration_ms,
        }
    }
}

pub open spec fn opt_seq_view<T: View>(o: Option<Vec<T>>) -> Option<Seq<T::V>> {
    match o {
        Some(v) => Some(v@.map_values(|x: T| x@)),
        None => None,
    }
}

impl View for WorkflowDelta {
    type V = DeltaView;

    open spec fn view(&self) -> DeltaView {
        DeltaView {
            run_id: self.run_id@,
            spawned: self.spawned,
            name: opt_string_view(self.name),
            objective: opt_string_view(self.objective),
            state: opt_string_view(self.state),
            phases: opt_seq_view(self.phases),
            current_phase: opt_string_view(self.current_phase),
            agents: opt_seq_view(self.agents),
            agents_done: self.agents_done,
            agents_running: self.agents_running,
            agents_used: self.agents_used,
            agent_budget: self.agent_budget,
            agents_remaining: self.agents_remaining,
            elapsed_ms: self.elapsed_ms,
            last_event: opt_string_view(self.last_event),
            last_event_detail: opt_string_view(self.last_event_detail),
            can_stop: self.can_stop,
        }
    }
}

// ----- AIR -----

pub open spec fn nonempty_opt(o: Option<Seq<char>>) -> Option<Seq<char>> {
    match o {
        Some(s) => if s.len() > 0 {
            Some(s)
        } else {
            None
        },
        None => None,
    }
}

/// The workflow update an AIR task frame maps to, when it is a workflow.
pub open spec fn air_delta_spec(d: AsyncTaskDelta, known: bool) -> Option<DeltaView> {
    let is_workflow = opt_string_view(d.task_type) == Some("workflow"@) || known;
    if !is_workflow {
        None
    } else {
        Some(
            DeltaView {
                run_id: d.task_id@,
                spawned: d.spawned,
                name: opt_string_view(d.name),
                objective: nonempty_opt(opt_string_view(d.description)),
                state: opt_string_view(d.state),
                phases: None,
                current_phase: opt_string_view(d.last_tool_name),
                agents: None,
                agents_done: None,
                agents_running: None,
                agents_used: match d.usage {
                    Some(u) => Some(u.tool_uses as u32),
                    None => None,
                },
                agent_budget: None,
                agents_remaining: None,
                elapsed_ms: match d.usage {
                    Some(u) => Some(u.duration_ms),
                    None => None,
                },
                last_event: match d.summary {
                    Some(s) => Some(s@),
                    None => opt_string_view(d.last_tool_name),
                },
                last_event_detail: None,
                can_stop: d.can_stop,
            },
        )
    }
}

fn clone_opt(o: &Option<String>) -> (r: Option<String>)
    ensures
        opt_string_view(r) == opt_string_view(*o),
{
    match o {
        Some(s) => Some(s.clone()),
        None => None,
    }
}

/// AIR `async_task` with `taskType=workflow` → [`WorkflowDelta`]. `known` is
/// true when this id is already a workflow row, so a progress frame that
/// omits `taskType` still routes here.
pub fn adapt_air_workflow(delta: &AsyncTaskDelta, known: bool) -> (r: Option<WorkflowDelta>)
    ensures
        match r {
            Some(w) => air_delta_spec(*delta, known) == Some(w@),
            None => air_delta_spec(*delta, known) is None,
        },
{
    let typed = match &delta.task_type {
        Some(t) => str_eq(t.as_str(), "workflow"),
        None => false,
    };
    if !(typed || known) {
        return None;
    }
    let objective = match &delta.description {
        Some(s) => if s.as_str().is_empty() {
            None
        } else {
            Some(s.clone())
        },
        None => None,
    };
    let last_event = match &delta.summary {
        Some(s) => Some(s.clone()),
        None => clone_opt(&delta.last_tool_name),
    };
    Some(
        WorkflowDelta {
            run_id: delta.task_id.clone(),
            spawned: delta.spawned,
            name: clone_opt(&delta.name),
            objective,
            state: clone_opt(&delta.state),
            phases: None,
            current_phase: clone_opt(&delta.last_tool_name),
            agents: None,
            agents_done: None,
            agents_running: None,
            agents_used: match delta.usage {
                Some(u) => Some(u.tool_uses as u32),
                None => None,
            },
            agent_budget: None,
            agents_remaining: None,
            elapsed_ms: match delta.usage {
                Some(u) => Some(u.duration_ms),
                None => None,
            },
            last_event,
            last_event_detail: None,
            can_stop: delta.can_stop,
        },
    )
}

// ----- Grok -----

/// Trimmed non-empty text under `key`.
pub open spec fn field_text(v: JsonValue, key: Seq<char>) -> Option<Seq<char>> {
    trimmed_opt(json_get_str(v, key))
}

pub open spec fn text_or(o: Option<Seq<char>>, default: Seq<char>) -> Seq<char> {
    match o {
        Some(s) => s,
        None => default,
    }
}

/// Canonical state for a Grok `status`.
pub open spec fn grok_state(status: Seq<char>) -> Seq<char> {
    if status == "complete"@ || status == "completed"@ {
        "completed"@
    } else if status == "failed"@ {
        "failed"@
    } else if status == "cancelled"@ || status == "canceled"@ || status == "interrupted"@ {
        "stopped"@
    } else if status == "paused"@ {
        "paused"@
    } else {
        "running"@
    }
}

/// A phase entry; `None` when it has no non-blank title.
pub open spec fn phase_of(p: JsonValue) -> Option<PhaseView> {
    match field_text(p, "title"@) {
        None => None,
        Some(title) => Some(
            PhaseView {
                title,
                detail: field_text(p, "detail"@),
                state: text_or(json_get_str(p, "state"@), "pending"@),
            },
        ),
    }
}

pub open spec fn phases_of(items: Seq<JsonValue>) -> Seq<PhaseView>
    decreases items.len(),
{
    if items.len() == 0 {
        Seq::empty()
    } else {
        let rest = phases_of(items.drop_last());
        match phase_of(items.last()) {
            Some(p) => rest.push(p),
            None => rest,
        }
    }
}

pub open spec fn first_text(a: JsonValue, keys: Seq<Seq<char>>) -> Option<Seq<char>>
    decreases keys.len(),
{
    if keys.len() == 0 {
        None
    } else {
        match field_text(a, keys[0]) {
            Some(t) => Some(t),
            None => first_text(a, keys.drop_first()),
        }
    }
}

pub open spec fn summary_keys() -> Seq<Seq<char>> {
    seq!["summary"@, "task"@, "prompt"@, "objective"@, "description"@]
}

/// An agent entry; `None` when it has neither an id nor a label.
pub open spec fn agent_of(a: JsonValue) -> Option<AgentView> {
    let label = field_text(a, "label"@);
    let id = match field_text(a, "agent_id"@) {
        Some(i) => Some(i),
        None => label,
    };
    match id {
        None => None,
        Some(agent_id) => Some(
            AgentView {
                agent_id,
                label: text_or(label, agent_id),
                phase: field_text(a, "phase"@),
                state: text_or(json_get_str(a, "state"@), "running"@),
                summary: first_text(a, summary_keys()),
                tokens_used: json_get_u64(a, "tokens_used"@),
                duration_ms: json_get_u64(a, "duration_ms"@),
            },
        ),
    }
}

pub open spec fn agents_of(items: Seq<JsonValue>) -> Seq<AgentView>
    decreases items.len(),
{
    if items.len() == 0 {
        Seq::empty()
    } else {
        let rest = agents_of(items.drop_last());
        match agent_of(items.last()) {
            Some(a) => rest.push(a),
            None => rest,
        }
    }
}

/// Agents listed under `agents`, when that is an array.
pub open spec fn grok_agents_spec(update: JsonValue) -> Option<Seq<AgentView>> {
    match json_get(update, "agents"@) {
        Some(JsonValue::Array(items)) => Some(agents_of(items@)),
        _ => None,
    }
}

pub open spec fn is_finished_state(s: Seq<char>) -> bool {
    s == "done"@ || s == "failed"@ || s == "cancelled"@ || s == "canceled"@
}

pub open spec fn count_done(s: Seq<AgentView>) -> nat
    decreases s.len(),
{
    if s.len() == 0 {
        0
    } else {
        count_done(s.drop_last()) + if s.last().state == "done"@ {
            1nat
        } else {
            0nat
        }
    }
}

pub open spec fn count_unfinished(s: Seq<AgentView>) -> nat
    decreases s.len(),
{
    if s.len() == 0 {
        0
    } else {
        count_unfinished(s.drop_last()) + if is_finished_state(s.last().state) {
            0nat
        } else {
            1nat
        }
    }
}

/// `(done, running)`: agents in state `done`, and the larger of the
/// unfinished agents and `active_agents`, each cut to `u32`.
pub open spec fn agent_counts_spec(agents: Option<Seq<AgentView>>, active_agents: u64) -> (u32, u32) {
    let (done, unfinished) = match agents {
        Some(s) => (count_done(s), count_unfinished(s)),
        None => (0nat, 0nat),
    };
    let running = unfinished as u32;
    let active = active_agents as u32;
    (done as u32, if running >= active {
        running
    } else {
        active
    })
}

pub open spec fn u32_of(o: Option<u64>) -> Option<u32> {
    match o {
        Some(n) => Some(n as u32),
        None => None,
    }
}

/// The workflow update a Grok `workflow_updated` frame maps to.
pub open spec fn grok_delta_spec(run_id: Seq<char>, spawned: bool, update: JsonValue) -> DeltaView {
    let agents = grok_agents_spec(update);
    let active = match json_get_u64(update, "active_agents"@) {
        Some(n) => n,
        None => 0,
    };
    let counts = agent_counts_spec(agents, active);
    DeltaView {
        run_id,
        spawned,
        name: field_text(update, "name"@),
        objective: field_text(update, "objective"@),
        state: Some(grok_state(text_or(json_get_str(update, "status"@), Seq::empty()))),
        phases: match json_get(update, "phases"@) {
            Some(JsonValue::Array(items)) => Some(phases_of(items@)),
            _ => None,
        },
        current_phase: field_text(update, "current_phase"@),
        agents,
        agents_done: Some(counts.0),
        agents_running: Some(counts.1),
        agents_used: u32_of(json_get_u64(update, "agents_used"@)),
        agent_budget: u32_of(json_get_u64(update, "agent_budget"@)),
        agents_remaining: u32_of(json_get_u64(update, "agents_remaining"@)),
        elapsed_ms: json_get_u64(update, "elapsed_ms"@),
        last_event: field_text(update, "last_event"@),
        last_event_detail: field_text(update, "last_event_detail"@),
        can_stop: Some(false),
    }
}

/// Trimmed non-empty text under `key`.
pub fn opt_trim(v: &JsonValue, key: &str) -> (r: Option<String>)
    ensures
        opt_string_view(r) == field_text(*v, key@),
{
    match v.get_str(key) {
        Some(s) => trimmed_optional(Some(s.as_str())),
        None => None,
    }
}

fn text_or_default(v: &JsonValue, key: &str, default: &str) -> (r: String)
    ensures
        r@ == text_or(json_get_str(*v, key@), default@),
{
    match v.get_str(key) {
        Some(s) => s.clone(),
        None => default.to_owned(),
    }
}

fn phase_from(p: &JsonValue) -> (r: Option<WorkflowPhase>)
    ensures
        match r {
            Some(x) => phase_of(*p) == Some(x@),
            None => phase_of(*p) is None,
        },
{
    match opt_trim(p, "title") {
        None => None,
        Some(title) => Some(
            WorkflowPhase {
                title,
                detail: opt_trim(p, "detail"),
                state: text_or_default(p, "state", "pending"),
            },
        ),
    }
}

fn phases_from(items: &Vec<JsonValue>) -> (r: Vec<WorkflowPhase>)
    ensures
        r@.map_values(|x: WorkflowPhase| x@) == phases_of(items@),
{
    let mut out: Vec<WorkflowPhase> = Vec::new();
    let mut i: usize = 0;
    while i < items.len()
        invariant
            i <= items.len(),
            out@.map_values(|x: WorkflowPhase| x@) == phases_of(items@.take(i as int)),
        decreases items.len() - i,
    {
        let ghost before = out@;
        assert(items@.take(i + 1).drop_last() =~= items@.take(i as int));
        assert(items@.take(i + 1).last() == items@[i as int]);
        match phase_from(&items[i]) {
            Some(p) => {
                out.push(p);
                assert(out@.map_values(|x: WorkflowPhase| x@) =~= before.map_values(
                    |x: WorkflowPhase| x@,
                ).push(out@.last()@)) by {
                    assert(out@ == before.push(out@.last()));
                }
            },
            None => {},
        }
        i += 1;
    }
    assert(items@.take(items.len() as int) =~= items@);
    out
}

fn first_summary(a: &JsonValue) -> (r: Option<String>)
    ensures
        opt_string_view(r) == first_text(*a, summary_keys()),
{
    proof {
        reveal_with_fuel(first_text, 6);
    }
    let ghost k = summary_keys();
    assert(k.drop_first() =~= seq!["task"@, "prompt"@, "objective"@, "description"@]);
    assert(k.drop_first().drop_first() =~= seq!["prompt"@, "objective"@, "description"@]);
    assert(k.drop_first().drop_first().drop_first() =~= seq!["objective"@, "description"@]);
    assert(k.drop_first().drop_first().drop_first().drop_first() =~= seq!["description"@]);
    assert(k.drop_first().drop_first().drop_first().drop_first().drop_first() =~= Seq::<
        Seq<char>,
    >::empty());
    let s = opt_trim(a, "summary");
    if s.is_some() {
        return s;
    }
    let s = opt_trim(a, "task");
    if s.is_some() {
        return s;
    }
    let s = opt_trim(a, "prompt");
    if s.is_some() {
        return s;
    }
    let s = opt_trim(a, "objective");
    if s.is_some() {
        return s;
    }
    opt_trim(a, "description")
}

fn agent_from(a: &JsonValue) -> (r: Option<WorkflowAgent>)
    ensures
        match r {
            Some(x) => agent_of(*a) == Some(x@),
            None => agent_of(*a) is None,
        },
{
    let label = opt_trim(a, "label");
    let id = match opt_trim(a, "agent_id") {
        Some(i) => Some(i),
        None => clone_opt(&label),
    };
    match id {
        None => None,
        Some(agent_id) => {
            let label = match label {
                Some(l) => l,
                None => agent_id.clone(),
            };
            Some(
                WorkflowAgent {
                    agent_id,
                    label,
                    phase: opt_trim(a, "phase"),
                    state: text_or_default(a, "state", "running"),
                    summary: first_summary(a),
                    tokens_used: a.get_u64("tokens_used"),
                    duration_ms: a.get_u64("duration_ms"),
                },
            )
        },
    }
}

fn agents_from(items: &Vec<JsonValue>) -> (r: Vec<WorkflowAgent>)
    ensures
        r@.map_values(|x: WorkflowAgent| x@) == agents_of(items@),
{
    let mut out: Vec<WorkflowAgent> = Vec::new();
    let mut i: usize = 0;
    while i < items.len()
        invariant
            i <= items.len(),
            out@.map_values(|x: WorkflowAgent| x@) == agents_of(items@.take(i as int)),
        decreases items.len() - i,
    {
        let ghost before = out@;
        assert(items@.take(i + 1).drop_last() =~= items@.take(i as int));
        assert(items@.take(i + 1).last() == items@[i as int]);
        match agent_from(&items[i]) {
            Some(x) => {
                out.push(x);
                assert(out@.map_values(|x: WorkflowAgent| x@) =~= before.map_values(
                    |x: WorkflowAgent| x@,
                ).push(out@.last()@)) by {
                    assert(out@ == before.push(out@.last()));
                }
            },
            None => {},
        }
        i += 1;
    }
    assert(items@.take(items.len() as int) =~= items@);
    out
}

/// Agents listed under `agents`, when that is an array.
pub fn grok_agents(update: &JsonValue) -> (r: Option<Vec<WorkflowAgent>>)
    ensures
        opt_seq_view(r) == grok_agents_spec(*update),
{
    match update.get("agents") {
        Some(JsonValue::Array(items)) => Some(agents_from(items)),
        _ => None,
    }
}

/// `(done, running)` counts for the strip; see [`agent_counts_spec`].
pub fn agent_counts(agents: Option<&Vec<WorkflowAgent>>, active_agents: u64) -> (r: (u32, u32))
    ensures
        r == agent_counts_spec(
            match agents {
                Some(v) => Some(v@.map_values(|x: WorkflowAgent| x@)),
                None => None,
            },
            active_agents,
        ),
{
    let mut done: usize = 0;
    let mut unfinished: usize = 0;
    match agents {
        Some(list) => {
            let ghost s = list@.map_values(|x: WorkflowAgent| x@);
            let mut i: usize = 0;
            while i < list.len()
                invariant
                    i <= list.len(),
                    s == list@.map_values(|x: WorkflowAgent| x@),
                    done == count_done(s.take(i as int)),
                    unfinished == count_unfinished(s.take(i as int)),
                    done <= i,
                    unfinished <= i,
                decreases list.len() - i,
            {
                assert(s.take(i + 1).drop_last() =~= s.take(i as int));
                assert(s.take(i + 1).last() == list@[i as int]@);
                let st = list[i].state.as_str();
                if str_eq(st, "done") {
                    done += 1;
                }
                if !(str_eq(st, "done") || str_eq(st, "failed") || str_eq(st, "cancelled")
                    || str_eq(st, "canceled")) {
                    unfinished += 1;
                }
                i += 1;
            }
            assert(s.take(list.len() as int) =~= s);
        },
        None => {},
    }
    let running = unfinished as u32;
    let active = active_agents as u32;
    (done as u32, if running >= active {
        running
    } else {
        active
    })
}

fn u32_opt(o: Option<u64>) -> (r: Option<u32>)
    ensures
        r == u32_of(o),
{
    match o {
        Some(n) => Some(n as u32),
        None => None,
    }
}

/// Grok `workflow_updated` payload → [`WorkflowDelta`].
pub fn grok_delta(run_id: String, spawned: bool, update: &JsonValue) -> (r: WorkflowDelta)
    ensures
        r@ == grok_delta_spec(run_id@, spawned, *update),
{
    let status = text_or_default(update, "status", "");
    proof {
        reveal_strlit("");
    }
    let state = if string_eq(&status, "complete") || string_eq(&status, "completed") {
        "completed"
    } else if string_eq(&status, "failed") {
        "failed"
    } else if string_eq(&status, "cancelled") || string_eq(&status, "canceled") || string_eq(
        &status,
        "interrupted",
    ) {
        "stopped"
    } else if string_eq(&status, "paused") {
        "paused"
    } else {
        "running"
    };
    let current_phase = opt_trim(update, "current_phase");
    let phases = match update.get("phases") {
        Some(JsonValue::Array(items)) => Some(phases_from(items)),
        _ => None,
    };
    let agents = grok_agents(update);
    let active_agents = match update.get_u64("active_agents") {
        Some(n) => n,
        None => 0,
    };
    let (done, running) = agent_counts(agents.as_ref(), active_agents);
    let r = WorkflowDelta {
        run_id,
        spawned,
        name: opt_trim(update, "name"),
        objective: opt_trim(update, "objective"),
        state: Some(state.to_owned()),
        phases,
        current_phase,
        agents,
        agents_done: Some(done),
        agents_running: Some(running),
        agents_used: u32_opt(update.get_u64("agents_used")),
        agent_budget: u32_opt(update.get_u64("agent_budget")),
        agents_remaining: u32_opt(update.get_u64("agents_remaining")),
        elapsed_ms: update.get_u64("elapsed_ms"),
        last_event: opt_trim(update, "last_event"),
        last_event_detail: opt_trim(update, "last_event_detail"),
        can_stop: Some(false),
    };
    let ghost g = grok_delta_spec(run_id@, spawned, *update);
    assert(status@ == text_or(json_get_str(*update, "status"@), Seq::empty()));
    assert(state@ == grok_state(status@));
    assert(r@.state == g.state);
    assert(r@.phases == g.phases);
    assert(r@.agents == g.agents);
    assert(r@.agents_done == g.agents_done);
    assert(r@.agents_running == g.agents_running);
    r
}

/// Extension methods Grok publishes workflow updates on.
pub open spec fn is_grok_update_method(m: Seq<char>) -> bool {
    m == "_x.ai/session_notification"@ || m == "_x.ai/session/update"@
}

pub open spec fn seen_contains(seen: Seq<String>, id: Seq<char>) -> bool {
    exists|i: int| 0 <= i < seen.len() && #[trigger] seen[i]@ == id
}

/// Run id of a Grok frame that carries a workflow update, with the update.
pub open spec fn grok_frame(agent_type: AgentType, method: Seq<char>, params: JsonValue) -> Option<
    (Seq<char>, JsonValue),
> {
    if agent_type != AgentType::Grok || !is_grok_update_method(method) {
        None
    } else {
        match json_get(params, "update"@) {
            None => None,
            Some(update) => if json_get_str(update, "sessionUpdate"@) != Some(
                "workflow_updated"@,
            ) {
                None
            } else {
                match field_text(update, "run_id"@) {
                    None => None,
                    Some(run_id) => Some((run_id, update)),
                }
            },
        }
    }
}

fn seen_has(seen: &Vec<String>, id: &str) -> (r: bool)
    ensures
        r == seen_contains(seen@, id@),
{
    let mut i: usize = 0;
    while i < seen.len()
        invariant
            i <= seen.len(),
            forall|j: int| 0 <= j < i ==> #[trigger] seen@[j]@ != id@,
        decreases seen.len() - i,
    {
        if str_eq(seen[i].as_str(), id) {
            return true;
        }
        i += 1;
    }
    false
}

/// Grok `workflow_updated` → [`WorkflowDelta`]. `seen` holds the run ids
/// already announced on this connection, so only the first frame of a run is
/// `spawned`.
pub fn adapt_grok_workflow(
    agent_type: AgentType,
    method: &str,
    params: &JsonValue,
    seen: &mut Vec<String>,
) -> (r: Option<WorkflowDelta>)
    ensures
        match grok_frame(agent_type, method@, *params) {
            None => r is None && final(seen)@ == old(seen)@,
            Some((run_id, update)) => {
                let spawned = !seen_contains(old(seen)@, run_id);
                &&& r matches Some(d) && d@ == grok_delta_spec(run_id, spawned, update)
                &&& final(seen)@.map_values(|s: String| s@) == if spawned {
                    old(seen)@.map_values(|s: String| s@).push(run_id)
                } else {
                    old(seen)@.map_values(|s: String| s@)
                }
            },
        },
{
    if agent_type != AgentType::Grok {
        return None;
    }
    if !(str_eq(method, "_x.ai/session_notification") || str_eq(method, "_x.ai/session/update")) {
        return None;
    }
    let update = match params.get("update") {
        Some(u) => u,
        None => return None,
    };
    let kind_ok = match update.get_str("sessionUpdate") {
        Some(k) => str_eq(k.as_str(), "workflow_updated"),
        None => false,
    };
    if !kind_ok {
        return None;
    }
    let run_id = match opt_trim(update, "run_id") {
        Some(id) => id,
        None => return None,
    };
    let spawned = !seen_has(seen, run_id.as_str());
    if spawned {
        let ghost before = seen@;
        seen.push(run_id.clone());
        assert(seen@.map_values(|s: String| s@) =~= before.map_values(|s: String| s@).push(
            run_id@,
        ));
    }
    Some(grok_delta(run_id, spawned, update))
}

/// The status words a Grok workflow can end or pause with.
pub open spec fn settled_status(status: Seq<char>) -> bool {
    status == "complete"@ || status == "completed"@ || status == "failed"@ || status == "cancelled"@
        || status == "canceled"@ || status == "interrupted"@ || status == "paused"@
}

/// A workflow card's state follows the frame's `status`: `complete` or
/// `completed` is completed, `failed` is failed, `cancelled`, `canceled` or
/// `interrupted` is stopped, `paused` is paused; it is running exactly when
/// the status (absent reads as empty) is none of these.
pub proof fn lemma_grok_state_follows_status(run_id: Seq<char>, spawned: bool, update: JsonValue)
    ensures
        ({
            let status = text_or(json_get_str(update, "status"@), Seq::empty());
            let state = grok_delta_spec(run_id, spawned, update).state;
            &&& (status == "complete"@ || status == "completed"@) ==> state == Some("completed"@)
            &&& status == "failed"@ ==> state == Some("failed"@)
            &&& (status == "cancelled"@ || status == "canceled"@ || status == "interrupted"@)
                ==> state == Some("stopped"@)
            &&& status == "paused"@ ==> state == Some("paused"@)
            &&& (state == Some("running"@) <==> !settled_status(status))
        }),
{
    reveal_strlit("complete");
    reveal_strlit("completed");
    reveal_strlit("failed");
    reveal_strlit("cancelled");
    reveal_strlit("canceled");
    reveal_strlit("interrupted");
    reveal_strlit("paused");
    reveal_strlit("stopped");
    reveal_strlit("running");
    assert("failed"@[0] != "paused"@[0]);
    assert("complete"@[2] != "canceled"@[2]);
    assert("completed"@[2] != "cancelled"@[2]);
    assert("running"@[0] != "stopped"@[0]);
    assert("running"@.len() != "completed"@.len() && "running"@.len() != "failed"@.len()
        && "running"@.len() != "paused"@.len());
}

} // verus!
