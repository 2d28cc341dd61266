//! Tool-call phases and outcomes recorded in `_meta.codeg_native`, and the
//! ACP status each one shows as.

use vstd::prelude::*;

use crate::json::{
    json_get, lemma_field_view, lemma_jview_entries, lemma_vfield_push, object_field, vfield, json_get_str, jview, jview_entries, jview_items, lemma_jview_items, push_member, vget,
    vget_str, JsonValue, JsonView,
};
use crate::text::{decimal_seq, push_decimal, str_eq};

verus! {

pub const NATIVE_META_VERSION: u32 = 1;
pub const NATIVE_META_NS: &'static str = "codeg_native";

#[derive(Debug, Clone, Copy, PartialEq, Eq, Structural)]
pub enum ToolPhase {
    Pending,
    Started,
    Terminal,
}

#[derive(Debug, Clone, Copy, PartialEq, Eq, Structural)]
pub enum ToolOutcome {
    Success,
    Error,
    Timeout,
    Rejected,
    Cancelled,
    Unknown,
}

/// Where the full output of a tool call was spilled.
#[derive(Debug)]
pub struct OutputLocator {
    pub path: Option<String>,
    pub line: Option<u32>,
}

/// Model batch a set of parts and calls was committed in.
#[derive(Debug)]
pub struct ModelCommit {
    pub batch_id: String,
    pub parts: Vec<String>,
    pub call_ids: Vec<String>,
}

/// Derived two-level compression artifact. Original turns are never deleted.
#[derive(Debug)]
pub struct CompactRecord {
    pub level: u8,
    pub through_turn: String,
    pub summary: String,
    pub created_at_ms: u64,
}

/// Text of an optional string.
pub open spec fn ostr(o: Option<String>) -> Option<Seq<char>> {
    match o {
        Some(s) => Some(s@),
        None => None,
    }
}

/// Document of an optional JSON value.
pub open spec fn ojson(o: Option<JsonValue>) -> Option<JsonView> {
    match o {
        Some(x) => Some(jview(x)),
        None => None,
    }
}

/// Document of an optional borrowed JSON value.
pub open spec fn oview(o: Option<&JsonValue>) -> Option<JsonView> {
    match o {
        Some(x) => Some(jview(*x)),
        None => None,
    }
}

/// Appends member `k` when there is a value for it.
pub open spec fn opt_push(e: Seq<(Seq<char>, JsonView)>, k: Seq<char>, v: Option<JsonView>) -> Seq<
    (Seq<char>, JsonView),
> {
    match v {
        Some(x) => e.push((k, x)),
        None => e,
    }
}

pub open spec fn opt_str_ok(j: Option<JsonView>) -> bool {
    match j {
        None => true,
        Some(JsonView::Null) => true,
        Some(JsonView::Str(_)) => true,
        _ => false,
    }
}

pub open spec fn opt_str_val(j: Option<JsonView>) -> Option<Seq<char>> {
    match j {
        Some(JsonView::Str(s)) => Some(s),
        _ => None,
    }
}

pub open spec fn str_json(o: Option<Seq<char>>) -> Option<JsonView> {
    match o {
        Some(s) => Some(JsonView::Str(s)),
        None => None,
    }
}

pub open spec fn opt_u32_ok(j: Option<JsonView>) -> bool {
    match j {
        None => true,
        Some(JsonView::Null) => true,
        Some(JsonView::Number(n)) => n <= u32::MAX,
        _ => false,
    }
}

pub open spec fn opt_u32_val(j: Option<JsonView>) -> Option<u32> {
    match j {
        Some(JsonView::Number(n)) => Some(n as u32),
        _ => None,
    }
}

pub open spec fn u32_json(o: Option<u32>) -> Option<JsonView> {
    match o {
        Some(n) => Some(JsonView::Number(n as u64)),
        None => None,
    }
}

pub open spec fn opt_bool_ok(j: Option<JsonView>) -> bool {
    match j {
        None => true,
        Some(JsonView::Null) => true,
        Some(JsonView::Bool(_)) => true,
        _ => false,
    }
}

pub open spec fn opt_bool_val(j: Option<JsonView>) -> Option<bool> {
    match j {
        Some(JsonView::Bool(b)) => Some(b),
        _ => None,
    }
}

pub open spec fn bool_json(o: Option<bool>) -> Option<JsonView> {
    match o {
        Some(b) => Some(JsonView::Bool(b)),
        None => None,
    }
}

/// A free-form member: null and absence both read as nothing.
pub open spec fn opt_value(j: Option<JsonView>) -> Option<JsonView> {
    match j {
        None => None,
        Some(JsonView::Null) => None,
        Some(x) => Some(x),
    }
}

pub open spec fn value_json(o: Option<JsonView>) -> Option<JsonView> {
    o
}

pub open spec fn phase_name(p: ToolPhase) -> Seq<char> {
    match p {
        ToolPhase::Pending => "pending"@,
        ToolPhase::Started => "started"@,
        ToolPhase::Terminal => "terminal"@,
    }
}

pub open spec fn phase_from(s: Seq<char>) -> Option<ToolPhase> {
    if s == "pending"@ {
        Some(ToolPhase::Pending)
    } else if s == "started"@ {
        Some(ToolPhase::Started)
    } else if s == "terminal"@ {
        Some(ToolPhase::Terminal)
    } else {
        None
    }
}

pub open spec fn opt_phase_ok(j: Option<JsonView>) -> bool {
    match j {
        None => true,
        Some(JsonView::Null) => true,
        Some(JsonView::Str(s)) => phase_from(s) is Some,
        _ => false,
    }
}

pub open spec fn opt_phase_val(j: Option<JsonView>) -> Option<ToolPhase> {
    match j {
        Some(JsonView::Str(s)) => phase_from(s),
        _ => None,
    }
}

pub open spec fn phase_json(o: Option<ToolPhase>) -> Option<JsonView> {
    match o {
        Some(p) => Some(JsonView::Str(phase_name(p))),
        None => None,
    }
}

pub open spec fn outcome_name(o: ToolOutcome) -> Seq<char> {
    match o {
        ToolOutcome::Success => "success"@,
        ToolOutcome::Error => "error"@,
        ToolOutcome::Timeout => "timeout"@,
        ToolOutcome::Rejected => "rejected"@,
        ToolOutcome::Cancelled => "cancelled"@,
        ToolOutcome::Unknown => "unknown"@,
    }
}

pub open spec fn outcome_from(s: Seq<char>) -> Option<ToolOutcome> {
    if s == "success"@ {
        Some(ToolOutcome::Success)
    } else if s == "error"@ {
        Some(ToolOutcome::Error)
    } else if s == "timeout"@ {
        Some(ToolOutcome::Timeout)
    } else if s == "rejected"@ {
        Some(ToolOutcome::Rejected)
    } else if s == "cancelled"@ {
        Some(ToolOutcome::Cancelled)
    } else if s == "unknown"@ {
        Some(ToolOutcome::Unknown)
    } else {
        None
    }
}

pub open spec fn opt_outcome_ok(j: Option<JsonView>) -> bool {
    match j {
        None => true,
        Some(JsonView::Null) => true,
        Some(JsonView::Str(s)) => outcome_from(s) is Some,
        _ => false,
    }
}

pub open spec fn opt_outcome_val(j: Option<JsonView>) -> Option<ToolOutcome> {
    match j {
        Some(JsonView::Str(s)) => outcome_from(s),
        _ => None,
    }
}

pub open spec fn outcome_json(o: Option<ToolOutcome>) -> Option<JsonView> {
    match o {
        Some(x) => Some(JsonView::Str(outcome_name(x))),
        None => None,
    }
}

/// An [`OutputLocator`] as a mathematical value.
pub struct LocatorView {
    pub path: Option<Seq<char>>,
    pub line: Option<u32>,
}

impl View for OutputLocator {
    type V = LocatorView;

    open spec fn view(&self) -> LocatorView {
        LocatorView { path: ostr(self.path), line: self.line }
    }
}

pub open spec fn locator_ok(j: JsonView) -> bool {
    &&& j is Object
    &&& opt_str_ok(vget(j, "path"@))
    &&& opt_u32_ok(vget(j, "line"@))
}

pub open spec fn locator_val(j: JsonView) -> LocatorView {
    LocatorView { path: opt_str_val(vget(j, "path"@)), line: opt_u32_val(vget(j, "line"@)) }
}

pub open spec fn opt_locator_ok(j: Option<JsonView>) -> bool {
    match j {
        None => true,
        Some(JsonView::Null) => true,
        Some(x) => locator_ok(x),
    }
}

pub open spec fn opt_locator_val(j: Option<JsonView>) -> Option<LocatorView> {
    match j {
        None => None,
        Some(JsonView::Null) => None,
        Some(x) => Some(locator_val(x)),
    }
}

pub open spec fn locator_entries(l: LocatorView) -> Seq<(Seq<char>, JsonView)> {
    opt_push(opt_push(Seq::empty(), "path"@, str_json(l.path)), "line"@, u32_json(l.line))
}

pub open spec fn locator_json(o: Option<LocatorView>) -> Option<JsonView> {
    match o {
        Some(l) => Some(JsonView::Object(locator_entries(l))),
        None => None,
    }
}

/// A [`ModelCommit`] as a mathematical value.
pub struct CommitView {
    pub batch_id: Seq<char>,
    pub parts: Seq<Seq<char>>,
    pub call_ids: Seq<Seq<char>>,
}

pub open spec fn texts(v: Seq<String>) -> Seq<Seq<char>> {
    v.map_values(|s: String| s@)
}

impl View for ModelCommit {
    type V = CommitView;

    open spec fn view(&self) -> CommitView {
        CommitView {
            batch_id: self.batch_id@,
            parts: texts(self.parts@),
            call_ids: texts(self.call_ids@),
        }
    }
}

/// A list of strings; absent reads as empty.
pub open spec fn str_list_ok(j: Option<JsonView>) -> bool {
    match j {
        None => true,
        Some(JsonView::Array(items)) => forall|i: int| 0 <= i < items.len() ==> #[trigger] items[i] is Str,
        _ => false,
    }
}

pub open spec fn str_list_val(j: Option<JsonView>) -> Seq<Seq<char>> {
    match j {
        Some(JsonView::Array(items)) => items.map_values(|x: JsonView| x->Str_0),
        _ => Seq::empty(),
    }
}

/// A list member is written only when it is not empty.
pub open spec fn list_json(s: Seq<Seq<char>>) -> Option<JsonView> {
    if s.len() == 0 {
        None
    } else {
        Some(JsonView::Array(s.map_values(|x: Seq<char>| JsonView::Str(x))))
    }
}

pub open spec fn commit_ok(j: JsonView) -> bool {
    &&& j is Object
    &&& vget(j, "batch_id"@) matches Some(JsonView::Str(_))
    &&& str_list_ok(vget(j, "parts"@))
    &&& str_list_ok(vget(j, "call_ids"@))
}

pub open spec fn commit_val(j: JsonView) -> CommitView {
    CommitView {
        batch_id: vget_str(j, "batch_id"@).unwrap_or(Seq::empty()),
        parts: str_list_val(vget(j, "parts"@)),
        call_ids: str_list_val(vget(j, "call_ids"@)),
    }
}

pub open spec fn opt_commit_ok(j: Option<JsonView>) -> bool {
    match j {
        None => true,
        Some(JsonView::Null) => true,
        Some(x) => commit_ok(x),
    }
}

pub open spec fn opt_commit_val(j: Option<JsonView>) -> Option<CommitView> {
    match j {
        None => None,
        Some(JsonView::Null) => None,
        Some(x) => Some(commit_val(x)),
    }
}

pub open spec fn commit_entries(c: CommitView) -> Seq<(Seq<char>, JsonView)> {
    opt_push(
        opt_push(seq![("batch_id"@, JsonView::Str(c.batch_id))], "parts"@, list_json(c.parts)),
        "call_ids"@,
        list_json(c.call_ids),
    )
}

pub open spec fn commit_json(o: Option<CommitView>) -> Option<JsonView> {
    match o {
        Some(c) => Some(JsonView::Object(commit_entries(c))),
        None => None,
    }
}

/// A [`CompactRecord`] as a mathematical value.
pub struct CompactView {
    pub level: u8,
    pub through_turn: Seq<char>,
    pub summary: Seq<char>,
    pub created_at_ms: u64,
}

impl View for CompactRecord {
    type V = CompactView;

    open spec fn view(&self) -> CompactView {
        CompactView {
            level: self.level,
            through_turn: self.through_turn@,
            summary: self.summary@,
            created_at_ms: self.created_at_ms,
        }
    }
}

pub open spec fn compact_ok(j: JsonView) -> bool {
    &&& j is Object
    &&& vget(j, "level"@) matches Some(JsonView::Number(n)) && n <= u8::MAX
    &&& vget(j, "through_turn"@) matches Some(JsonView::Str(_))
    &&& vget(j, "summary"@) matches Some(JsonView::Str(_))
    &&& match vget(j, "created_at_ms"@) {
        None => true,
        Some(JsonView::Number(_)) => true,
        _ => false,
    }
}

pub open spec fn compact_val(j: JsonView) -> CompactView {
    CompactView {
        level: match vget(j, "level"@) {
            Some(JsonView::Number(n)) => n as u8,
            _ => 0,
        },
        through_turn: vget_str(j, "through_turn"@).unwrap_or(Seq::empty()),
        summary: vget_str(j, "summary"@).unwrap_or(Seq::empty()),
        created_at_ms: match vget(j, "created_at_ms"@) {
            Some(JsonView::Number(n)) => n,
            _ => 0,
        },
    }
}

pub open spec fn opt_compact_ok(j: Option<JsonView>) -> bool {
    match j {
        None => true,
        Some(JsonView::Null) => true,
        Some(x) => compact_ok(x),
    }
}

pub open spec fn opt_compact_val(j: Option<JsonView>) -> Option<CompactView> {
    match j {
        None => None,
        Some(JsonView::Null) => None,
        Some(x) => Some(compact_val(x)),
    }
}

pub open spec fn compact_entries(c: CompactView) -> Seq<(Seq<char>, JsonView)> {
    seq![
        ("level"@, JsonView::Number(c.level as u64)),
        ("through_turn"@, JsonView::Str(c.through_turn)),
        ("summary"@, JsonView::Str(c.summary)),
        ("created_at_ms"@, JsonView::Number(c.created_at_ms)),
    ]
}

pub open spec fn compact_json(o: Option<CompactView>) -> Option<JsonView> {
    match o {
        Some(c) => Some(JsonView::Object(compact_entries(c))),
        None => None,
    }
}

#[derive(Debug, PartialEq, Eq, Structural)]
pub enum NativeMetaError {
    UnsupportedVersion(u32),
    Malformed,
}

impl NativeMetaError {
    pub open spec fn message_spec(self) -> Seq<char> {
        match self {
            NativeMetaError::UnsupportedVersion(v) => "unsupported codeg_native metadata version "@
                + decimal_seq(v as nat),
            NativeMetaError::Malformed => "malformed codeg_native metadata"@,
        }
    }

    pub fn message(&self) -> (r: String)
        ensures
            r@ == self.message_spec(),
    {
        match self {
            NativeMetaError::UnsupportedVersion(v) => {
                let mut s = "unsupported codeg_native metadata version ".to_owned();
                push_decimal(&mut s, *v as u64);
                s
            },
            NativeMetaError::Malformed => "malformed codeg_native metadata".to_owned(),
        }
    }
}

/// The `_meta.codeg_native` record of one transcript update.
#[derive(Debug)]
pub struct NativeMeta {
    pub v: u32,
    pub turn_id: Option<String>,
    pub model_message_id: Option<String>,
    pub part_index: Option<u32>,
    pub batch_id: Option<String>,
    pub tool_call_id: Option<String>,
    pub function_name: Option<String>,
    pub raw_input: Option<JsonValue>,
    pub phase: Option<ToolPhase>,
    pub outcome: Option<ToolOutcome>,
    pub executed: Option<bool>,
    pub reason: Option<String>,
    pub model_presentation: Option<String>,
    pub truncated: Option<bool>,
    pub output_locator: Option<OutputLocator>,
    pub model_commit: Option<ModelCommit>,
    pub mcp_server_key: Option<String>,
    pub mcp_remote_name: Option<String>,
    pub compact: Option<CompactRecord>,
}

/// A [`NativeMeta`] as a mathematical value.
pub struct NativeMetaView {
    pub v: u32,
    pub turn_id: Option<Seq<char>>,
    pub model_message_id: Option<Seq<char>>,
    pub part_index: Option<u32>,
    pub batch_id: Option<Seq<char>>,
    pub tool_call_id: Option<Seq<char>>,
    pub function_name: Option<Seq<char>>,
    pub raw_input: Option<JsonView>,
    pub phase: Option<ToolPhase>,
    pub outcome: Option<ToolOutcome>,
    pub executed: Option<bool>,
    pub reason: Option<Seq<char>>,
    pub model_presentation: Option<Seq<char>>,
    pub truncated: Option<bool>,
    pub output_locator: Option<LocatorView>,
    pub model_commit: Option<CommitView>,
    pub mcp_server_key: Option<Seq<char>>,
    pub mcp_remote_name: Option<Seq<char>>,
    pub compact: Option<CompactView>,
}

impl View for NativeMeta {
    type V = NativeMetaView;

    open spec fn view(&self) -> NativeMetaView {
        NativeMetaView {
            v: self.v,
            turn_id: ostr(self.turn_id),
            model_message_id: ostr(self.model_message_id),
            part_index: self.part_index,
            batch_id: ostr(self.batch_id),
            tool_call_id: ostr(self.tool_call_id),
            function_name: ostr(self.function_name),
            raw_input: ojson(self.raw_input),
            phase: self.phase,
            outcome: self.outcome,
            executed: self.executed,
            reason: ostr(self.reason),
            model_presentation: ostr(self.model_presentation),
            truncated: self.truncated,
            output_locator: match self.output_locator { Some(x) => Some(x@), None => None },
            model_commit: match self.model_commit { Some(x) => Some(x@), None => None },
            mcp_server_key: ostr(self.mcp_server_key),
            mcp_remote_name: ostr(self.mcp_remote_name),
            compact: match self.compact { Some(x) => Some(x@), None => None },
        }
    }
}

/// Whether a `codeg_native` document is a well-formed record: an object
/// whose `v` is a `u32` and whose other known members, where present and not
/// null, have their type. Unknown members are ignored.
pub open spec fn meta_ok(j: JsonView) -> bool {
    &&& j is Object
    &&& vget(j, "v"@) matches Some(JsonView::Number(n)) && n <= u32::MAX
    &&& opt_str_ok(vget(j, "turn_id"@))
    &&& opt_str_ok(vget(j, "model_message_id"@))
    &&& opt_u32_ok(vget(j, "part_index"@))
    &&& opt_str_ok(vget(j, "batch_id"@))
    &&& opt_str_ok(vget(j, "tool_call_id"@))
    &&& opt_str_ok(vget(j, "function_name"@))
    &&& opt_phase_ok(vget(j, "phase"@))
    &&& opt_outcome_ok(vget(j, "outcome"@))
    &&& opt_bool_ok(vget(j, "executed"@))
    &&& opt_str_ok(vget(j, "reason"@))
    &&& opt_str_ok(vget(j, "model_presentation"@))
    &&& opt_bool_ok(vget(j, "truncated"@))
    &&& opt_locator_ok(vget(j, "output_locator"@))
    &&& opt_commit_ok(vget(j, "model_commit"@))
    &&& opt_str_ok(vget(j, "mcp_server_key"@))
    &&& opt_str_ok(vget(j, "mcp_remote_name"@))
    &&& opt_compact_ok(vget(j, "compact"@))
}

/// The record a well-formed `codeg_native` document holds.
pub open spec fn meta_val(j: JsonView) -> NativeMetaView {
    NativeMetaView {
        v: match vget(j, "v"@) {
            Some(JsonView::Number(n)) => n as u32,
            _ => 0,
        },
        turn_id: opt_str_val(vget(j, "turn_id"@)),
        model_message_id: opt_str_val(vget(j, "model_message_id"@)),
        part_index: opt_u32_val(vget(j, "part_index"@)),
        batch_id: opt_str_val(vget(j, "batch_id"@)),
        tool_call_id: opt_str_val(vget(j, "tool_call_id"@)),
        function_name: opt_str_val(vget(j, "function_name"@)),
        raw_input: opt_value(vget(j, "raw_input"@)),
        phase: opt_phase_val(vget(j, "phase"@)),
        outcome: opt_outcome_val(vget(j, "outcome"@)),
        executed: opt_bool_val(vget(j, "executed"@)),
        reason: opt_str_val(vget(j, "reason"@)),
        model_presentation: opt_str_val(vget(j, "model_presentation"@)),
        truncated: opt_bool_val(vget(j, "truncated"@)),
        output_locator: opt_locator_val(vget(j, "output_locator"@)),
        model_commit: opt_commit_val(vget(j, "model_commit"@)),
        mcp_server_key: opt_str_val(vget(j, "mcp_server_key"@)),
        mcp_remote_name: opt_str_val(vget(j, "mcp_remote_name"@)),
        compact: opt_compact_val(vget(j, "compact"@)),
    }
}

/// The members a record is written with: `v`, then each present field in
/// declaration order; absent fields are left out.
pub open spec fn native_entries(m: NativeMetaView) -> Seq<(Seq<char>, JsonView)> {
    let e = seq![("v"@, JsonView::Number(m.v as u64))];
    let e = opt_push(e, "turn_id"@, str_json(m.turn_id));
    let e = opt_push(e, "model_message_id"@, str_json(m.model_message_id));
    let e = opt_push(e, "part_index"@, u32_json(m.part_index));
    let e = opt_push(e, "batch_id"@, str_json(m.batch_id));
    let e = opt_push(e, "tool_call_id"@, str_json(m.tool_call_id));
    let e = opt_push(e, "function_name"@, str_json(m.function_name));
    let e = opt_push(e, "raw_input"@, value_json(m.raw_input));
    let e = opt_push(e, "phase"@, phase_json(m.phase));
    let e = opt_push(e, "outcome"@, outcome_json(m.outcome));
    let e = opt_push(e, "executed"@, bool_json(m.executed));
    let e = opt_push(e, "reason"@, str_json(m.reason));
    let e = opt_push(e, "model_presentation"@, str_json(m.model_presentation));
    let e = opt_push(e, "truncated"@, bool_json(m.truncated));
    let e = opt_push(e, "output_locator"@, locator_json(m.output_locator));
    let e = opt_push(e, "model_commit"@, commit_json(m.model_commit));
    let e = opt_push(e, "mcp_server_key"@, str_json(m.mcp_server_key));
    let e = opt_push(e, "mcp_remote_name"@, str_json(m.mcp_remote_name));
    let e = opt_push(e, "compact"@, compact_json(m.compact));
    e
}

/// Decodes a `codeg_native` document; `Malformed` when it is not well formed.
pub fn decode_native_meta(j: &JsonValue) -> (r: Result<NativeMeta, NativeMetaError>)
    ensures
        match r {
            Ok(m) => meta_ok(jview(*j)) && m@ == meta_val(jview(*j)),
            Err(e) => !meta_ok(jview(*j)) && e == NativeMetaError::Malformed,
        },
{
    match j {
        JsonValue::Object(_) => {},
        _ => return Err(NativeMetaError::Malformed),
    }
    let v: u32 = match j.get("v") {
        Some(JsonValue::Number(n)) => {
            if *n <= 4294967295u64 {
                *n as u32
            } else {
                return Err(NativeMetaError::Malformed);
            }
        },
        _ => return Err(NativeMetaError::Malformed),
    };
    let turn_id = match dec_str(j.get("turn_id")) {
        Ok(x) => x,
        Err(e) => return Err(e),
    };
    let model_message_id = match dec_str(j.get("model_message_id")) {
        Ok(x) => x,
        Err(e) => return Err(e),
    };
    let part_index = match dec_u32(j.get("part_index")) {
        Ok(x) => x,
        Err(e) => return Err(e),
    };
    let batch_id = match dec_str(j.get("batch_id")) {
        Ok(x) => x,
        Err(e) => return Err(e),
    };
    let tool_call_id = match dec_str(j.get("tool_call_id")) {
        Ok(x) => x,
        Err(e) => return Err(e),
    };
    let function_name = match dec_str(j.get("function_name")) {
        Ok(x) => x,
        Err(e) => return Err(e),
    };
    let raw_input = match dec_value(j.get("raw_input")) {
        Ok(x) => x,
        Err(e) => return Err(e),
    };
    let phase = match dec_phase(j.get("phase")) {
        Ok(x) => x,
        Err(e) => return Err(e),
    };
    let outcome = match dec_outcome(j.get("outcome")) {
        Ok(x) => x,
        Err(e) => return Err(e),
    };
    let executed = match dec_bool(j.get("executed")) {
        Ok(x) => x,
        Err(e) => return Err(e),
    };
    let reason = match dec_str(j.get("reason")) {
        Ok(x) => x,
        Err(e) => return Err(e),
    };
    let model_presentation = match dec_str(j.get("model_presentation")) {
        Ok(x) => x,
        Err(e) => return Err(e),
    };
    let truncated = match dec_bool(j.get("truncated")) {
        Ok(x) => x,
        Err(e) => return Err(e),
    };
    let output_locator = match dec_locator(j.get("output_locator")) {
        Ok(x) => x,
        Err(e) => return Err(e),
    };
    let model_commit = match dec_commit(j.get("model_commit")) {
        Ok(x) => x,
        Err(e) => return Err(e),
    };
    let mcp_server_key = match dec_str(j.get("mcp_server_key")) {
        Ok(x) => x,
        Err(e) => return Err(e),
    };
    let mcp_remote_name = match dec_str(j.get("mcp_remote_name")) {
        Ok(x) => x,
        Err(e) => return Err(e),
    };
    let compact = match dec_compact(j.get("compact")) {
        Ok(x) => x,
        Err(e) => return Err(e),
    };
    Ok(NativeMeta {
        v,
        turn_id,
        model_message_id,
        part_index,
        batch_id,
        tool_call_id,
        function_name,
        raw_input,
        phase,
        outcome,
        executed,
        reason,
        model_presentation,
        truncated,
        output_locator,
        model_commit,
        mcp_server_key,
        mcp_remote_name,
        compact,
    })
}

/// Writes a record as a `codeg_native` document, members as
/// [`native_entries`] lists them.
pub fn native_meta_json(m: &NativeMeta) -> (r: JsonValue)
    ensures
        jview(r) == JsonView::Object(native_entries(m@)),
{
    let mut es: Vec<(String, JsonValue)> = Vec::new();
    push_member(&mut es, "v", JsonValue::Number(m.v as u64));
    let ghost e = seq![("v"@, JsonView::Number(m.v as u64))];
    proof {
        assert(jview_entries(Seq::<(String, JsonValue)>::empty()) =~= Seq::<(Seq<char>, JsonView)>::empty());
        assert(jview_entries(es@) =~= e);
    }
    enc_str(&mut es, "turn_id", &m.turn_id);
    let ghost e = opt_push(e, "turn_id"@, str_json(m@.turn_id));
    assert(jview_entries(es@) == e);
    enc_str(&mut es, "model_message_id", &m.model_message_id);
    let ghost e = opt_push(e, "model_message_id"@, str_json(m@.model_message_id));
    assert(jview_entries(es@) == e);
    enc_u32(&mut es, "part_index", &m.part_index);
    let ghost e = opt_push(e, "part_index"@, u32_json(m@.part_index));
    assert(jview_entries(es@) == e);
    enc_str(&mut es, "batch_id", &m.batch_id);
    let ghost e = opt_push(e, "batch_id"@, str_json(m@.batch_id));
    assert(jview_entries(es@) == e);
    enc_str(&mut es, "tool_call_id", &m.tool_call_id);
    let ghost e = opt_push(e, "tool_call_id"@, str_json(m@.tool_call_id));
    assert(jview_entries(es@) == e);
    enc_str(&mut es, "function_name", &m.function_name);
    let ghost e = opt_push(e, "function_name"@, str_json(m@.function_name));
    assert(jview_entries(es@) == e);
    enc_value(&mut es, "raw_input", &m.raw_input);
    let ghost e = opt_push(e, "raw_input"@, value_json(m@.raw_input));
    assert(jview_entries(es@) == e);
    enc_phase(&mut es, "phase", &m.phase);
    let ghost e = opt_push(e, "phase"@, phase_json(m@.phase));
    assert(jview_entries(es@) == e);
    enc_outcome(&mut es, "outcome", &m.outcome);
    let ghost e = opt_push(e, "outcome"@, outcome_json(m@.outcome));
    assert(jview_entries(es@) == e);
    enc_bool(&mut es, "executed", &m.executed);
    let ghost e = opt_push(e, "executed"@, bool_json(m@.executed));
    assert(jview_entries(es@) == e);
    enc_str(&mut es, "reason", &m.reason);
    let ghost e = opt_push(e, "reason"@, str_json(m@.reason));
    assert(jview_entries(es@) == e);
    enc_str(&mut es, "model_presentation", &m.model_presentation);
    let ghost e = opt_push(e, "model_presentation"@, str_json(m@.model_presentation));
    assert(jview_entries(es@) == e);
    enc_bool(&mut es, "truncated", &m.truncated);
    let ghost e = opt_push(e, "truncated"@, bool_json(m@.truncated));
    assert(jview_entries(es@) == e);
    enc_locator(&mut es, "output_locator", &m.output_locator);
    let ghost e = opt_push(e, "output_locator"@, locator_json(m@.output_locator));
    assert(jview_entries(es@) == e);
    enc_commit(&mut es, "model_commit", &m.model_commit);
    let ghost e = opt_push(e, "model_commit"@, commit_json(m@.model_commit));
    assert(jview_entries(es@) == e);
    enc_str(&mut es, "mcp_server_key", &m.mcp_server_key);
    let ghost e = opt_push(e, "mcp_server_key"@, str_json(m@.mcp_server_key));
    assert(jview_entries(es@) == e);
    enc_str(&mut es, "mcp_remote_name", &m.mcp_remote_name);
    let ghost e = opt_push(e, "mcp_remote_name"@, str_json(m@.mcp_remote_name));
    assert(jview_entries(es@) == e);
    enc_compact(&mut es, "compact", &m.compact);
    let ghost e = opt_push(e, "compact"@, compact_json(m@.compact));
    assert(jview_entries(es@) == e);
    JsonValue::Object(es)
}


fn dec_str(j: Option<&JsonValue>) -> (r: Result<Option<String>, NativeMetaError>)
    ensures
        match r {
            Ok(o) => opt_str_ok(oview(j)) && ostr(o) == opt_str_val(oview(j)),
            Err(e) => !opt_str_ok(oview(j)) && e == NativeMetaError::Malformed,
        },
{
    match j {
        None => Ok(None),
        Some(JsonValue::Null) => Ok(None),
        Some(JsonValue::Str(s)) => Ok(Some(s.clone())),
        _ => Err(NativeMetaError::Malformed),
    }
}

fn dec_u32(j: Option<&JsonValue>) -> (r: Result<Option<u32>, NativeMetaError>)
    ensures
        match r {
            Ok(o) => opt_u32_ok(oview(j)) && o == opt_u32_val(oview(j)),
            Err(e) => !opt_u32_ok(oview(j)) && e == NativeMetaError::Malformed,
        },
{
    match j {
        None => Ok(None),
        Some(JsonValue::Null) => Ok(None),
        Some(JsonValue::Number(n)) => {
            if *n <= 4294967295u64 {
                Ok(Some(*n as u32))
            } else {
                Err(NativeMetaError::Malformed)
            }
        },
        _ => Err(NativeMetaError::Malformed),
    }
}

fn dec_bool(j: Option<&JsonValue>) -> (r: Result<Option<bool>, NativeMetaError>)
    ensures
        match r {
            Ok(o) => opt_bool_ok(oview(j)) && o == opt_bool_val(oview(j)),
            Err(e) => !opt_bool_ok(oview(j)) && e == NativeMetaError::Malformed,
        },
{
    match j {
        None => Ok(None),
        Some(JsonValue::Null) => Ok(None),
        Some(JsonValue::Bool(b)) => Ok(Some(*b)),
        _ => Err(NativeMetaError::Malformed),
    }
}

fn dec_value(j: Option<&JsonValue>) -> (r: Result<Option<JsonValue>, NativeMetaError>)
    ensures
        r matches Ok(o) && ojson(o) == opt_value(oview(j)),
{
    match j {
        None => Ok(None),
        Some(JsonValue::Null) => Ok(None),
        Some(x) => Ok(Some(x.deep_copy())),
    }
}

fn dec_phase(j: Option<&JsonValue>) -> (r: Result<Option<ToolPhase>, NativeMetaError>)
    ensures
        match r {
            Ok(o) => opt_phase_ok(oview(j)) && o == opt_phase_val(oview(j)),
            Err(e) => !opt_phase_ok(oview(j)) && e == NativeMetaError::Malformed,
        },
{
    match j {
        None => Ok(None),
        Some(JsonValue::Null) => Ok(None),
        Some(JsonValue::Str(s)) => {
            let t = s.as_str();
            if str_eq(t, "pending") {
                Ok(Some(ToolPhase::Pending))
            } else if str_eq(t, "started") {
                Ok(Some(ToolPhase::Started))
            } else if str_eq(t, "terminal") {
                Ok(Some(ToolPhase::Terminal))
            } else {
                Err(NativeMetaError::Malformed)
            }
        },
        _ => Err(NativeMetaError::Malformed),
    }
}

fn dec_outcome(j: Option<&JsonValue>) -> (r: Result<Option<ToolOutcome>, NativeMetaError>)
    ensures
        match r {
            Ok(o) => opt_outcome_ok(oview(j)) && o == opt_outcome_val(oview(j)),
            Err(e) => !opt_outcome_ok(oview(j)) && e == NativeMetaError::Malformed,
        },
{
    match j {
        None => Ok(None),
        Some(JsonValue::Null) => Ok(None),
        Some(JsonValue::Str(s)) => {
            let t = s.as_str();
            if str_eq(t, "success") {
                Ok(Some(ToolOutcome::Success))
            } else if str_eq(t, "error") {
                Ok(Some(ToolOutcome::Error))
            } else if str_eq(t, "timeout") {
                Ok(Some(ToolOutcome::Timeout))
            } else if str_eq(t, "rejected") {
                Ok(Some(ToolOutcome::Rejected))
            } else if str_eq(t, "cancelled") {
                Ok(Some(ToolOutcome::Cancelled))
            } else if str_eq(t, "unknown") {
                Ok(Some(ToolOutcome::Unknown))
            } else {
                Err(NativeMetaError::Malformed)
            }
        },
        _ => Err(NativeMetaError::Malformed),
    }
}

fn dec_locator(j: Option<&JsonValue>) -> (r: Result<Option<OutputLocator>, NativeMetaError>)
    ensures
        match r {
            Ok(o) => opt_locator_ok(oview(j)) && (match o {
                Some(l) => Some(l@),
                None => None,
            }) == opt_locator_val(oview(j)),
            Err(e) => !opt_locator_ok(oview(j)) && e == NativeMetaError::Malformed,
        },
{
    match j {
        None => Ok(None),
        Some(JsonValue::Null) => Ok(None),
        Some(x) => {
            match x {
                JsonValue::Object(_) => {},
                _ => return Err(NativeMetaError::Malformed),
            }
            let path = match dec_str(x.get("path")) {
                Ok(p) => p,
                Err(e) => return Err(e),
            };
            let line = match dec_u32(x.get("line")) {
                Ok(l) => l,
                Err(e) => return Err(e),
            };
            Ok(Some(OutputLocator { path, line }))
        },
    }
}

fn dec_str_list(j: Option<&JsonValue>) -> (r: Result<Vec<String>, NativeMetaError>)
    ensures
        match r {
            Ok(v) => str_list_ok(oview(j)) && texts(v@) == str_list_val(oview(j)),
            Err(e) => !str_list_ok(oview(j)) && e == NativeMetaError::Malformed,
        },
{
    match j {
        None => Ok(Vec::new()),
        Some(JsonValue::Array(items)) => {
            let ghost iv = jview_items(items@);
            proof {
                lemma_jview_items(items@);
            }
            let mut out: Vec<String> = Vec::new();
            let mut i: usize = 0;
            while i < items.len()
                invariant
                    i <= items.len(),
                    out.len() == i,
                    iv == jview_items(items@),
                    oview(j) == Some(JsonView::Array(iv)),
                    iv.len() == items.len(),
                    forall|k: int| 0 <= k < items.len() ==> #[trigger] iv[k] == jview(items@[k]),
                    forall|k: int| 0 <= k < i ==> #[trigger] iv[k] is Str,
                    forall|k: int| 0 <= k < i ==> (#[trigger] out@[k])@ == iv[k]->Str_0,
                decreases items.len() - i,
            {
                match &items[i] {
                    JsonValue::Str(s) => {
                        out.push(s.clone());
                    },
                    _ => {
                        assert(!(iv[i as int] is Str));
                        assert(oview(j) == Some(JsonView::Array(iv)));
                        assert(!str_list_ok(oview(j)));
                        return Err(NativeMetaError::Malformed);
                    },
                }
                i += 1;
            }
            assert(texts(out@) =~= iv.map_values(|x: JsonView| x->Str_0));
            Ok(out)
        },
        _ => Err(NativeMetaError::Malformed),
    }
}

fn dec_commit(j: Option<&JsonValue>) -> (r: Result<Option<ModelCommit>, NativeMetaError>)
    ensures
        match r {
            Ok(o) => opt_commit_ok(oview(j)) && (match o {
                Some(c) => Some(c@),
                None => None,
            }) == opt_commit_val(oview(j)),
            Err(e) => !opt_commit_ok(oview(j)) && e == NativeMetaError::Malformed,
        },
{
    match j {
        None => Ok(None),
        Some(JsonValue::Null) => Ok(None),
        Some(x) => {
            match x {
                JsonValue::Object(_) => {},
                _ => return Err(NativeMetaError::Malformed),
            }
            let batch_id = match x.get("batch_id") {
                Some(JsonValue::Str(s)) => s.clone(),
                _ => return Err(NativeMetaError::Malformed),
            };
            let parts = match dec_str_list(x.get("parts")) {
                Ok(p) => p,
                Err(e) => return Err(e),
            };
            let call_ids = match dec_str_list(x.get("call_ids")) {
                Ok(p) => p,
                Err(e) => return Err(e),
            };
            Ok(Some(ModelCommit { batch_id, parts, call_ids }))
        },
    }
}

fn dec_compact(j: Option<&JsonValue>) -> (r: Result<Option<CompactRecord>, NativeMetaError>)
    ensures
        match r {
            Ok(o) => opt_compact_ok(oview(j)) && (match o {
                Some(c) => Some(c@),
                None => None,
            }) == opt_compact_val(oview(j)),
            Err(e) => !opt_compact_ok(oview(j)) && e == NativeMetaError::Malformed,
        },
{
    match j {
        None => Ok(None),
        Some(JsonValue::Null) => Ok(None),
        Some(x) => {
            match x {
                JsonValue::Object(_) => {},
                _ => return Err(NativeMetaError::Malformed),
            }
            let level: u8 = match x.get("level") {
                Some(JsonValue::Number(n)) => {
                    if *n <= 255u64 {
                        *n as u8
                    } else {
                        return Err(NativeMetaError::Malformed);
                    }
                },
                _ => return Err(NativeMetaError::Malformed),
            };
            let through_turn = match x.get("through_turn") {
                Some(JsonValue::Str(s)) => s.clone(),
                _ => return Err(NativeMetaError::Malformed),
            };
            let summary = match x.get("summary") {
                Some(JsonValue::Str(s)) => s.clone(),
                _ => return Err(NativeMetaError::Malformed),
            };
            let created_at_ms: u64 = match x.get("created_at_ms") {
                None => 0,
                Some(JsonValue::Number(n)) => *n,
                _ => return Err(NativeMetaError::Malformed),
            };
            Ok(Some(CompactRecord { level, through_turn, summary, created_at_ms }))
        },
    }
}

fn enc_str(es: &mut Vec<(String, JsonValue)>, key: &str, o: &Option<String>)
    ensures
        jview_entries(final(es)@) == opt_push(jview_entries(old(es)@), key@, str_json(ostr(*o))),
{
    match o {
        Some(s) => push_member(es, key, JsonValue::Str(s.clone())),
        None => {},
    }
}

fn enc_u32(es: &mut Vec<(String, JsonValue)>, key: &str, o: &Option<u32>)
    ensures
        jview_entries(final(es)@) == opt_push(jview_entries(old(es)@), key@, u32_json(*o)),
{
    match o {
        Some(n) => push_member(es, key, JsonValue::Number(*n as u64)),
        None => {},
    }
}

fn enc_bool(es: &mut Vec<(String, JsonValue)>, key: &str, o: &Option<bool>)
    ensures
        jview_entries(final(es)@) == opt_push(jview_entries(old(es)@), key@, bool_json(*o)),
{
    match o {
        Some(b) => push_member(es, key, JsonValue::Bool(*b)),
        None => {},
    }
}

fn enc_value(es: &mut Vec<(String, JsonValue)>, key: &str, o: &Option<JsonValue>)
    ensures
        jview_entries(final(es)@) == opt_push(jview_entries(old(es)@), key@, value_json(ojson(*o))),
{
    match o {
        Some(x) => push_member(es, key, x.deep_copy()),
        None => {},
    }
}

fn phase_text(p: ToolPhase) -> (r: &'static str)
    ensures
        r@ == phase_name(p),
{
    match p {
        ToolPhase::Pending => "pending",
        ToolPhase::Started => "started",
        ToolPhase::Terminal => "terminal",
    }
}

fn outcome_text(o: ToolOutcome) -> (r: &'static str)
    ensures
        r@ == outcome_name(o),
{
    match o {
        ToolOutcome::Success => "success",
        ToolOutcome::Error => "error",
        ToolOutcome::Timeout => "timeout",
        ToolOutcome::Rejected => "rejected",
        ToolOutcome::Cancelled => "cancelled",
        ToolOutcome::Unknown => "unknown",
    }
}

fn enc_phase(es: &mut Vec<(String, JsonValue)>, key: &str, o: &Option<ToolPhase>)
    ensures
        jview_entries(final(es)@) == opt_push(jview_entries(old(es)@), key@, phase_json(*o)),
{
    match o {
        Some(p) => push_member(es, key, JsonValue::Str(phase_text(*p).to_owned())),
        None => {},
    }
}

fn enc_outcome(es: &mut Vec<(String, JsonValue)>, key: &str, o: &Option<ToolOutcome>)
    ensures
        jview_entries(final(es)@) == opt_push(jview_entries(old(es)@), key@, outcome_json(*o)),
{
    match o {
        Some(x) => push_member(es, key, JsonValue::Str(outcome_text(*x).to_owned())),
        None => {},
    }
}

fn enc_locator(es: &mut Vec<(String, JsonValue)>, key: &str, o: &Option<OutputLocator>)
    ensures
        jview_entries(final(es)@) == opt_push(
            jview_entries(old(es)@),
            key@,
            locator_json(
                match *o {
                    Some(l) => Some(l@),
                    None => None,
                },
            ),
        ),
{
    match o {
        Some(l) => {
            let mut inner: Vec<(String, JsonValue)> = Vec::new();
            proof {
                assert(jview_entries(inner@) =~= Seq::<(Seq<char>, JsonView)>::empty());
            }
            enc_str(&mut inner, "path", &l.path);
            enc_u32(&mut inner, "line", &l.line);
            push_member(es, key, JsonValue::Object(inner));
        },
        None => {},
    }
}

fn enc_list(es: &mut Vec<(String, JsonValue)>, key: &str, v: &Vec<String>)
    ensures
        jview_entries(final(es)@) == opt_push(jview_entries(old(es)@), key@, list_json(texts(v@))),
{
    if v.len() == 0 {
        return;
    }
    let mut items: Vec<JsonValue> = Vec::new();
    let mut i: usize = 0;
    while i < v.len()
        invariant
            i <= v.len(),
            items.len() == i,
            forall|k: int| 0 <= k < i ==> jview(#[trigger] items@[k]) == JsonView::Str(v@[k]@),
        decreases v.len() - i,
    {
        items.push(JsonValue::Str(v[i].clone()));
        i += 1;
    }
    proof {
        lemma_jview_items(items@);
        assert(jview_items(items@) =~= texts(v@).map_values(|x: Seq<char>| JsonView::Str(x)));
    }
    push_member(es, key, JsonValue::Array(items));
}

fn enc_commit(es: &mut Vec<(String, JsonValue)>, key: &str, o: &Option<ModelCommit>)
    ensures
        jview_entries(final(es)@) == opt_push(
            jview_entries(old(es)@),
            key@,
            commit_json(
                match *o {
                    Some(c) => Some(c@),
                    None => None,
                },
            ),
        ),
{
    match o {
        Some(c) => {
            let mut inner: Vec<(String, JsonValue)> = Vec::new();
            proof {
                assert(jview_entries(inner@) =~= Seq::<(Seq<char>, JsonView)>::empty());
            }
            push_member(&mut inner, "batch_id", JsonValue::Str(c.batch_id.clone()));
            enc_list(&mut inner, "parts", &c.parts);
            enc_list(&mut inner, "call_ids", &c.call_ids);
            proof {
                assert(seq![("batch_id"@, JsonView::Str(c.batch_id@))] =~= Seq::<
                    (Seq<char>, JsonView),
                >::empty().push(("batch_id"@, JsonView::Str(c.batch_id@))));
            }
            push_member(es, key, JsonValue::Object(inner));
        },
        None => {},
    }
}

fn enc_compact(es: &mut Vec<(String, JsonValue)>, key: &str, o: &Option<CompactRecord>)
    ensures
        jview_entries(final(es)@) == opt_push(
            jview_entries(old(es)@),
            key@,
            compact_json(
                match *o {
                    Some(c) => Some(c@),
                    None => None,
                },
            ),
        ),
{
    match o {
        Some(c) => {
            let mut inner: Vec<(String, JsonValue)> = Vec::new();
            proof {
                assert(jview_entries(inner@) =~= Seq::<(Seq<char>, JsonView)>::empty());
            }
            push_member(&mut inner, "level", JsonValue::Number(c.level as u64));
            push_member(&mut inner, "through_turn", JsonValue::Str(c.through_turn.clone()));
            push_member(&mut inner, "summary", JsonValue::Str(c.summary.clone()));
            push_member(&mut inner, "created_at_ms", JsonValue::Number(c.created_at_ms));
            proof {
                assert(jview_entries(inner@) =~= compact_entries(c@));
            }
            push_member(es, key, JsonValue::Object(inner));
        },
        None => {},
    }
}

pub proof fn lemma_vfield_opt_push_at(
    e: Seq<(Seq<char>, JsonView)>,
    k: Seq<char>,
    v: Option<JsonView>,
    key: Seq<char>,
)
    ensures
        vfield(opt_push(e, k, v), key) == (match vfield(e, key) {
            Some(x) => Some(x),
            None => if k == key {
                v
            } else {
                None
            },
        }),
{
    lemma_vfield_opt_push(e, k, v);
}

/// Looking a key up after [`opt_push`].
pub proof fn lemma_vfield_opt_push(e: Seq<(Seq<char>, JsonView)>, k: Seq<char>, v: Option<JsonView>)
    ensures
        forall|key: Seq<char>| #[trigger] vfield(Seq::<(Seq<char>, JsonView)>::empty(), key) is None,
        forall|key: Seq<char>|
            #[trigger] vfield(opt_push(e, k, v), key) == (match vfield(e, key) {
                Some(x) => Some(x),
                None => if k == key {
                    v
                } else {
                    None
                },
            }),
{
    assert forall|key: Seq<char>|
        #[trigger] vfield(opt_push(e, k, v), key) == (match vfield(e, key) {
            Some(x) => Some(x),
            None => if k == key {
                v
            } else {
                None
            },
        }) by {
        if let Some(x) = v {
            lemma_vfield_push(e, (k, x), key);
        }
    }
}

/// The member names of a record differ in length or in their first letter.
proof fn lemma_native_key_names()
    ensures
        "v"@.len() == 1,
        "v"@[0] == 'v',
        "turn_id"@.len() == 7,
        "turn_id"@[0] == 't',
        "model_message_id"@.len() == 16,
        "model_message_id"@[0] == 'm',
        "part_index"@.len() == 10,
        "part_index"@[0] == 'p',
        "batch_id"@.len() == 8,
        "batch_id"@[0] == 'b',
        "tool_call_id"@.len() == 12,
        "tool_call_id"@[0] == 't',
        "function_name"@.len() == 13,
        "function_name"@[0] == 'f',
        "raw_input"@.len() == 9,
        "raw_input"@[0] == 'r',
        "phase"@.len() == 5,
        "phase"@[0] == 'p',
        "outcome"@.len() == 7,
        "outcome"@[0] == 'o',
        "executed"@.len() == 8,
        "executed"@[0] == 'e',
        "reason"@.len() == 6,
        "reason"@[0] == 'r',
        "model_presentation"@.len() == 18,
        "model_presentation"@[0] == 'm',
        "truncated"@.len() == 9,
        "truncated"@[0] == 't',
        "output_locator"@.len() == 14,
        "output_locator"@[0] == 'o',
        "model_commit"@.len() == 12,
        "model_commit"@[0] == 'm',
        "mcp_server_key"@.len() == 14,
        "mcp_server_key"@[0] == 'm',
        "mcp_remote_name"@.len() == 15,
        "mcp_remote_name"@[0] == 'm',
        "compact"@.len() == 7,
        "compact"@[0] == 'c',
{
    reveal_strlit("v");
    assert("v"@[0] == 'v');
    assert("v"@.len() == 1);
    reveal_strlit("turn_id");
    assert("turn_id"@[0] == 't');
    assert("turn_id"@.len() == 7);
    reveal_strlit("model_message_id");
    assert("model_message_id"@[0] == 'm');
    assert("model_message_id"@.len() == 16);
    reveal_strlit("part_index");
    assert("part_index"@[0] == 'p');
    assert("part_index"@.len() == 10);
    reveal_strlit("batch_id");
    assert("batch_id"@[0] == 'b');
    assert("batch_id"@.len() == 8);
    reveal_strlit("tool_call_id");
    assert("tool_call_id"@[0] == 't');
    assert("tool_call_id"@.len() == 12);
    reveal_strlit("function_name");
    assert("function_name"@[0] == 'f');
    assert("function_name"@.len() == 13);
    reveal_strlit("raw_input");
    assert("raw_input"@[0] == 'r');
    assert("raw_input"@.len() == 9);
    reveal_strlit("phase");
    assert("phase"@[0] == 'p');
    assert("phase"@.len() == 5);
    reveal_strlit("outcome");
    assert("outcome"@[0] == 'o');
    assert("outcome"@.len() == 7);
    reveal_strlit("executed");
    assert("executed"@[0] == 'e');
    assert("executed"@.len() == 8);
    reveal_strlit("reason");
    assert("reason"@[0] == 'r');
    assert("reason"@.len() == 6);
    reveal_strlit("model_presentation");
    assert("model_presentation"@[0] == 'm');
    assert("model_presentation"@.len() == 18);
    reveal_strlit("truncated");
    assert("truncated"@[0] == 't');
    assert("truncated"@.len() == 9);
    reveal_strlit("output_locator");
    assert("output_locator"@[0] == 'o');
    assert("output_locator"@.len() == 14);
    reveal_strlit("model_commit");
    assert("model_commit"@[0] == 'm');
    assert("model_commit"@.len() == 12);
    reveal_strlit("mcp_server_key");
    assert("mcp_server_key"@[0] == 'm');
    assert("mcp_server_key"@.len() == 14);
    reveal_strlit("mcp_remote_name");
    assert("mcp_remote_name"@[0] == 'm');
    assert("mcp_remote_name"@.len() == 15);
    reveal_strlit("compact");
    assert("compact"@[0] == 'c');
    assert("compact"@.len() == 7);
}

proof fn lemma_native_key_v(m: NativeMetaView)
    ensures
        vfield(native_entries(m), "v"@) == Some(JsonView::Number(m.v as u64)),
{
    lemma_native_key_names();
    let e0 = Seq::<(Seq<char>, JsonView)>::empty().push(("v"@, JsonView::Number(m.v as u64)));
    let e1 = opt_push(e0, "turn_id"@, str_json(m.turn_id));
    let e2 = opt_push(e1, "model_message_id"@, str_json(m.model_message_id));
    let e3 = opt_push(e2, "part_index"@, u32_json(m.part_index));
    let e4 = opt_push(e3, "batch_id"@, str_json(m.batch_id));
    let e5 = opt_push(e4, "tool_call_id"@, str_json(m.tool_call_id));
    let e6 = opt_push(e5, "function_name"@, str_json(m.function_name));
    let e7 = opt_push(e6, "raw_input"@, value_json(m.raw_input));
    let e8 = opt_push(e7, "phase"@, phase_json(m.phase));
    let e9 = opt_push(e8, "outcome"@, outcome_json(m.outcome));
    let e10 = opt_push(e9, "executed"@, bool_json(m.executed));
    let e11 = opt_push(e10, "reason"@, str_json(m.reason));
    let e12 = opt_push(e11, "model_presentation"@, str_json(m.model_presentation));
    let e13 = opt_push(e12, "truncated"@, bool_json(m.truncated));
    let e14 = opt_push(e13, "output_locator"@, locator_json(m.output_locator));
    let e15 = opt_push(e14, "model_commit"@, commit_json(m.model_commit));
    let e16 = opt_push(e15, "mcp_server_key"@, str_json(m.mcp_server_key));
    let e17 = opt_push(e16, "mcp_remote_name"@, str_json(m.mcp_remote_name));
    let e18 = opt_push(e17, "compact"@, compact_json(m.compact));
    assert(vfield(e0, "v"@) == Some(JsonView::Number(m.v as u64))) by {
        lemma_vfield_opt_push_at(Seq::empty(), "v"@, Some(JsonView::Number(m.v as u64)), "v"@);
    }
    assert(vfield(e1, "v"@) == Some(JsonView::Number(m.v as u64))) by {
        lemma_vfield_opt_push_at(e0, "turn_id"@, str_json(m.turn_id), "v"@);
    }
    assert(vfield(e2, "v"@) == Some(JsonView::Number(m.v as u64))) by {
        lemma_vfield_opt_push_at(e1, "model_message_id"@, str_json(m.model_message_id), "v"@);
    }
    assert(vfield(e3, "v"@) == Some(JsonView::Number(m.v as u64))) by {
        lemma_vfield_opt_push_at(e2, "part_index"@, u32_json(m.part_index), "v"@);
    }
    assert(vfield(e4, "v"@) == Some(JsonView::Number(m.v as u64))) by {
        lemma_vfield_opt_push_at(e3, "batch_id"@, str_json(m.batch_id), "v"@);
    }
    assert(vfield(e5, "v"@) == Some(JsonView::Number(m.v as u64))) by {
        lemma_vfield_opt_push_at(e4, "tool_call_id"@, str_json(m.tool_call_id), "v"@);
    }
    assert(vfield(e6, "v"@) == Some(JsonView::Number(m.v as u64))) by {
        lemma_vfield_opt_push_at(e5, "function_name"@, str_json(m.function_name), "v"@);
    }
    assert(vfield(e7, "v"@) == Some(JsonView::Number(m.v as u64))) by {
        lemma_vfield_opt_push_at(e6, "raw_input"@, value_json(m.raw_input), "v"@);
    }
    assert(vfield(e8, "v"@) == Some(JsonView::Number(m.v as u64))) by {
        lemma_vfield_opt_push_at(e7, "phase"@, phase_json(m.phase), "v"@);
    }
    assert(vfield(e9, "v"@) == Some(JsonView::Number(m.v as u64))) by {
        lemma_vfield_opt_push_at(e8, "outcome"@, outcome_json(m.outcome), "v"@);
    }
    assert(vfield(e10, "v"@) == Some(JsonView::Number(m.v as u64))) by {
        lemma_vfield_opt_push_at(e9, "executed"@, bool_json(m.executed), "v"@);
    }
    assert(vfield(e11, "v"@) == Some(JsonView::Number(m.v as u64))) by {
        lemma_vfield_opt_push_at(e10, "reason"@, str_json(m.reason), "v"@);
    }
    assert(vfield(e12, "v"@) == Some(JsonView::Number(m.v as u64))) by {
        lemma_vfield_opt_push_at(e11, "model_presentation"@, str_json(m.model_presentation), "v"@);
    }
    assert(vfield(e13, "v"@) == Some(JsonView::Number(m.v as u64))) by {
        lemma_vfield_opt_push_at(e12, "truncated"@, bool_json(m.truncated), "v"@);
    }
    assert(vfield(e14, "v"@) == Some(JsonView::Number(m.v as u64))) by {
        lemma_vfield_opt_push_at(e13, "output_locator"@, locator_json(m.output_locator), "v"@);
    }
    assert(vfield(e15, "v"@) == Some(JsonView::Number(m.v as u64))) by {
        lemma_vfield_opt_push_at(e14, "model_commit"@, commit_json(m.model_commit), "v"@);
    }
    assert(vfield(e16, "v"@) == Some(JsonView::Number(m.v as u64))) by {
        lemma_vfield_opt_push_at(e15, "mcp_server_key"@, str_json(m.mcp_server_key), "v"@);
    }
    assert(vfield(e17, "v"@) == Some(JsonView::Number(m.v as u64))) by {
        lemma_vfield_opt_push_at(e16, "mcp_remote_name"@, str_json(m.mcp_remote_name), "v"@);
    }
    assert(vfield(e18, "v"@) == Some(JsonView::Number(m.v as u64))) by {
        lemma_vfield_opt_push_at(e17, "compact"@, compact_json(m.compact), "v"@);
    }
    assert(e18 =~= native_entries(m));
}

proof fn lemma_native_key_turn_id(m: NativeMetaView)
    ensures
        vfield(native_entries(m), "turn_id"@) == str_json(m.turn_id),
{
    lemma_native_key_names();
    let e0 = Seq::<(Seq<char>, JsonView)>::empty().push(("v"@, JsonView::Number(m.v as u64)));
    let e1 = opt_push(e0, "turn_id"@, str_json(m.turn_id));
    let e2 = opt_push(e1, "model_message_id"@, str_json(m.model_message_id));
    let e3 = opt_push(e2, "part_index"@, u32_json(m.part_index));
    let e4 = opt_push(e3, "batch_id"@, str_json(m.batch_id));
    let e5 = opt_push(e4, "tool_call_id"@, str_json(m.tool_call_id));
    let e6 = opt_push(e5, "function_name"@, str_json(m.function_name));
    let e7 = opt_push(e6, "raw_input"@, value_json(m.raw_input));
    let e8 = opt_push(e7, "phase"@, phase_json(m.phase));
    let e9 = opt_push(e8, "outcome"@, outcome_json(m.outcome));
    let e10 = opt_push(e9, "executed"@, bool_json(m.executed));
    let e11 = opt_push(e10, "reason"@, str_json(m.reason));
    let e12 = opt_push(e11, "model_presentation"@, str_json(m.model_presentation));
    let e13 = opt_push(e12, "truncated"@, bool_json(m.truncated));
    let e14 = opt_push(e13, "output_locator"@, locator_json(m.output_locator));
    let e15 = opt_push(e14, "model_commit"@, commit_json(m.model_commit));
    let e16 = opt_push(e15, "mcp_server_key"@, str_json(m.mcp_server_key));
    let e17 = opt_push(e16, "mcp_remote_name"@, str_json(m.mcp_remote_name));
    let e18 = opt_push(e17, "compact"@, compact_json(m.compact));
    assert(vfield(e0, "turn_id"@) is None) by {
        lemma_vfield_opt_push_at(Seq::empty(), "v"@, Some(JsonView::Number(m.v as u64)), "turn_id"@);
    }
    assert(vfield(e1, "turn_id"@) == str_json(m.turn_id)) by {
        lemma_vfield_opt_push_at(e0, "turn_id"@, str_json(m.turn_id), "turn_id"@);
    }
    assert(vfield(e2, "turn_id"@) == str_json(m.turn_id)) by {
        lemma_vfield_opt_push_at(e1, "model_message_id"@, str_json(m.model_message_id), "turn_id"@);
    }
    assert(vfield(e3, "turn_id"@) == str_json(m.turn_id)) by {
        lemma_vfield_opt_push_at(e2, "part_index"@, u32_json(m.part_index), "turn_id"@);
    }
    assert(vfield(e4, "turn_id"@) == str_json(m.turn_id)) by {
        lemma_vfield_opt_push_at(e3, "batch_id"@, str_json(m.batch_id), "turn_id"@);
    }
    assert(vfield(e5, "turn_id"@) == str_json(m.turn_id)) by {
        lemma_vfield_opt_push_at(e4, "tool_call_id"@, str_json(m.tool_call_id), "turn_id"@);
    }
    assert(vfield(e6, "turn_id"@) == str_json(m.turn_id)) by {
        lemma_vfield_opt_push_at(e5, "function_name"@, str_json(m.function_name), "turn_id"@);
    }
    assert(vfield(e7, "turn_id"@) == str_json(m.turn_id)) by {
        lemma_vfield_opt_push_at(e6, "raw_input"@, value_json(m.raw_input), "turn_id"@);
    }
    assert(vfield(e8, "turn_id"@) == str_json(m.turn_id)) by {
        lemma_vfield_opt_push_at(e7, "phase"@, phase_json(m.phase), "turn_id"@);
    }
    assert(vfield(e9, "turn_id"@) == str_json(m.turn_id)) by {
        lemma_vfield_opt_push_at(e8, "outcome"@, outcome_json(m.outcome), "turn_id"@);
    }
    assert(vfield(e10, "turn_id"@) == str_json(m.turn_id)) by {
        lemma_vfield_opt_push_at(e9, "executed"@, bool_json(m.executed), "turn_id"@);
    }
    assert(vfield(e11, "turn_id"@) == str_json(m.turn_id)) by {
        lemma_vfield_opt_push_at(e10, "reason"@, str_json(m.reason), "turn_id"@);
    }
    assert(vfield(e12, "turn_id"@) == str_json(m.turn_id)) by {
        lemma_vfield_opt_push_at(e11, "model_presentation"@, str_json(m.model_presentation), "turn_id"@);
    }
    assert(vfield(e13, "turn_id"@) == str_json(m.turn_id)) by {
        lemma_vfield_opt_push_at(e12, "truncated"@, bool_json(m.truncated), "turn_id"@);
    }
    assert(vfield(e14, "turn_id"@) == str_json(m.turn_id)) by {
        lemma_vfield_opt_push_at(e13, "output_locator"@, locator_json(m.output_locator), "turn_id"@);
    }
    assert(vfield(e15, "turn_id"@) == str_json(m.turn_id)) by {
        lemma_vfield_opt_push_at(e14, "model_commit"@, commit_json(m.model_commit), "turn_id"@);
    }
    assert(vfield(e16, "turn_id"@) == str_json(m.turn_id)) by {
        lemma_vfield_opt_push_at(e15, "mcp_server_key"@, str_json(m.mcp_server_key), "turn_id"@);
    }
    assert(vfield(e17, "turn_id"@) == str_json(m.turn_id)) by {
        lemma_vfield_opt_push_at(e16, "mcp_remote_name"@, str_json(m.mcp_remote_name), "turn_id"@);
    }
    assert(vfield(e18, "turn_id"@) == str_json(m.turn_id)) by {
        lemma_vfield_opt_push_at(e17, "compact"@, compact_json(m.compact), "turn_id"@);
    }
    assert(e18 =~= native_entries(m));
}

proof fn lemma_native_key_model_message_id(m: NativeMetaView)
    ensures
        vfield(native_entries(m), "model_message_id"@) == str_json(m.model_message_id),
{
    lemma_native_key_names();
    let e0 = Seq::<(Seq<char>, JsonView)>::empty().push(("v"@, JsonView::Number(m.v as u64)));
    let e1 = opt_push(e0, "turn_id"@, str_json(m.turn_id));
    let e2 = opt_push(e1, "model_message_id"@, str_json(m.model_message_id));
    let e3 = opt_push(e2, "part_index"@, u32_json(m.part_index));
    let e4 = opt_push(e3, "batch_id"@, str_json(m.batch_id));
    let e5 = opt_push(e4, "tool_call_id"@, str_json(m.tool_call_id));
    let e6 = opt_push(e5, "function_name"@, str_json(m.function_name));
    let e7 = opt_push(e6, "raw_input"@, value_json(m.raw_input));
    let e8 = opt_push(e7, "phase"@, phase_json(m.phase));
    let e9 = opt_push(e8, "outcome"@, outcome_json(m.outcome));
    let e10 = opt_push(e9, "executed"@, bool_json(m.executed));
    let e11 = opt_push(e10, "reason"@, str_json(m.reason));
    let e12 = opt_push(e11, "model_presentation"@, str_json(m.model_presentation));
    let e13 = opt_push(e12, "truncated"@, bool_json(m.truncated));
    let e14 = opt_push(e13, "output_locator"@, locator_json(m.output_locator));
    let e15 = opt_push(e14, "model_commit"@, commit_json(m.model_commit));
    let e16 = opt_push(e15, "mcp_server_key"@, str_json(m.mcp_server_key));
    let e17 = opt_push(e16, "mcp_remote_name"@, str_json(m.mcp_remote_name));
    let e18 = opt_push(e17, "compact"@, compact_json(m.compact));
    assert(vfield(e0, "model_message_id"@) is None) by {
        lemma_vfield_opt_push_at(Seq::empty(), "v"@, Some(JsonView::Number(m.v as u64)), "model_message_id"@);
    }
    assert(vfield(e1, "model_message_id"@) is None) by {
        lemma_vfield_opt_push_at(e0, "turn_id"@, str_json(m.turn_id), "model_message_id"@);
    }
    assert(vfield(e2, "model_message_id"@) == str_json(m.model_message_id)) by {
        lemma_vfield_opt_push_at(e1, "model_message_id"@, str_json(m.model_message_id), "model_message_id"@);
    }
    assert(vfield(e3, "model_message_id"@) == str_json(m.model_message_id)) by {
        lemma_vfield_opt_push_at(e2, "part_index"@, u32_json(m.part_index), "model_message_id"@);
    }
    assert(vfield(e4, "model_message_id"@) == str_json(m.model_message_id)) by {
        lemma_vfield_opt_push_at(e3, "batch_id"@, str_json(m.batch_id), "model_message_id"@);
    }
    assert(vfield(e5, "model_message_id"@) == str_json(m.model_message_id)) by {
        lemma_vfield_opt_push_at(e4, "tool_call_id"@, str_json(m.tool_call_id), "model_message_id"@);
    }
    assert(vfield(e6, "model_message_id"@) == str_json(m.model_message_id)) by {
        lemma_vfield_opt_push_at(e5, "function_name"@, str_json(m.function_name), "model_message_id"@);
    }
    assert(vfield(e7, "model_message_id"@) == str_json(m.model_message_id)) by {
        lemma_vfield_opt_push_at(e6, "raw_input"@, value_json(m.raw_input), "model_message_id"@);
    }
    assert(vfield(e8, "model_message_id"@) == str_json(m.model_message_id)) by {
        lemma_vfield_opt_push_at(e7, "phase"@, phase_json(m.phase), "model_message_id"@);
    }
    assert(vfield(e9, "model_message_id"@) == str_json(m.model_message_id)) by {
        lemma_vfield_opt_push_at(e8, "outcome"@, outcome_json(m.outcome), "model_message_id"@);
    }
    assert(vfield(e10, "model_message_id"@) == str_json(m.model_message_id)) by {
        lemma_vfield_opt_push_at(e9, "executed"@, bool_json(m.executed), "model_message_id"@);
    }
    assert(vfield(e11, "model_message_id"@) == str_json(m.model_message_id)) by {
        lemma_vfield_opt_push_at(e10, "reason"@, str_json(m.reason), "model_message_id"@);
    }
    assert(vfield(e12, "model_message_id"@) == str_json(m.model_message_id)) by {
        lemma_vfield_opt_push_at(e11, "model_presentation"@, str_json(m.model_presentation), "model_message_id"@);
    }
    assert(vfield(e13, "model_message_id"@) == str_json(m.model_message_id)) by {
        lemma_vfield_opt_push_at(e12, "truncated"@, bool_json(m.truncated), "model_message_id"@);
    }
    assert(vfield(e14, "model_message_id"@) == str_json(m.model_message_id)) by {
        lemma_vfield_opt_push_at(e13, "output_locator"@, locator_json(m.output_locator), "model_message_id"@);
    }
    assert(vfield(e15, "model_message_id"@) == str_json(m.model_message_id)) by {
        lemma_vfield_opt_push_at(e14, "model_commit"@, commit_json(m.model_commit), "model_message_id"@);
    }
    assert(vfield(e16, "model_message_id"@) == str_json(m.model_message_id)) by {
        lemma_vfield_opt_push_at(e15, "mcp_server_key"@, str_json(m.mcp_server_key), "model_message_id"@);
    }
    assert(vfield(e17, "model_message_id"@) == str_json(m.model_message_id)) by {
        lemma_vfield_opt_push_at(e16, "mcp_remote_name"@, str_json(m.mcp_remote_name), "model_message_id"@);
    }
    assert(vfield(e18, "model_message_id"@) == str_json(m.model_message_id)) by {
        lemma_vfield_opt_push_at(e17, "compact"@, compact_json(m.compact), "model_message_id"@);
    }
    assert(e18 =~= native_entries(m));
}

proof fn lemma_native_key_part_index(m: NativeMetaView)
    ensures
        vfield(native_entries(m), "part_index"@) == u32_json(m.part_index),
{
    lemma_native_key_names();
    let e0 = Seq::<(Seq<char>, JsonView)>::empty().push(("v"@, JsonView::Number(m.v as u64)));
    let e1 = opt_push(e0, "turn_id"@, str_json(m.turn_id));
    let e2 = opt_push(e1, "model_message_id"@, str_json(m.model_message_id));
    let e3 = opt_push(e2, "part_index"@, u32_json(m.part_index));
    let e4 = opt_push(e3, "batch_id"@, str_json(m.batch_id));
    let e5 = opt_push(e4, "tool_call_id"@, str_json(m.tool_call_id));
    let e6 = opt_push(e5, "function_name"@, str_json(m.function_name));
    let e7 = opt_push(e6, "raw_input"@, value_json(m.raw_input));
    let e8 = opt_push(e7, "phase"@, phase_json(m.phase));
    let e9 = opt_push(e8, "outcome"@, outcome_json(m.outcome));
    let e10 = opt_push(e9, "executed"@, bool_json(m.executed));
    let e11 = opt_push(e10, "reason"@, str_json(m.reason));
    let e12 = opt_push(e11, "model_presentation"@, str_json(m.model_presentation));
    let e13 = opt_push(e12, "truncated"@, bool_json(m.truncated));
    let e14 = opt_push(e13, "output_locator"@, locator_json(m.output_locator));
    let e15 = opt_push(e14, "model_commit"@, commit_json(m.model_commit));
    let e16 = opt_push(e15, "mcp_server_key"@, str_json(m.mcp_server_key));
    let e17 = opt_push(e16, "mcp_remote_name"@, str_json(m.mcp_remote_name));
    let e18 = opt_push(e17, "compact"@, compact_json(m.compact));
    assert(vfield(e0, "part_index"@) is None) by {
        lemma_vfield_opt_push_at(Seq::empty(), "v"@, Some(JsonView::Number(m.v as u64)), "part_index"@);
    }
    assert(vfield(e1, "part_index"@) is None) by {
        lemma_vfield_opt_push_at(e0, "turn_id"@, str_json(m.turn_id), "part_index"@);
    }
    assert(vfield(e2, "part_index"@) is None) by {
        lemma_vfield_opt_push_at(e1, "model_message_id"@, str_json(m.model_message_id), "part_index"@);
    }
    assert(vfield(e3, "part_index"@) == u32_json(m.part_index)) by {
        lemma_vfield_opt_push_at(e2, "part_index"@, u32_json(m.part_index), "part_index"@);
    }
    assert(vfield(e4, "part_index"@) == u32_json(m.part_index)) by {
        lemma_vfield_opt_push_at(e3, "batch_id"@, str_json(m.batch_id), "part_index"@);
    }
    assert(vfield(e5, "part_index"@) == u32_json(m.part_index)) by {
        lemma_vfield_opt_push_at(e4, "tool_call_id"@, str_json(m.tool_call_id), "part_index"@);
    }
    assert(vfield(e6, "part_index"@) == u32_json(m.part_index)) by {
        lemma_vfield_opt_push_at(e5, "function_name"@, str_json(m.function_name), "part_index"@);
    }
    assert(vfield(e7, "part_index"@) == u32_json(m.part_index)) by {
        lemma_vfield_opt_push_at(e6, "raw_input"@, value_json(m.raw_input), "part_index"@);
    }
    assert(vfield(e8, "part_index"@) == u32_json(m.part_index)) by {
        lemma_vfield_opt_push_at(e7, "phase"@, phase_json(m.phase), "part_index"@);
    }
    assert(vfield(e9, "part_index"@) == u32_json(m.part_index)) by {
        lemma_vfield_opt_push_at(e8, "outcome"@, outcome_json(m.outcome), "part_index"@);
    }
    assert(vfield(e10, "part_index"@) == u32_json(m.part_index)) by {
        lemma_vfield_opt_push_at(e9, "executed"@, bool_json(m.executed), "part_index"@);
    }
    assert(vfield(e11, "part_index"@) == u32_json(m.part_index)) by {
        lemma_vfield_opt_push_at(e10, "reason"@, str_json(m.reason), "part_index"@);
    }
    assert(vfield(e12, "part_index"@) == u32_json(m.part_index)) by {
        lemma_vfield_opt_push_at(e11, "model_presentation"@, str_json(m.model_presentation), "part_index"@);
    }
    assert(vfield(e13, "part_index"@) == u32_json(m.part_index)) by {
        lemma_vfield_opt_push_at(e12, "truncated"@, bool_json(m.truncated), "part_index"@);
    }
    assert(vfield(e14, "part_index"@) == u32_json(m.part_index)) by {
        lemma_vfield_opt_push_at(e13, "output_locator"@, locator_json(m.output_locator), "part_index"@);
    }
    assert(vfield(e15, "part_index"@) == u32_json(m.part_index)) by {
        lemma_vfield_opt_push_at(e14, "model_commit"@, commit_json(m.model_commit), "part_index"@);
    }
    assert(vfield(e16, "part_index"@) == u32_json(m.part_index)) by {
        lemma_vfield_opt_push_at(e15, "mcp_server_key"@, str_json(m.mcp_server_key), "part_index"@);
    }
    assert(vfield(e17, "part_index"@) == u32_json(m.part_index)) by {
        lemma_vfield_opt_push_at(e16, "mcp_remote_name"@, str_json(m.mcp_remote_name), "part_index"@);
    }
    assert(vfield(e18, "part_index"@) == u32_json(m.part_index)) by {
        lemma_vfield_opt_push_at(e17, "compact"@, compact_json(m.compact), "part_index"@);
    }
    assert(e18 =~= native_entries(m));
}

proof fn lemma_native_key_batch_id(m: NativeMetaView)
    ensures
        vfield(native_entries(m), "batch_id"@) == str_json(m.batch_id),
{
    lemma_native_key_names();
    let e0 = Seq::<(Seq<char>, JsonView)>::empty().push(("v"@, JsonView::Number(m.v as u64)));
    let e1 = opt_push(e0, "turn_id"@, str_json(m.turn_id));
    let e2 = opt_push(e1, "model_message_id"@, str_json(m.model_message_id));
    let e3 = opt_push(e2, "part_index"@, u32_json(m.part_index));
    let e4 = opt_push(e3, "batch_id"@, str_json(m.batch_id));
    let e5 = opt_push(e4, "tool_call_id"@, str_json(m.tool_call_id));
    let e6 = opt_push(e5, "function_name"@, str_json(m.function_name));
    let e7 = opt_push(e6, "raw_input"@, value_json(m.raw_input));
    let e8 = opt_push(e7, "phase"@, phase_json(m.phase));
    let e9 = opt_push(e8, "outcome"@, outcome_json(m.outcome));
    let e10 = opt_push(e9, "executed"@, bool_json(m.executed));
    let e11 = opt_push(e10, "reason"@, str_json(m.reason));
    let e12 = opt_push(e11, "model_presentation"@, str_json(m.model_presentation));
    let e13 = opt_push(e12, "truncated"@, bool_json(m.truncated));
    let e14 = opt_push(e13, "output_locator"@, locator_json(m.output_locator));
    let e15 = opt_push(e14, "model_commit"@, commit_json(m.model_commit));
    let e16 = opt_push(e15, "mcp_server_key"@, str_json(m.mcp_server_key));
    let e17 = opt_push(e16, "mcp_remote_name"@, str_json(m.mcp_remote_name));
    let e18 = opt_push(e17, "compact"@, compact_json(m.compact));
    assert(vfield(e0, "batch_id"@) is None) by {
        lemma_vfield_opt_push_at(Seq::empty(), "v"@, Some(JsonView::Number(m.v as u64)), "batch_id"@);
    }
    assert(vfield(e1, "batch_id"@) is None) by {
        lemma_vfield_opt_push_at(e0, "turn_id"@, str_json(m.turn_id), "batch_id"@);
    }
    assert(vfield(e2, "batch_id"@) is None) by {
        lemma_vfield_opt_push_at(e1, "model_message_id"@, str_json(m.model_message_id), "batch_id"@);
    }
    assert(vfield(e3, "batch_id"@) is None) by {
        lemma_vfield_opt_push_at(e2, "part_index"@, u32_json(m.part_index), "batch_id"@);
    }
    assert(vfield(e4, "batch_id"@) == str_json(m.batch_id)) by {
        lemma_vfield_opt_push_at(e3, "batch_id"@, str_json(m.batch_id), "batch_id"@);
    }
    assert(vfield(e5, "batch_id"@) == str_json(m.batch_id)) by {
        lemma_vfield_opt_push_at(e4, "tool_call_id"@, str_json(m.tool_call_id), "batch_id"@);
    }
    assert(vfield(e6, "batch_id"@) == str_json(m.batch_id)) by {
        lemma_vfield_opt_push_at(e5, "function_name"@, str_json(m.function_name), "batch_id"@);
    }
    assert(vfield(e7, "batch_id"@) == str_json(m.batch_id)) by {
        lemma_vfield_opt_push_at(e6, "raw_input"@, value_json(m.raw_input), "batch_id"@);
    }
    assert(vfield(e8, "batch_id"@) == str_json(m.batch_id)) by {
        lemma_vfield_opt_push_at(e7, "phase"@, phase_json(m.phase), "batch_id"@);
    }
    assert(vfield(e9, "batch_id"@) == str_json(m.batch_id)) by {
        lemma_vfield_opt_push_at(e8, "outcome"@, outcome_json(m.outcome), "batch_id"@);
    }
    assert(vfield(e10, "batch_id"@) == str_json(m.batch_id)) by {
        lemma_vfield_opt_push_at(e9, "executed"@, bool_json(m.executed), "batch_id"@);
    }
    assert(vfield(e11, "batch_id"@) == str_json(m.batch_id)) by {
        lemma_vfield_opt_push_at(e10, "reason"@, str_json(m.reason), "batch_id"@);
    }
    assert(vfield(e12, "batch_id"@) == str_json(m.batch_id)) by {
        lemma_vfield_opt_push_at(e11, "model_presentation"@, str_json(m.model_presentation), "batch_id"@);
    }
    assert(vfield(e13, "batch_id"@) == str_json(m.batch_id)) by {
        lemma_vfield_opt_push_at(e12, "truncated"@, bool_json(m.truncated), "batch_id"@);
    }
    assert(vfield(e14, "batch_id"@) == str_json(m.batch_id)) by {
        lemma_vfield_opt_push_at(e13, "output_locator"@, locator_json(m.output_locator), "batch_id"@);
    }
    assert(vfield(e15, "batch_id"@) == str_json(m.batch_id)) by {
        lemma_vfield_opt_push_at(e14, "model_commit"@, commit_json(m.model_commit), "batch_id"@);
    }
    assert(vfield(e16, "batch_id"@) == str_json(m.batch_id)) by {
        lemma_vfield_opt_push_at(e15, "mcp_server_key"@, str_json(m.mcp_server_key), "batch_id"@);
    }
    assert(vfield(e17, "batch_id"@) == str_json(m.batch_id)) by {
        lemma_vfield_opt_push_at(e16, "mcp_remote_name"@, str_json(m.mcp_remote_name), "batch_id"@);
    }
    assert(vfield(e18, "batch_id"@) == str_json(m.batch_id)) by {
        lemma_vfield_opt_push_at(e17, "compact"@, compact_json(m.compact), "batch_id"@);
    }
    assert(e18 =~= native_entries(m));
}

proof fn lemma_native_key_tool_call_id(m: NativeMetaView)
    ensures
        vfield(native_entries(m), "tool_call_id"@) == str_json(m.tool_call_id),
{
    lemma_native_key_names();
    let e0 = Seq::<(Seq<char>, JsonView)>::empty().push(("v"@, JsonView::Number(m.v as u64)));
    let e1 = opt_push(e0, "turn_id"@, str_json(m.turn_id));
    let e2 = opt_push(e1, "model_message_id"@, str_json(m.model_message_id));
    let e3 = opt_push(e2, "part_index"@, u32_json(m.part_index));
    let e4 = opt_push(e3, "batch_id"@, str_json(m.batch_id));
    let e5 = opt_push(e4, "tool_call_id"@, str_json(m.tool_call_id));
    let e6 = opt_push(e5, "function_name"@, str_json(m.function_name));
    let e7 = opt_push(e6, "raw_input"@, value_json(m.raw_input));
    let e8 = opt_push(e7, "phase"@, phase_json(m.phase));
    let e9 = opt_push(e8, "outcome"@, outcome_json(m.outcome));
    let e10 = opt_push(e9, "executed"@, bool_json(m.executed));
    let e11 = opt_push(e10, "reason"@, str_json(m.reason));
    let e12 = opt_push(e11, "model_presentation"@, str_json(m.model_presentation));
    let e13 = opt_push(e12, "truncated"@, bool_json(m.truncated));
    let e14 = opt_push(e13, "output_locator"@, locator_json(m.output_locator));
    let e15 = opt_push(e14, "model_commit"@, commit_json(m.model_commit));
    let e16 = opt_push(e15, "mcp_server_key"@, str_json(m.mcp_server_key));
    let e17 = opt_push(e16, "mcp_remote_name"@, str_json(m.mcp_remote_name));
    let e18 = opt_push(e17, "compact"@, compact_json(m.compact));
    assert(vfield(e0, "tool_call_id"@) is None) by {
        lemma_vfield_opt_push_at(Seq::empty(), "v"@, Some(JsonView::Number(m.v as u64)), "tool_call_id"@);
    }
    assert(vfield(e1, "tool_call_id"@) is None) by {
        lemma_vfield_opt_push_at(e0, "turn_id"@, str_json(m.turn_id), "tool_call_id"@);
    }
    assert(vfield(e2, "tool_call_id"@) is None) by {
        lemma_vfield_opt_push_at(e1, "model_message_id"@, str_json(m.model_message_id), "tool_call_id"@);
    }
    assert(vfield(e3, "tool_call_id"@) is None) by {
        lemma_vfield_opt_push_at(e2, "part_index"@, u32_json(m.part_index), "tool_call_id"@);
    }
    assert(vfield(e4, "tool_call_id"@) is None) by {
        lemma_vfield_opt_push_at(e3, "batch_id"@, str_json(m.batch_id), "tool_call_id"@);
    }
    assert(vfield(e5, "tool_call_id"@) == str_json(m.tool_call_id)) by {
        lemma_vfield_opt_push_at(e4, "tool_call_id"@, str_json(m.tool_call_id), "tool_call_id"@);
    }
    assert(vfield(e6, "tool_call_id"@) == str_json(m.tool_call_id)) by {
        lemma_vfield_opt_push_at(e5, "function_name"@, str_json(m.function_name), "tool_call_id"@);
    }
    assert(vfield(e7, "tool_call_id"@) == str_json(m.tool_call_id)) by {
        lemma_vfield_opt_push_at(e6, "raw_input"@, value_json(m.raw_input), "tool_call_id"@);
    }
    assert(vfield(e8, "tool_call_id"@) == str_json(m.tool_call_id)) by {
        lemma_vfield_opt_push_at(e7, "phase"@, phase_json(m.phase), "tool_call_id"@);
    }
    assert(vfield(e9, "tool_call_id"@) == str_json(m.tool_call_id)) by {
        lemma_vfield_opt_push_at(e8, "outcome"@, outcome_json(m.outcome), "tool_call_id"@);
    }
    assert(vfield(e10, "tool_call_id"@) == str_json(m.tool_call_id)) by {
        lemma_vfield_opt_push_at(e9, "executed"@, bool_json(m.executed), "tool_call_id"@);
    }
    assert(vfield(e11, "tool_call_id"@) == str_json(m.tool_call_id)) by {
        lemma_vfield_opt_push_at(e10, "reason"@, str_json(m.reason), "tool_call_id"@);
    }
    assert(vfield(e12, "tool_call_id"@) == str_json(m.tool_call_id)) by {
        lemma_vfield_opt_push_at(e11, "model_presentation"@, str_json(m.model_presentation), "tool_call_id"@);
    }
    assert(vfield(e13, "tool_call_id"@) == str_json(m.tool_call_id)) by {
        lemma_vfield_opt_push_at(e12, "truncated"@, bool_json(m.truncated), "tool_call_id"@);
    }
    assert(vfield(e14, "tool_call_id"@) == str_json(m.tool_call_id)) by {
        lemma_vfield_opt_push_at(e13, "output_locator"@, locator_json(m.output_locator), "tool_call_id"@);
    }
    assert(vfield(e15, "tool_call_id"@) == str_json(m.tool_call_id)) by {
        lemma_vfield_opt_push_at(e14, "model_commit"@, commit_json(m.model_commit), "tool_call_id"@);
    }
    assert(vfield(e16, "tool_call_id"@) == str_json(m.tool_call_id)) by {
        lemma_vfield_opt_push_at(e15, "mcp_server_key"@, str_json(m.mcp_server_key), "tool_call_id"@);
    }
    assert(vfield(e17, "tool_call_id"@) == str_json(m.tool_call_id)) by {
        lemma_vfield_opt_push_at(e16, "mcp_remote_name"@, str_json(m.mcp_remote_name), "tool_call_id"@);
    }
    assert(vfield(e18, "tool_call_id"@) == str_json(m.tool_call_id)) by {
        lemma_vfield_opt_push_at(e17, "compact"@, compact_json(m.compact), "tool_call_id"@);
    }
    assert(e18 =~= native_entries(m));
}

proof fn lemma_native_key_function_name(m: NativeMetaView)
    ensures
        vfield(native_entries(m), "function_name"@) == str_json(m.function_name),
{
    lemma_native_key_names();
    let e0 = Seq::<(Seq<char>, JsonView)>::empty().push(("v"@, JsonView::Number(m.v as u64)));
    let e1 = opt_push(e0, "turn_id"@, str_json(m.turn_id));
    let e2 = opt_push(e1, "model_message_id"@, str_json(m.model_message_id));
    let e3 = opt_push(e2, "part_index"@, u32_json(m.part_index));
    let e4 = opt_push(e3, "batch_id"@, str_json(m.batch_id));
    let e5 = opt_push(e4, "tool_call_id"@, str_json(m.tool_call_id));
    let e6 = opt_push(e5, "function_name"@, str_json(m.function_name));
    let e7 = opt_push(e6, "raw_input"@, value_json(m.raw_input));
    let e8 = opt_push(e7, "phase"@, phase_json(m.phase));
    let e9 = opt_push(e8, "outcome"@, outcome_json(m.outcome));
    let e10 = opt_push(e9, "executed"@, bool_json(m.executed));
    let e11 = opt_push(e10, "reason"@, str_json(m.reason));
    let e12 = opt_push(e11, "model_presentation"@, str_json(m.model_presentation));
    let e13 = opt_push(e12, "truncated"@, bool_json(m.truncated));
    let e14 = opt_push(e13, "output_locator"@, locator_json(m.output_locator));
    let e15 = opt_push(e14, "model_commit"@, commit_json(m.model_commit));
    let e16 = opt_push(e15, "mcp_server_key"@, str_json(m.mcp_server_key));
    let e17 = opt_push(e16, "mcp_remote_name"@, str_json(m.mcp_remote_name));
    let e18 = opt_push(e17, "compact"@, compact_json(m.compact));
    assert(vfield(e0, "function_name"@) is None) by {
        lemma_vfield_opt_push_at(Seq::empty(), "v"@, Some(JsonView::Number(m.v as u64)), "function_name"@);
    }
    assert(vfield(e1, "function_name"@) is None) by {
        lemma_vfield_opt_push_at(e0, "turn_id"@, str_json(m.turn_id), "function_name"@);
    }
    assert(vfield(e2, "function_name"@) is None) by {
        lemma_vfield_opt_push_at(e1, "model_message_id"@, str_json(m.model_message_id), "function_name"@);
    }
    assert(vfield(e3, "function_name"@) is None) by {
        lemma_vfield_opt_push_at(e2, "part_index"@, u32_json(m.part_index), "function_name"@);
    }
    assert(vfield(e4, "function_name"@) is None) by {
        lemma_vfield_opt_push_at(e3, "batch_id"@, str_json(m.batch_id), "function_name"@);
    }
    assert(vfield(e5, "function_name"@) is None) by {
        lemma_vfield_opt_push_at(e4, "tool_call_id"@, str_json(m.tool_call_id), "function_name"@);
    }
    assert(vfield(e6, "function_name"@) == str_json(m.function_name)) by {
        lemma_vfield_opt_push_at(e5, "function_name"@, str_json(m.function_name), "function_name"@);
    }
    assert(vfield(e7, "function_name"@) == str_json(m.function_name)) by {
        lemma_vfield_opt_push_at(e6, "raw_input"@, value_json(m.raw_input), "function_name"@);
    }
    assert(vfield(e8, "function_name"@) == str_json(m.function_name)) by {
        lemma_vfield_opt_push_at(e7, "phase"@, phase_json(m.phase), "function_name"@);
    }
    assert(vfield(e9, "function_name"@) == str_json(m.function_name)) by {
        lemma_vfield_opt_push_at(e8, "outcome"@, outcome_json(m.outcome), "function_name"@);
    }
    assert(vfield(e10, "function_name"@) == str_json(m.function_name)) by {
        lemma_vfield_opt_push_at(e9, "executed"@, bool_json(m.executed), "function_name"@);
    }
    assert(vfield(e11, "function_name"@) == str_json(m.function_name)) by {
        lemma_vfield_opt_push_at(e10, "reason"@, str_json(m.reason), "function_name"@);
    }
    assert(vfield(e12, "function_name"@) == str_json(m.function_name)) by {
        lemma_vfield_opt_push_at(e11, "model_presentation"@, str_json(m.model_presentation), "function_name"@);
    }
    assert(vfield(e13, "function_name"@) == str_json(m.function_name)) by {
        lemma_vfield_opt_push_at(e12, "truncated"@, bool_json(m.truncated), "function_name"@);
    }
    assert(vfield(e14, "function_name"@) == str_json(m.function_name)) by {
        lemma_vfield_opt_push_at(e13, "output_locator"@, locator_json(m.output_locator), "function_name"@);
    }
    assert(vfield(e15, "function_name"@) == str_json(m.function_name)) by {
        lemma_vfield_opt_push_at(e14, "model_commit"@, commit_json(m.model_commit), "function_name"@);
    }
    assert(vfield(e16, "function_name"@) == str_json(m.function_name)) by {
        lemma_vfield_opt_push_at(e15, "mcp_server_key"@, str_json(m.mcp_server_key), "function_name"@);
    }
    assert(vfield(e17, "function_name"@) == str_json(m.function_name)) by {
        lemma_vfield_opt_push_at(e16, "mcp_remote_name"@, str_json(m.mcp_remote_name), "function_name"@);
    }
    assert(vfield(e18, "function_name"@) == str_json(m.function_name)) by {
        lemma_vfield_opt_push_at(e17, "compact"@, compact_json(m.compact), "function_name"@);
    }
    assert(e18 =~= native_entries(m));
}

proof fn lemma_native_key_raw_input(m: NativeMetaView)
    ensures
        vfield(native_entries(m), "raw_input"@) == value_json(m.raw_input),
{
    lemma_native_key_names();
    let e0 = Seq::<(Seq<char>, JsonView)>::empty().push(("v"@, JsonView::Number(m.v as u64)));
    let e1 = opt_push(e0, "turn_id"@, str_json(m.turn_id));
    let e2 = opt_push(e1, "model_message_id"@, str_json(m.model_message_id));
    let e3 = opt_push(e2, "part_index"@, u32_json(m.part_index));
    let e4 = opt_push(e3, "batch_id"@, str_json(m.batch_id));
    let e5 = opt_push(e4, "tool_call_id"@, str_json(m.tool_call_id));
    let e6 = opt_push(e5, "function_name"@, str_json(m.function_name));
    let e7 = opt_push(e6, "raw_input"@, value_json(m.raw_input));
    let e8 = opt_push(e7, "phase"@, phase_json(m.phase));
    let e9 = opt_push(e8, "outcome"@, outcome_json(m.outcome));
    let e10 = opt_push(e9, "executed"@, bool_json(m.executed));
    let e11 = opt_push(e10, "reason"@, str_json(m.reason));
    let e12 = opt_push(e11, "model_presentation"@, str_json(m.model_presentation));
    let e13 = opt_push(e12, "truncated"@, bool_json(m.truncated));
    let e14 = opt_push(e13, "output_locator"@, locator_json(m.output_locator));
    let e15 = opt_push(e14, "model_commit"@, commit_json(m.model_commit));
    let e16 = opt_push(e15, "mcp_server_key"@, str_json(m.mcp_server_key));
    let e17 = opt_push(e16, "mcp_remote_name"@, str_json(m.mcp_remote_name));
    let e18 = opt_push(e17, "compact"@, compact_json(m.compact));
    assert(vfield(e0, "raw_input"@) is None) by {
        lemma_vfield_opt_push_at(Seq::empty(), "v"@, Some(JsonView::Number(m.v as u64)), "raw_input"@);
    }
    assert(vfield(e1, "raw_input"@) is None) by {
        lemma_vfield_opt_push_at(e0, "turn_id"@, str_json(m.turn_id), "raw_input"@);
    }
    assert(vfield(e2, "raw_input"@) is None) by {
        lemma_vfield_opt_push_at(e1, "model_message_id"@, str_json(m.model_message_id), "raw_input"@);
    }
    assert(vfield(e3, "raw_input"@) is None) by {
        lemma_vfield_opt_push_at(e2, "part_index"@, u32_json(m.part_index), "raw_input"@);
    }
    assert(vfield(e4, "raw_input"@) is None) by {
        lemma_vfield_opt_push_at(e3, "batch_id"@, str_json(m.batch_id), "raw_input"@);
    }
    assert(vfield(e5, "raw_input"@) is None) by {
        lemma_vfield_opt_push_at(e4, "tool_call_id"@, str_json(m.tool_call_id), "raw_input"@);
    }
    assert(vfield(e6, "raw_input"@) is None) by {
        lemma_vfield_opt_push_at(e5, "function_name"@, str_json(m.function_name), "raw_input"@);
    }
    assert(vfield(e7, "raw_input"@) == value_json(m.raw_input)) by {
        lemma_vfield_opt_push_at(e6, "raw_input"@, value_json(m.raw_input), "raw_input"@);
    }
    assert(vfield(e8, "raw_input"@) == value_json(m.raw_input)) by {
        lemma_vfield_opt_push_at(e7, "phase"@, phase_json(m.phase), "raw_input"@);
    }
    assert(vfield(e9, "raw_input"@) == value_json(m.raw_input)) by {
        lemma_vfield_opt_push_at(e8, "outcome"@, outcome_json(m.outcome), "raw_input"@);
    }
    assert(vfield(e10, "raw_input"@) == value_json(m.raw_input)) by {
        lemma_vfield_opt_push_at(e9, "executed"@, bool_json(m.executed), "raw_input"@);
    }
    assert(vfield(e11, "raw_input"@) == value_json(m.raw_input)) by {
        lemma_vfield_opt_push_at(e10, "reason"@, str_json(m.reason), "raw_input"@);
    }
    assert(vfield(e12, "raw_input"@) == value_json(m.raw_input)) by {
        lemma_vfield_opt_push_at(e11, "model_presentation"@, str_json(m.model_presentation), "raw_input"@);
    }
    assert(vfield(e13, "raw_input"@) == value_json(m.raw_input)) by {
        lemma_vfield_opt_push_at(e12, "truncated"@, bool_json(m.truncated), "raw_input"@);
    }
    assert(vfield(e14, "raw_input"@) == value_json(m.raw_input)) by {
        lemma_vfield_opt_push_at(e13, "output_locator"@, locator_json(m.output_locator), "raw_input"@);
    }
    assert(vfield(e15, "raw_input"@) == value_json(m.raw_input)) by {
        lemma_vfield_opt_push_at(e14, "model_commit"@, commit_json(m.model_commit), "raw_input"@);
    }
    assert(vfield(e16, "raw_input"@) == value_json(m.raw_input)) by {
        lemma_vfield_opt_push_at(e15, "mcp_server_key"@, str_json(m.mcp_server_key), "raw_input"@);
    }
    assert(vfield(e17, "raw_input"@) == value_json(m.raw_input)) by {
        lemma_vfield_opt_push_at(e16, "mcp_remote_name"@, str_json(m.mcp_remote_name), "raw_input"@);
    }
    assert(vfield(e18, "raw_input"@) == value_json(m.raw_input)) by {
        lemma_vfield_opt_push_at(e17, "compact"@, compact_json(m.compact), "raw_input"@);
    }
    assert(e18 =~= native_entries(m));
}

proof fn lemma_native_key_phase(m: NativeMetaView)
    ensures
        vfield(native_entries(m), "phase"@) == phase_json(m.phase),
{
    lemma_native_key_names();
    let e0 = Seq::<(Seq<char>, JsonView)>::empty().push(("v"@, JsonView::Number(m.v as u64)));
    let e1 = opt_push(e0, "turn_id"@, str_json(m.turn_id));
    let e2 = opt_push(e1, "model_message_id"@, str_json(m.model_message_id));
    let e3 = opt_push(e2, "part_index"@, u32_json(m.part_index));
    let e4 = opt_push(e3, "batch_id"@, str_json(m.batch_id));
    let e5 = opt_push(e4, "tool_call_id"@, str_json(m.tool_call_id));
    let e6 = opt_push(e5, "function_name"@, str_json(m.function_name));
    let e7 = opt_push(e6, "raw_input"@, value_json(m.raw_input));
    let e8 = opt_push(e7, "phase"@, phase_json(m.phase));
    let e9 = opt_push(e8, "outcome"@, outcome_json(m.outcome));
    let e10 = opt_push(e9, "executed"@, bool_json(m.executed));
    let e11 = opt_push(e10, "reason"@, str_json(m.reason));
    let e12 = opt_push(e11, "model_presentation"@, str_json(m.model_presentation));
    let e13 = opt_push(e12, "truncated"@, bool_json(m.truncated));
    let e14 = opt_push(e13, "output_locator"@, locator_json(m.output_locator));
    let e15 = opt_push(e14, "model_commit"@, commit_json(m.model_commit));
    let e16 = opt_push(e15, "mcp_server_key"@, str_json(m.mcp_server_key));
    let e17 = opt_push(e16, "mcp_remote_name"@, str_json(m.mcp_remote_name));
    let e18 = opt_push(e17, "compact"@, compact_json(m.compact));
    assert(vfield(e0, "phase"@) is None) by {
        lemma_vfield_opt_push_at(Seq::empty(), "v"@, Some(JsonView::Number(m.v as u64)), "phase"@);
    }
    assert(vfield(e1, "phase"@) is None) by {
        lemma_vfield_opt_push_at(e0, "turn_id"@, str_json(m.turn_id), "phase"@);
    }
    assert(vfield(e2, "phase"@) is None) by {
        lemma_vfield_opt_push_at(e1, "model_message_id"@, str_json(m.model_message_id), "phase"@);
    }
    assert(vfield(e3, "phase"@) is None) by {
        lemma_vfield_opt_push_at(e2, "part_index"@, u32_json(m.part_index), "phase"@);
    }
    assert(vfield(e4, "phase"@) is None) by {
        lemma_vfield_opt_push_at(e3, "batch_id"@, str_json(m.batch_id), "phase"@);
    }
    assert(vfield(e5, "phase"@) is None) by {
        lemma_vfield_opt_push_at(e4, "tool_call_id"@, str_json(m.tool_call_id), "phase"@);
    }
    assert(vfield(e6, "phase"@) is None) by {
        lemma_vfield_opt_push_at(e5, "function_name"@, str_json(m.function_name), "phase"@);
    }
    assert(vfield(e7, "phase"@) is None) by {
        lemma_vfield_opt_push_at(e6, "raw_input"@, value_json(m.raw_input), "phase"@);
    }
    assert(vfield(e8, "phase"@) == phase_json(m.phase)) by {
        lemma_vfield_opt_push_at(e7, "phase"@, phase_json(m.phase), "phase"@);
    }
    assert(vfield(e9, "phase"@) == phase_json(m.phase)) by {
        lemma_vfield_opt_push_at(e8, "outcome"@, outcome_json(m.outcome), "phase"@);
    }
    assert(vfield(e10, "phase"@) == phase_json(m.phase)) by {
        lemma_vfield_opt_push_at(e9, "executed"@, bool_json(m.executed), "phase"@);
    }
    assert(vfield(e11, "phase"@) == phase_json(m.phase)) by {
        lemma_vfield_opt_push_at(e10, "reason"@, str_json(m.reason), "phase"@);
    }
    assert(vfield(e12, "phase"@) == phase_json(m.phase)) by {
        lemma_vfield_opt_push_at(e11, "model_presentation"@, str_json(m.model_presentation), "phase"@);
    }
    assert(vfield(e13, "phase"@) == phase_json(m.phase)) by {
        lemma_vfield_opt_push_at(e12, "truncated"@, bool_json(m.truncated), "phase"@);
    }
    assert(vfield(e14, "phase"@) == phase_json(m.phase)) by {
        lemma_vfield_opt_push_at(e13, "output_locator"@, locator_json(m.output_locator), "phase"@);
    }
    assert(vfield(e15, "phase"@) == phase_json(m.phase)) by {
        lemma_vfield_opt_push_at(e14, "model_commit"@, commit_json(m.model_commit), "phase"@);
    }
    assert(vfield(e16, "phase"@) == phase_json(m.phase)) by {
        lemma_vfield_opt_push_at(e15, "mcp_server_key"@, str_json(m.mcp_server_key), "phase"@);
    }
    assert(vfield(e17, "phase"@) == phase_json(m.phase)) by {
        lemma_vfield_opt_push_at(e16, "mcp_remote_name"@, str_json(m.mcp_remote_name), "phase"@);
    }
    assert(vfield(e18, "phase"@) == phase_json(m.phase)) by {
        lemma_vfield_opt_push_at(e17, "compact"@, compact_json(m.compact), "phase"@);
    }
    assert(e18 =~= native_entries(m));
}

proof fn lemma_native_key_outcome(m: NativeMetaView)
    ensures
        vfield(native_entries(m), "outcome"@) == outcome_json(m.outcome),
{
    lemma_native_key_names();
    let e0 = Seq::<(Seq<char>, JsonView)>::empty().push(("v"@, JsonView::Number(m.v as u64)));
    let e1 = opt_push(e0, "turn_id"@, str_json(m.turn_id));
    let e2 = opt_push(e1, "model_message_id"@, str_json(m.model_message_id));
    let e3 = opt_push(e2, "part_index"@, u32_json(m.part_index));
    let e4 = opt_push(e3, "batch_id"@, str_json(m.batch_id));
    let e5 = opt_push(e4, "tool_call_id"@, str_json(m.tool_call_id));
    let e6 = opt_push(e5, "function_name"@, str_json(m.function_name));
    let e7 = opt_push(e6, "raw_input"@, value_json(m.raw_input));
    let e8 = opt_push(e7, "phase"@, phase_json(m.phase));
    let e9 = opt_push(e8, "outcome"@, outcome_json(m.outcome));
    let e10 = opt_push(e9, "executed"@, bool_json(m.executed));
    let e11 = opt_push(e10, "reason"@, str_json(m.reason));
    let e12 = opt_push(e11, "model_presentation"@, str_json(m.model_presentation));
    let e13 = opt_push(e12, "truncated"@, bool_json(m.truncated));
    let e14 = opt_push(e13, "output_locator"@, locator_json(m.output_locator));
    let e15 = opt_push(e14, "model_commit"@, commit_json(m.model_commit));
    let e16 = opt_push(e15, "mcp_server_key"@, str_json(m.mcp_server_key));
    let e17 = opt_push(e16, "mcp_remote_name"@, str_json(m.mcp_remote_name));
    let e18 = opt_push(e17, "compact"@, compact_json(m.compact));
    assert(vfield(e0, "outcome"@) is None) by {
        lemma_vfield_opt_push_at(Seq::empty(), "v"@, Some(JsonView::Number(m.v as u64)), "outcome"@);
    }
    assert(vfield(e1, "outcome"@) is None) by {
        lemma_vfield_opt_push_at(e0, "turn_id"@, str_json(m.turn_id), "outcome"@);
    }
    assert(vfield(e2, "outcome"@) is None) by {
        lemma_vfield_opt_push_at(e1, "model_message_id"@, str_json(m.model_message_id), "outcome"@);
    }
    assert(vfield(e3, "outcome"@) is None) by {
        lemma_vfield_opt_push_at(e2, "part_index"@, u32_json(m.part_index), "outcome"@);
    }
    assert(vfield(e4, "outcome"@) is None) by {
        lemma_vfield_opt_push_at(e3, "batch_id"@, str_json(m.batch_id), "outcome"@);
    }
    assert(vfield(e5, "outcome"@) is None) by {
        lemma_vfield_opt_push_at(e4, "tool_call_id"@, str_json(m.tool_call_id), "outcome"@);
    }
    assert(vfield(e6, "outcome"@) is None) by {
        lemma_vfield_opt_push_at(e5, "function_name"@, str_json(m.function_name), "outcome"@);
    }
    assert(vfield(e7, "outcome"@) is None) by {
        lemma_vfield_opt_push_at(e6, "raw_input"@, value_json(m.raw_input), "outcome"@);
    }
    assert(vfield(e8, "outcome"@) is None) by {
        lemma_vfield_opt_push_at(e7, "phase"@, phase_json(m.phase), "outcome"@);
    }
    assert(vfield(e9, "outcome"@) == outcome_json(m.outcome)) by {
        lemma_vfield_opt_push_at(e8, "outcome"@, outcome_json(m.outcome), "outcome"@);
    }
    assert(vfield(e10, "outcome"@) == outcome_json(m.outcome)) by {
        lemma_vfield_opt_push_at(e9, "executed"@, bool_json(m.executed), "outcome"@);
    }
    assert(vfield(e11, "outcome"@) == outcome_json(m.outcome)) by {
        lemma_vfield_opt_push_at(e10, "reason"@, str_json(m.reason), "outcome"@);
    }
    assert(vfield(e12, "outcome"@) == outcome_json(m.outcome)) by {
        lemma_vfield_opt_push_at(e11, "model_presentation"@, str_json(m.model_presentation), "outcome"@);
    }
    assert(vfield(e13, "outcome"@) == outcome_json(m.outcome)) by {
        lemma_vfield_opt_push_at(e12, "truncated"@, bool_json(m.truncated), "outcome"@);
    }
    assert(vfield(e14, "outcome"@) == outcome_json(m.outcome)) by {
        lemma_vfield_opt_push_at(e13, "output_locator"@, locator_json(m.output_locator), "outcome"@);
    }
    assert(vfield(e15, "outcome"@) == outcome_json(m.outcome)) by {
        lemma_vfield_opt_push_at(e14, "model_commit"@, commit_json(m.model_commit), "outcome"@);
    }
    assert(vfield(e16, "outcome"@) == outcome_json(m.outcome)) by {
        lemma_vfield_opt_push_at(e15, "mcp_server_key"@, str_json(m.mcp_server_key), "outcome"@);
    }
    assert(vfield(e17, "outcome"@) == outcome_json(m.outcome)) by {
        lemma_vfield_opt_push_at(e16, "mcp_remote_name"@, str_json(m.mcp_remote_name), "outcome"@);
    }
    assert(vfield(e18, "outcome"@) == outcome_json(m.outcome)) by {
        lemma_vfield_opt_push_at(e17, "compact"@, compact_json(m.compact), "outcome"@);
    }
    assert(e18 =~= native_entries(m));
}

proof fn lemma_native_key_executed(m: NativeMetaView)
    ensures
        vfield(native_entries(m), "executed"@) == bool_json(m.executed),
{
    lemma_native_key_names();
    let e0 = Seq::<(Seq<char>, JsonView)>::empty().push(("v"@, JsonView::Number(m.v as u64)));
    let e1 = opt_push(e0, "turn_id"@, str_json(m.turn_id));
    let e2 = opt_push(e1, "model_message_id"@, str_json(m.model_message_id));
    let e3 = opt_push(e2, "part_index"@, u32_json(m.part_index));
    let e4 = opt_push(e3, "batch_id"@, str_json(m.batch_id));
    let e5 = opt_push(e4, "tool_call_id"@, str_json(m.tool_call_id));
    let e6 = opt_push(e5, "function_name"@, str_json(m.function_name));
    let e7 = opt_push(e6, "raw_input"@, value_json(m.raw_input));
    let e8 = opt_push(e7, "phase"@, phase_json(m.phase));
    let e9 = opt_push(e8, "outcome"@, outcome_json(m.outcome));
    let e10 = opt_push(e9, "executed"@, bool_json(m.executed));
    let e11 = opt_push(e10, "reason"@, str_json(m.reason));
    let e12 = opt_push(e11, "model_presentation"@, str_json(m.model_presentation));
    let e13 = opt_push(e12, "truncated"@, bool_json(m.truncated));
    let e14 = opt_push(e13, "output_locator"@, locator_json(m.output_locator));
    let e15 = opt_push(e14, "model_commit"@, commit_json(m.model_commit));
    let e16 = opt_push(e15, "mcp_server_key"@, str_json(m.mcp_server_key));
    let e17 = opt_push(e16, "mcp_remote_name"@, str_json(m.mcp_remote_name));
    let e18 = opt_push(e17, "compact"@, compact_json(m.compact));
    assert(vfield(e0, "executed"@) is None) by {
        lemma_vfield_opt_push_at(Seq::empty(), "v"@, Some(JsonView::Number(m.v as u64)), "executed"@);
    }
    assert(vfield(e1, "executed"@) is None) by {
        lemma_vfield_opt_push_at(e0, "turn_id"@, str_json(m.turn_id), "executed"@);
    }
    assert(vfield(e2, "executed"@) is None) by {
        lemma_vfield_opt_push_at(e1, "model_message_id"@, str_json(m.model_message_id), "executed"@);
    }
    assert(vfield(e3, "executed"@) is None) by {
        lemma_vfield_opt_push_at(e2, "part_index"@, u32_json(m.part_index), "executed"@);
    }
    assert(vfield(e4, "executed"@) is None) by {
        lemma_vfield_opt_push_at(e3, "batch_id"@, str_json(m.batch_id), "executed"@);
    }
    assert(vfield(e5, "executed"@) is None) by {
        lemma_vfield_opt_push_at(e4, "tool_call_id"@, str_json(m.tool_call_id), "executed"@);
    }
    assert(vfield(e6, "executed"@) is None) by {
        lemma_vfield_opt_push_at(e5, "function_name"@, str_json(m.function_name), "executed"@);
    }
    assert(vfield(e7, "executed"@) is None) by {
        lemma_vfield_opt_push_at(e6, "raw_input"@, value_json(m.raw_input), "executed"@);
    }
    assert(vfield(e8, "executed"@) is None) by {
        lemma_vfield_opt_push_at(e7, "phase"@, phase_json(m.phase), "executed"@);
    }
    assert(vfield(e9, "executed"@) is None) by {
        lemma_vfield_opt_push_at(e8, "outcome"@, outcome_json(m.outcome), "executed"@);
    }
    assert(vfield(e10, "executed"@) == bool_json(m.executed)) by {
        lemma_vfield_opt_push_at(e9, "executed"@, bool_json(m.executed), "executed"@);
    }
    assert(vfield(e11, "executed"@) == bool_json(m.executed)) by {
        lemma_vfield_opt_push_at(e10, "reason"@, str_json(m.reason), "executed"@);
    }
    assert(vfield(e12, "executed"@) == bool_json(m.executed)) by {
        lemma_vfield_opt_push_at(e11, "model_presentation"@, str_json(m.model_presentation), "executed"@);
    }
    assert(vfield(e13, "executed"@) == bool_json(m.executed)) by {
        lemma_vfield_opt_push_at(e12, "truncated"@, bool_json(m.truncated), "executed"@);
    }
    assert(vfield(e14, "executed"@) == bool_json(m.executed)) by {
        lemma_vfield_opt_push_at(e13, "output_locator"@, locator_json(m.output_locator), "executed"@);
    }
    assert(vfield(e15, "executed"@) == bool_json(m.executed)) by {
        lemma_vfield_opt_push_at(e14, "model_commit"@, commit_json(m.model_commit), "executed"@);
    }
    assert(vfield(e16, "executed"@) == bool_json(m.executed)) by {
        lemma_vfield_opt_push_at(e15, "mcp_server_key"@, str_json(m.mcp_server_key), "executed"@);
    }
    assert(vfield(e17, "executed"@) == bool_json(m.executed)) by {
        lemma_vfield_opt_push_at(e16, "mcp_remote_name"@, str_json(m.mcp_remote_name), "executed"@);
    }
    assert(vfield(e18, "executed"@) == bool_json(m.executed)) by {
        lemma_vfield_opt_push_at(e17, "compact"@, compact_json(m.compact), "executed"@);
    }
    assert(e18 =~= native_entries(m));
}

proof fn lemma_native_key_reason(m: NativeMetaView)
    ensures
        vfield(native_entries(m), "reason"@) == str_json(m.reason),
{
    lemma_native_key_names();
    let e0 = Seq::<(Seq<char>, JsonView)>::empty().push(("v"@, JsonView::Number(m.v as u64)));
    let e1 = opt_push(e0, "turn_id"@, str_json(m.turn_id));
    let e2 = opt_push(e1, "model_message_id"@, str_json(m.model_message_id));
    let e3 = opt_push(e2, "part_index"@, u32_json(m.part_index));
    let e4 = opt_push(e3, "batch_id"@, str_json(m.batch_id));
    let e5 = opt_push(e4, "tool_call_id"@, str_json(m.tool_call_id));
    let e6 = opt_push(e5, "function_name"@, str_json(m.function_name));
    let e7 = opt_push(e6, "raw_input"@, value_json(m.raw_input));
    let e8 = opt_push(e7, "phase"@, phase_json(m.phase));
    let e9 = opt_push(e8, "outcome"@, outcome_json(m.outcome));
    let e10 = opt_push(e9, "executed"@, bool_json(m.executed));
    let e11 = opt_push(e10, "reason"@, str_json(m.reason));
    let e12 = opt_push(e11, "model_presentation"@, str_json(m.model_presentation));
    let e13 = opt_push(e12, "truncated"@, bool_json(m.truncated));
    let e14 = opt_push(e13, "output_locator"@, locator_json(m.output_locator));
    let e15 = opt_push(e14, "model_commit"@, commit_json(m.model_commit));
    let e16 = opt_push(e15, "mcp_server_key"@, str_json(m.mcp_server_key));
    let e17 = opt_push(e16, "mcp_remote_name"@, str_json(m.mcp_remote_name));
    let e18 = opt_push(e17, "compact"@, compact_json(m.compact));
    assert(vfield(e0, "reason"@) is None) by {
        lemma_vfield_opt_push_at(Seq::empty(), "v"@, Some(JsonView::Number(m.v as u64)), "reason"@);
    }
    assert(vfield(e1, "reason"@) is None) by {
        lemma_vfield_opt_push_at(e0, "turn_id"@, str_json(m.turn_id), "reason"@);
    }
    assert(vfield(e2, "reason"@) is None) by {
        lemma_vfield_opt_push_at(e1, "model_message_id"@, str_json(m.model_message_id), "reason"@);
    }
    assert(vfield(e3, "reason"@) is None) by {
        lemma_vfield_opt_push_at(e2, "part_index"@, u32_json(m.part_index), "reason"@);
    }
    assert(vfield(e4, "reason"@) is None) by {
        lemma_vfield_opt_push_at(e3, "batch_id"@, str_json(m.batch_id), "reason"@);
    }
    assert(vfield(e5, "reason"@) is None) by {
        lemma_vfield_opt_push_at(e4, "tool_call_id"@, str_json(m.tool_call_id), "reason"@);
    }
    assert(vfield(e6, "reason"@) is None) by {
        lemma_vfield_opt_push_at(e5, "function_name"@, str_json(m.function_name), "reason"@);
    }
    assert(vfield(e7, "reason"@) is None) by {
        lemma_vfield_opt_push_at(e6, "raw_input"@, value_json(m.raw_input), "reason"@);
    }
    assert(vfield(e8, "reason"@) is None) by {
        lemma_vfield_opt_push_at(e7, "phase"@, phase_json(m.phase), "reason"@);
    }
    assert(vfield(e9, "reason"@) is None) by {
        lemma_vfield_opt_push_at(e8, "outcome"@, outcome_json(m.outcome), "reason"@);
    }
    assert(vfield(e10, "reason"@) is None) by {
        lemma_vfield_opt_push_at(e9, "executed"@, bool_json(m.executed), "reason"@);
    }
    assert(vfield(e11, "reason"@) == str_json(m.reason)) by {
        lemma_vfield_opt_push_at(e10, "reason"@, str_json(m.reason), "reason"@);
    }
    assert(vfield(e12, "reason"@) == str_json(m.reason)) by {
        lemma_vfield_opt_push_at(e11, "model_presentation"@, str_json(m.model_presentation), "reason"@);
    }
    assert(vfield(e13, "reason"@) == str_json(m.reason)) by {
        lemma_vfield_opt_push_at(e12, "truncated"@, bool_json(m.truncated), "reason"@);
    }
    assert(vfield(e14, "reason"@) == str_json(m.reason)) by {
        lemma_vfield_opt_push_at(e13, "output_locator"@, locator_json(m.output_locator), "reason"@);
    }
    assert(vfield(e15, "reason"@) == str_json(m.reason)) by {
        lemma_vfield_opt_push_at(e14, "model_commit"@, commit_json(m.model_commit), "reason"@);
    }
    assert(vfield(e16, "reason"@) == str_json(m.reason)) by {
        lemma_vfield_opt_push_at(e15, "mcp_server_key"@, str_json(m.mcp_server_key), "reason"@);
    }
    assert(vfield(e17, "reason"@) == str_json(m.reason)) by {
        lemma_vfield_opt_push_at(e16, "mcp_remote_name"@, str_json(m.mcp_remote_name), "reason"@);
    }
    assert(vfield(e18, "reason"@) == str_json(m.reason)) by {
        lemma_vfield_opt_push_at(e17, "compact"@, compact_json(m.compact), "reason"@);
    }
    assert(e18 =~= native_entries(m));
}

proof fn lemma_native_key_model_presentation(m: NativeMetaView)
    ensures
        vfield(native_entries(m), "model_presentation"@) == str_json(m.model_presentation),
{
    lemma_native_key_names();
    let e0 = Seq::<(Seq<char>, JsonView)>::empty().push(("v"@, JsonView::Number(m.v as u64)));
    let e1 = opt_push(e0, "turn_id"@, str_json(m.turn_id));
    let e2 = opt_push(e1, "model_message_id"@, str_json(m.model_message_id));
    let e3 = opt_push(e2, "part_index"@, u32_json(m.part_index));
    let e4 = opt_push(e3, "batch_id"@, str_json(m.batch_id));
    let e5 = opt_push(e4, "tool_call_id"@, str_json(m.tool_call_id));
    let e6 = opt_push(e5, "function_name"@, str_json(m.function_name));
    let e7 = opt_push(e6, "raw_input"@, value_json(m.raw_input));
    let e8 = opt_push(e7, "phase"@, phase_json(m.phase));
    let e9 = opt_push(e8, "outcome"@, outcome_json(m.outcome));
    let e10 = opt_push(e9, "executed"@, bool_json(m.executed));
    let e11 = opt_push(e10, "reason"@, str_json(m.reason));
    let e12 = opt_push(e11, "model_presentation"@, str_json(m.model_presentation));
    let e13 = opt_push(e12, "truncated"@, bool_json(m.truncated));
    let e14 = opt_push(e13, "output_locator"@, locator_json(m.output_locator));
    let e15 = opt_push(e14, "model_commit"@, commit_json(m.model_commit));
    let e16 = opt_push(e15, "mcp_server_key"@, str_json(m.mcp_server_key));
    let e17 = opt_push(e16, "mcp_remote_name"@, str_json(m.mcp_remote_name));
    let e18 = opt_push(e17, "compact"@, compact_json(m.compact));
    assert(vfield(e0, "model_presentation"@) is None) by {
        lemma_vfield_opt_push_at(Seq::empty(), "v"@, Some(JsonView::Number(m.v as u64)), "model_presentation"@);
    }
    assert(vfield(e1, "model_presentation"@) is None) by {
        lemma_vfield_opt_push_at(e0, "turn_id"@, str_json(m.turn_id), "model_presentation"@);
    }
    assert(vfield(e2, "model_presentation"@) is None) by {
        lemma_vfield_opt_push_at(e1, "model_message_id"@, str_json(m.model_message_id), "model_presentation"@);
    }
    assert(vfield(e3, "model_presentation"@) is None) by {
        lemma_vfield_opt_push_at(e2, "part_index"@, u32_json(m.part_index), "model_presentation"@);
    }
    assert(vfield(e4, "model_presentation"@) is None) by {
        lemma_vfield_opt_push_at(e3, "batch_id"@, str_json(m.batch_id), "model_presentation"@);
    }
    assert(vfield(e5, "model_presentation"@) is None) by {
        lemma_vfield_opt_push_at(e4, "tool_call_id"@, str_json(m.tool_call_id), "model_presentation"@);
    }
    assert(vfield(e6, "model_presentation"@) is None) by {
        lemma_vfield_opt_push_at(e5, "function_name"@, str_json(m.function_name), "model_presentation"@);
    }
    assert(vfield(e7, "model_presentation"@) is None) by {
        lemma_vfield_opt_push_at(e6, "raw_input"@, value_json(m.raw_input), "model_presentation"@);
    }
    assert(vfield(e8, "model_presentation"@) is None) by {
        lemma_vfield_opt_push_at(e7, "phase"@, phase_json(m.phase), "model_presentation"@);
    }
    assert(vfield(e9, "model_presentation"@) is None) by {
        lemma_vfield_opt_push_at(e8, "outcome"@, outcome_json(m.outcome), "model_presentation"@);
    }
    assert(vfield(e10, "model_presentation"@) is None) by {
        lemma_vfield_opt_push_at(e9, "executed"@, bool_json(m.executed), "model_presentation"@);
    }
    assert(vfield(e11, "model_presentation"@) is None) by {
        lemma_vfield_opt_push_at(e10, "reason"@, str_json(m.reason), "model_presentation"@);
    }
    assert(vfield(e12, "model_presentation"@) == str_json(m.model_presentation)) by {
        lemma_vfield_opt_push_at(e11, "model_presentation"@, str_json(m.model_presentation), "model_presentation"@);
    }
    assert(vfield(e13, "model_presentation"@) == str_json(m.model_presentation)) by {
        lemma_vfield_opt_push_at(e12, "truncated"@, bool_json(m.truncated), "model_presentation"@);
    }
    assert(vfield(e14, "model_presentation"@) == str_json(m.model_presentation)) by {
        lemma_vfield_opt_push_at(e13, "output_locator"@, locator_json(m.output_locator), "model_presentation"@);
    }
    assert(vfield(e15, "model_presentation"@) == str_json(m.model_presentation)) by {
        lemma_vfield_opt_push_at(e14, "model_commit"@, commit_json(m.model_commit), "model_presentation"@);
    }
    assert(vfield(e16, "model_presentation"@) == str_json(m.model_presentation)) by {
        lemma_vfield_opt_push_at(e15, "mcp_server_key"@, str_json(m.mcp_server_key), "model_presentation"@);
    }
    assert(vfield(e17, "model_presentation"@) == str_json(m.model_presentation)) by {
        lemma_vfield_opt_push_at(e16, "mcp_remote_name"@, str_json(m.mcp_remote_name), "model_presentation"@);
    }
    assert(vfield(e18, "model_presentation"@) == str_json(m.model_presentation)) by {
        lemma_vfield_opt_push_at(e17, "compact"@, compact_json(m.compact), "model_presentation"@);
    }
    assert(e18 =~= native_entries(m));
}

proof fn lemma_native_key_truncated(m: NativeMetaView)
    ensures
        vfield(native_entries(m), "truncated"@) == bool_json(m.truncated),
{
    lemma_native_key_names();
    let e0 = Seq::<(Seq<char>, JsonView)>::empty().push(("v"@, JsonView::Number(m.v as u64)));
    let e1 = opt_push(e0, "turn_id"@, str_json(m.turn_id));
    let e2 = opt_push(e1, "model_message_id"@, str_json(m.model_message_id));
    let e3 = opt_push(e2, "part_index"@, u32_json(m.part_index));
    let e4 = opt_push(e3, "batch_id"@, str_json(m.batch_id));
    let e5 = opt_push(e4, "tool_call_id"@, str_json(m.tool_call_id));
    let e6 = opt_push(e5, "function_name"@, str_json(m.function_name));
    let e7 = opt_push(e6, "raw_input"@, value_json(m.raw_input));
    let e8 = opt_push(e7, "phase"@, phase_json(m.phase));
    let e9 = opt_push(e8, "outcome"@, outcome_json(m.outcome));
    let e10 = opt_push(e9, "executed"@, bool_json(m.executed));
    let e11 = opt_push(e10, "reason"@, str_json(m.reason));
    let e12 = opt_push(e11, "model_presentation"@, str_json(m.model_presentation));
    let e13 = opt_push(e12, "truncated"@, bool_json(m.truncated));
    let e14 = opt_push(e13, "output_locator"@, locator_json(m.output_locator));
    let e15 = opt_push(e14, "model_commit"@, commit_json(m.model_commit));
    let e16 = opt_push(e15, "mcp_server_key"@, str_json(m.mcp_server_key));
    let e17 = opt_push(e16, "mcp_remote_name"@, str_json(m.mcp_remote_name));
    let e18 = opt_push(e17, "compact"@, compact_json(m.compact));
    assert(vfield(e0, "truncated"@) is None) by {
        lemma_vfield_opt_push_at(Seq::empty(), "v"@, Some(JsonView::Number(m.v as u64)), "truncated"@);
    }
    assert(vfield(e1, "truncated"@) is None) by {
        lemma_vfield_opt_push_at(e0, "turn_id"@, str_json(m.turn_id), "truncated"@);
    }
    assert(vfield(e2, "truncated"@) is None) by {
        lemma_vfield_opt_push_at(e1, "model_message_id"@, str_json(m.model_message_id), "truncated"@);
    }
    assert(vfield(e3, "truncated"@) is None) by {
        lemma_vfield_opt_push_at(e2, "part_index"@, u32_json(m.part_index), "truncated"@);
    }
    assert(vfield(e4, "truncated"@) is None) by {
        lemma_vfield_opt_push_at(e3, "batch_id"@, str_json(m.batch_id), "truncated"@);
    }
    assert(vfield(e5, "truncated"@) is None) by {
        lemma_vfield_opt_push_at(e4, "tool_call_id"@, str_json(m.tool_call_id), "truncated"@);
    }
    assert(vfield(e6, "truncated"@) is None) by {
        lemma_vfield_opt_push_at(e5, "function_name"@, str_json(m.function_name), "truncated"@);
    }
    assert(vfield(e7, "truncated"@) is None) by {
        lemma_vfield_opt_push_at(e6, "raw_input"@, value_json(m.raw_input), "truncated"@);
    }
    assert(vfield(e8, "truncated"@) is None) by {
        lemma_vfield_opt_push_at(e7, "phase"@, phase_json(m.phase), "truncated"@);
    }
    assert(vfield(e9, "truncated"@) is None) by {
        lemma_vfield_opt_push_at(e8, "outcome"@, outcome_json(m.outcome), "truncated"@);
    }
    assert(vfield(e10, "truncated"@) is None) by {
        lemma_vfield_opt_push_at(e9, "executed"@, bool_json(m.executed), "truncated"@);
    }
    assert(vfield(e11, "truncated"@) is None) by {
        lemma_vfield_opt_push_at(e10, "reason"@, str_json(m.reason), "truncated"@);
    }
    assert(vfield(e12, "truncated"@) is None) by {
        lemma_vfield_opt_push_at(e11, "model_presentation"@, str_json(m.model_presentation), "truncated"@);
    }
    assert(vfield(e13, "truncated"@) == bool_json(m.truncated)) by {
        lemma_vfield_opt_push_at(e12, "truncated"@, bool_json(m.truncated), "truncated"@);
    }
    assert(vfield(e14, "truncated"@) == bool_json(m.truncated)) by {
        lemma_vfield_opt_push_at(e13, "output_locator"@, locator_json(m.output_locator), "truncated"@);
    }
    assert(vfield(e15, "truncated"@) == bool_json(m.truncated)) by {
        lemma_vfield_opt_push_at(e14, "model_commit"@, commit_json(m.model_commit), "truncated"@);
    }
    assert(vfield(e16, "truncated"@) == bool_json(m.truncated)) by {
        lemma_vfield_opt_push_at(e15, "mcp_server_key"@, str_json(m.mcp_server_key), "truncated"@);
    }
    assert(vfield(e17, "truncated"@) == bool_json(m.truncated)) by {
        lemma_vfield_opt_push_at(e16, "mcp_remote_name"@, str_json(m.mcp_remote_name), "truncated"@);
    }
    assert(vfield(e18, "truncated"@) == bool_json(m.truncated)) by {
        lemma_vfield_opt_push_at(e17, "compact"@, compact_json(m.compact), "truncated"@);
    }
    assert(e18 =~= native_entries(m));
}

proof fn lemma_native_key_output_locator(m: NativeMetaView)
    ensures
        vfield(native_entries(m), "output_locator"@) == locator_json(m.output_locator),
{
    lemma_native_key_names();
    let e0 = Seq::<(Seq<char>, JsonView)>::empty().push(("v"@, JsonView::Number(m.v as u64)));
    let e1 = opt_push(e0, "turn_id"@, str_json(m.turn_id));
    let e2 = opt_push(e1, "model_message_id"@, str_json(m.model_message_id));
    let e3 = opt_push(e2, "part_index"@, u32_json(m.part_index));
    let e4 = opt_push(e3, "batch_id"@, str_json(m.batch_id));
    let e5 = opt_push(e4, "tool_call_id"@, str_json(m.tool_call_id));
    let e6 = opt_push(e5, "function_name"@, str_json(m.function_name));
    let e7 = opt_push(e6, "raw_input"@, value_json(m.raw_input));
    let e8 = opt_push(e7, "phase"@, phase_json(m.phase));
    let e9 = opt_push(e8, "outcome"@, outcome_json(m.outcome));
    let e10 = opt_push(e9, "executed"@, bool_json(m.executed));
    let e11 = opt_push(e10, "reason"@, str_json(m.reason));
    let e12 = opt_push(e11, "model_presentation"@, str_json(m.model_presentation));
    let e13 = opt_push(e12, "truncated"@, bool_json(m.truncated));
    let e14 = opt_push(e13, "output_locator"@, locator_json(m.output_locator));
    let e15 = opt_push(e14, "model_commit"@, commit_json(m.model_commit));
    let e16 = opt_push(e15, "mcp_server_key"@, str_json(m.mcp_server_key));
    let e17 = opt_push(e16, "mcp_remote_name"@, str_json(m.mcp_remote_name));
    let e18 = opt_push(e17, "compact"@, compact_json(m.compact));
    assert(vfield(e0, "output_locator"@) is None) by {
        lemma_vfield_opt_push_at(Seq::empty(), "v"@, Some(JsonView::Number(m.v as u64)), "output_locator"@);
    }
    assert(vfield(e1, "output_locator"@) is None) by {
        lemma_vfield_opt_push_at(e0, "turn_id"@, str_json(m.turn_id), "output_locator"@);
    }
    assert(vfield(e2, "output_locator"@) is None) by {
        lemma_vfield_opt_push_at(e1, "model_message_id"@, str_json(m.model_message_id), "output_locator"@);
    }
    assert(vfield(e3, "output_locator"@) is None) by {
        lemma_vfield_opt_push_at(e2, "part_index"@, u32_json(m.part_index), "output_locator"@);
    }
    assert(vfield(e4, "output_locator"@) is None) by {
        lemma_vfield_opt_push_at(e3, "batch_id"@, str_json(m.batch_id), "output_locator"@);
    }
    assert(vfield(e5, "output_locator"@) is None) by {
        lemma_vfield_opt_push_at(e4, "tool_call_id"@, str_json(m.tool_call_id), "output_locator"@);
    }
    assert(vfield(e6, "output_locator"@) is None) by {
        lemma_vfield_opt_push_at(e5, "function_name"@, str_json(m.function_name), "output_locator"@);
    }
    assert(vfield(e7, "output_locator"@) is None) by {
        lemma_vfield_opt_push_at(e6, "raw_input"@, value_json(m.raw_input), "output_locator"@);
    }
    assert(vfield(e8, "output_locator"@) is None) by {
        lemma_vfield_opt_push_at(e7, "phase"@, phase_json(m.phase), "output_locator"@);
    }
    assert(vfield(e9, "output_locator"@) is None) by {
        lemma_vfield_opt_push_at(e8, "outcome"@, outcome_json(m.outcome), "output_locator"@);
    }
    assert(vfield(e10, "output_locator"@) is None) by {
        lemma_vfield_opt_push_at(e9, "executed"@, bool_json(m.executed), "output_locator"@);
    }
    assert(vfield(e11, "output_locator"@) is None) by {
        lemma_vfield_opt_push_at(e10, "reason"@, str_json(m.reason), "output_locator"@);
    }
    assert(vfield(e12, "output_locator"@) is None) by {
        lemma_vfield_opt_push_at(e11, "model_presentation"@, str_json(m.model_presentation), "output_locator"@);
    }
    assert(vfield(e13, "output_locator"@) is None) by {
        lemma_vfield_opt_push_at(e12, "truncated"@, bool_json(m.truncated), "output_locator"@);
    }
    assert(vfield(e14, "output_locator"@) == locator_json(m.output_locator)) by {
        lemma_vfield_opt_push_at(e13, "output_locator"@, locator_json(m.output_locator), "output_locator"@);
    }
    assert(vfield(e15, "output_locator"@) == locator_json(m.output_locator)) by {
        lemma_vfield_opt_push_at(e14, "model_commit"@, commit_json(m.model_commit), "output_locator"@);
    }
    assert(vfield(e16, "output_locator"@) == locator_json(m.output_locator)) by {
        lemma_vfield_opt_push_at(e15, "mcp_server_key"@, str_json(m.mcp_server_key), "output_locator"@);
    }
    assert(vfield(e17, "output_locator"@) == locator_json(m.output_locator)) by {
        lemma_vfield_opt_push_at(e16, "mcp_remote_name"@, str_json(m.mcp_remote_name), "output_locator"@);
    }
    assert(vfield(e18, "output_locator"@) == locator_json(m.output_locator)) by {
        lemma_vfield_opt_push_at(e17, "compact"@, compact_json(m.compact), "output_locator"@);
    }
    assert(e18 =~= native_entries(m));
}

proof fn lemma_native_key_model_commit(m: NativeMetaView)
    ensures
        vfield(native_entries(m), "model_commit"@) == commit_json(m.model_commit),
{
    lemma_native_key_names();
    let e0 = Seq::<(Seq<char>, JsonView)>::empty().push(("v"@, JsonView::Number(m.v as u64)));
    let e1 = opt_push(e0, "turn_id"@, str_json(m.turn_id));
    let e2 = opt_push(e1, "model_message_id"@, str_json(m.model_message_id));
    let e3 = opt_push(e2, "part_index"@, u32_json(m.part_index));
    let e4 = opt_push(e3, "batch_id"@, str_json(m.batch_id));
    let e5 = opt_push(e4, "tool_call_id"@, str_json(m.tool_call_id));
    let e6 = opt_push(e5, "function_name"@, str_json(m.function_name));
    let e7 = opt_push(e6, "raw_input"@, value_json(m.raw_input));
    let e8 = opt_push(e7, "phase"@, phase_json(m.phase));
    let e9 = opt_push(e8, "outcome"@, outcome_json(m.outcome));
    let e10 = opt_push(e9, "executed"@, bool_json(m.executed));
    let e11 = opt_push(e10, "reason"@, str_json(m.reason));
    let e12 = opt_push(e11, "model_presentation"@, str_json(m.model_presentation));
    let e13 = opt_push(e12, "truncated"@, bool_json(m.truncated));
    let e14 = opt_push(e13, "output_locator"@, locator_json(m.output_locator));
    let e15 = opt_push(e14, "model_commit"@, commit_json(m.model_commit));
    let e16 = opt_push(e15, "mcp_server_key"@, str_json(m.mcp_server_key));
    let e17 = opt_push(e16, "mcp_remote_name"@, str_json(m.mcp_remote_name));
    let e18 = opt_push(e17, "compact"@, compact_json(m.compact));
    assert(vfield(e0, "model_commit"@) is None) by {
        lemma_vfield_opt_push_at(Seq::empty(), "v"@, Some(JsonView::Number(m.v as u64)), "model_commit"@);
    }
    assert(vfield(e1, "model_commit"@) is None) by {
        lemma_vfield_opt_push_at(e0, "turn_id"@, str_json(m.turn_id), "model_commit"@);
    }
    assert(vfield(e2, "model_commit"@) is None) by {
        lemma_vfield_opt_push_at(e1, "model_message_id"@, str_json(m.model_message_id), "model_commit"@);
    }
    assert(vfield(e3, "model_commit"@) is None) by {
        lemma_vfield_opt_push_at(e2, "part_index"@, u32_json(m.part_index), "model_commit"@);
    }
    assert(vfield(e4, "model_commit"@) is None) by {
        lemma_vfield_opt_push_at(e3, "batch_id"@, str_json(m.batch_id), "model_commit"@);
    }
    assert(vfield(e5, "model_commit"@) is None) by {
        lemma_vfield_opt_push_at(e4, "tool_call_id"@, str_json(m.tool_call_id), "model_commit"@);
    }
    assert(vfield(e6, "model_commit"@) is None) by {
        lemma_vfield_opt_push_at(e5, "function_name"@, str_json(m.function_name), "model_commit"@);
    }
    assert(vfield(e7, "model_commit"@) is None) by {
        lemma_vfield_opt_push_at(e6, "raw_input"@, value_json(m.raw_input), "model_commit"@);
    }
    assert(vfield(e8, "model_commit"@) is None) by {
        lemma_vfield_opt_push_at(e7, "phase"@, phase_json(m.phase), "model_commit"@);
    }
    assert(vfield(e9, "model_commit"@) is None) by {
        lemma_vfield_opt_push_at(e8, "outcome"@, outcome_json(m.outcome), "model_commit"@);
    }
    assert(vfield(e10, "model_commit"@) is None) by {
        lemma_vfield_opt_push_at(e9, "executed"@, bool_json(m.executed), "model_commit"@);
    }
    assert(vfield(e11, "model_commit"@) is None) by {
        lemma_vfield_opt_push_at(e10, "reason"@, str_json(m.reason), "model_commit"@);
    }
    assert(vfield(e12, "model_commit"@) is None) by {
        lemma_vfield_opt_push_at(e11, "model_presentation"@, str_json(m.model_presentation), "model_commit"@);
    }
    assert(vfield(e13, "model_commit"@) is None) by {
        lemma_vfield_opt_push_at(e12, "truncated"@, bool_json(m.truncated), "model_commit"@);
    }
    assert(vfield(e14, "model_commit"@) is None) by {
        lemma_vfield_opt_push_at(e13, "output_locator"@, locator_json(m.output_locator), "model_commit"@);
    }
    assert(vfield(e15, "model_commit"@) == commit_json(m.model_commit)) by {
        lemma_vfield_opt_push_at(e14, "model_commit"@, commit_json(m.model_commit), "model_commit"@);
    }
    assert(vfield(e16, "model_commit"@) == commit_json(m.model_commit)) by {
        lemma_vfield_opt_push_at(e15, "mcp_server_key"@, str_json(m.mcp_server_key), "model_commit"@);
    }
    assert(vfield(e17, "model_commit"@) == commit_json(m.model_commit)) by {
        lemma_vfield_opt_push_at(e16, "mcp_remote_name"@, str_json(m.mcp_remote_name), "model_commit"@);
    }
    assert(vfield(e18, "model_commit"@) == commit_json(m.model_commit)) by {
        lemma_vfield_opt_push_at(e17, "compact"@, compact_json(m.compact), "model_commit"@);
    }
    assert(e18 =~= native_entries(m));
}

proof fn lemma_native_key_mcp_server_key(m: NativeMetaView)
    ensures
        vfield(native_entries(m), "mcp_server_key"@) == str_json(m.mcp_server_key),
{
    lemma_native_key_names();
    let e0 = Seq::<(Seq<char>, JsonView)>::empty().push(("v"@, JsonView::Number(m.v as u64)));
    let e1 = opt_push(e0, "turn_id"@, str_json(m.turn_id));
    let e2 = opt_push(e1, "model_message_id"@, str_json(m.model_message_id));
    let e3 = opt_push(e2, "part_index"@, u32_json(m.part_index));
    let e4 = opt_push(e3, "batch_id"@, str_json(m.batch_id));
    let e5 = opt_push(e4, "tool_call_id"@, str_json(m.tool_call_id));
    let e6 = opt_push(e5, "function_name"@, str_json(m.function_name));
    let e7 = opt_push(e6, "raw_input"@, value_json(m.raw_input));
    let e8 = opt_push(e7, "phase"@, phase_json(m.phase));
    let e9 = opt_push(e8, "outcome"@, outcome_json(m.outcome));
    let e10 = opt_push(e9, "executed"@, bool_json(m.executed));
    let e11 = opt_push(e10, "reason"@, str_json(m.reason));
    let e12 = opt_push(e11, "model_presentation"@, str_json(m.model_presentation));
    let e13 = opt_push(e12, "truncated"@, bool_json(m.truncated));
    let e14 = opt_push(e13, "output_locator"@, locator_json(m.output_locator));
    let e15 = opt_push(e14, "model_commit"@, commit_json(m.model_commit));
    let e16 = opt_push(e15, "mcp_server_key"@, str_json(m.mcp_server_key));
    let e17 = opt_push(e16, "mcp_remote_name"@, str_json(m.mcp_remote_name));
    let e18 = opt_push(e17, "compact"@, compact_json(m.compact));
    assert(vfield(e0, "mcp_server_key"@) is None) by {
        lemma_vfield_opt_push_at(Seq::empty(), "v"@, Some(JsonView::Number(m.v as u64)), "mcp_server_key"@);
    }
    assert(vfield(e1, "mcp_server_key"@) is None) by {
        lemma_vfield_opt_push_at(e0, "turn_id"@, str_json(m.turn_id), "mcp_server_key"@);
    }
    assert(vfield(e2, "mcp_server_key"@) is None) by {
        lemma_vfield_opt_push_at(e1, "model_message_id"@, str_json(m.model_message_id), "mcp_server_key"@);
    }
    assert(vfield(e3, "mcp_server_key"@) is None) by {
        lemma_vfield_opt_push_at(e2, "part_index"@, u32_json(m.part_index), "mcp_server_key"@);
    }
    assert(vfield(e4, "mcp_server_key"@) is None) by {
        lemma_vfield_opt_push_at(e3, "batch_id"@, str_json(m.batch_id), "mcp_server_key"@);
    }
    assert(vfield(e5, "mcp_server_key"@) is None) by {
        lemma_vfield_opt_push_at(e4, "tool_call_id"@, str_json(m.tool_call_id), "mcp_server_key"@);
    }
    assert(vfield(e6, "mcp_server_key"@) is None) by {
        lemma_vfield_opt_push_at(e5, "function_name"@, str_json(m.function_name), "mcp_server_key"@);
    }
    assert(vfield(e7, "mcp_server_key"@) is None) by {
        lemma_vfield_opt_push_at(e6, "raw_input"@, value_json(m.raw_input), "mcp_server_key"@);
    }
    assert(vfield(e8, "mcp_server_key"@) is None) by {
        lemma_vfield_opt_push_at(e7, "phase"@, phase_json(m.phase), "mcp_server_key"@);
    }
    assert(vfield(e9, "mcp_server_key"@) is None) by {
        lemma_vfield_opt_push_at(e8, "outcome"@, outcome_json(m.outcome), "mcp_server_key"@);
    }
    assert(vfield(e10, "mcp_server_key"@) is None) by {
        lemma_vfield_opt_push_at(e9, "executed"@, bool_json(m.executed), "mcp_server_key"@);
    }
    assert(vfield(e11, "mcp_server_key"@) is None) by {
        lemma_vfield_opt_push_at(e10, "reason"@, str_json(m.reason), "mcp_server_key"@);
    }
    assert(vfield(e12, "mcp_server_key"@) is None) by {
        lemma_vfield_opt_push_at(e11, "model_presentation"@, str_json(m.model_presentation), "mcp_server_key"@);
    }
    assert(vfield(e13, "mcp_server_key"@) is None) by {
        lemma_vfield_opt_push_at(e12, "truncated"@, bool_json(m.truncated), "mcp_server_key"@);
    }
    assert(vfield(e14, "mcp_server_key"@) is None) by {
        lemma_vfield_opt_push_at(e13, "output_locator"@, locator_json(m.output_locator), "mcp_server_key"@);
    }
    assert(vfield(e15, "mcp_server_key"@) is None) by {
        lemma_vfield_opt_push_at(e14, "model_commit"@, commit_json(m.model_commit), "mcp_server_key"@);
    }
    assert(vfield(e16, "mcp_server_key"@) == str_json(m.mcp_server_key)) by {
        lemma_vfield_opt_push_at(e15, "mcp_server_key"@, str_json(m.mcp_server_key), "mcp_server_key"@);
    }
    assert(vfield(e17, "mcp_server_key"@) == str_json(m.mcp_server_key)) by {
        lemma_vfield_opt_push_at(e16, "mcp_remote_name"@, str_json(m.mcp_remote_name), "mcp_server_key"@);
    }
    assert(vfield(e18, "mcp_server_key"@) == str_json(m.mcp_server_key)) by {
        lemma_vfield_opt_push_at(e17, "compact"@, compact_json(m.compact), "mcp_server_key"@);
    }
    assert(e18 =~= native_entries(m));
}

proof fn lemma_native_key_mcp_remote_name(m: NativeMetaView)
    ensures
        vfield(native_entries(m), "mcp_remote_name"@) == str_json(m.mcp_remote_name),
{
    lemma_native_key_names();
    let e0 = Seq::<(Seq<char>, JsonView)>::empty().push(("v"@, JsonView::Number(m.v as u64)));
    let e1 = opt_push(e0, "turn_id"@, str_json(m.turn_id));
    let e2 = opt_push(e1, "model_message_id"@, str_json(m.model_message_id));
    let e3 = opt_push(e2, "part_index"@, u32_json(m.part_index));
    let e4 = opt_push(e3, "batch_id"@, str_json(m.batch_id));
    let e5 = opt_push(e4, "tool_call_id"@, str_json(m.tool_call_id));
    let e6 = opt_push(e5, "function_name"@, str_json(m.function_name));
    let e7 = opt_push(e6, "raw_input"@, value_json(m.raw_input));
    let e8 = opt_push(e7, "phase"@, phase_json(m.phase));
    let e9 = opt_push(e8, "outcome"@, outcome_json(m.outcome));
    let e10 = opt_push(e9, "executed"@, bool_json(m.executed));
    let e11 = opt_push(e10, "reason"@, str_json(m.reason));
    let e12 = opt_push(e11, "model_presentation"@, str_json(m.model_presentation));
    let e13 = opt_push(e12, "truncated"@, bool_json(m.truncated));
    let e14 = opt_push(e13, "output_locator"@, locator_json(m.output_locator));
    let e15 = opt_push(e14, "model_commit"@, commit_json(m.model_commit));
    let e16 = opt_push(e15, "mcp_server_key"@, str_json(m.mcp_server_key));
    let e17 = opt_push(e16, "mcp_remote_name"@, str_json(m.mcp_remote_name));
    let e18 = opt_push(e17, "compact"@, compact_json(m.compact));
    assert(vfield(e0, "mcp_remote_name"@) is None) by {
        lemma_vfield_opt_push_at(Seq::empty(), "v"@, Some(JsonView::Number(m.v as u64)), "mcp_remote_name"@);
    }
    assert(vfield(e1, "mcp_remote_name"@) is None) by {
        lemma_vfield_opt_push_at(e0, "turn_id"@, str_json(m.turn_id), "mcp_remote_name"@);
    }
    assert(vfield(e2, "mcp_remote_name"@) is None) by {
        lemma_vfield_opt_push_at(e1, "model_message_id"@, str_json(m.model_message_id), "mcp_remote_name"@);
    }
    assert(vfield(e3, "mcp_remote_name"@) is None) by {
        lemma_vfield_opt_push_at(e2, "part_index"@, u32_json(m.part_index), "mcp_remote_name"@);
    }
    assert(vfield(e4, "mcp_remote_name"@) is None) by {
        lemma_vfield_opt_push_at(e3, "batch_id"@, str_json(m.batch_id), "mcp_remote_name"@);
    }
    assert(vfield(e5, "mcp_remote_name"@) is None) by {
        lemma_vfield_opt_push_at(e4, "tool_call_id"@, str_json(m.tool_call_id), "mcp_remote_name"@);
    }
    assert(vfield(e6, "mcp_remote_name"@) is None) by {
        lemma_vfield_opt_push_at(e5, "function_name"@, str_json(m.function_name), "mcp_remote_name"@);
    }
    assert(vfield(e7, "mcp_remote_name"@) is None) by {
        lemma_vfield_opt_push_at(e6, "raw_input"@, value_json(m.raw_input), "mcp_remote_name"@);
    }
    assert(vfield(e8, "mcp_remote_name"@) is None) by {
        lemma_vfield_opt_push_at(e7, "phase"@, phase_json(m.phase), "mcp_remote_name"@);
    }
    assert(vfield(e9, "mcp_remote_name"@) is None) by {
        lemma_vfield_opt_push_at(e8, "outcome"@, outcome_json(m.outcome), "mcp_remote_name"@);
    }
    assert(vfield(e10, "mcp_remote_name"@) is None) by {
        lemma_vfield_opt_push_at(e9, "executed"@, bool_json(m.executed), "mcp_remote_name"@);
    }
    assert(vfield(e11, "mcp_remote_name"@) is None) by {
        lemma_vfield_opt_push_at(e10, "reason"@, str_json(m.reason), "mcp_remote_name"@);
    }
    assert(vfield(e12, "mcp_remote_name"@) is None) by {
        lemma_vfield_opt_push_at(e11, "model_presentation"@, str_json(m.model_presentation), "mcp_remote_name"@);
    }
    assert(vfield(e13, "mcp_remote_name"@) is None) by {
        lemma_vfield_opt_push_at(e12, "truncated"@, bool_json(m.truncated), "mcp_remote_name"@);
    }
    assert(vfield(e14, "mcp_remote_name"@) is None) by {
        lemma_vfield_opt_push_at(e13, "output_locator"@, locator_json(m.output_locator), "mcp_remote_name"@);
    }
    assert(vfield(e15, "mcp_remote_name"@) is None) by {
        lemma_vfield_opt_push_at(e14, "model_commit"@, commit_json(m.model_commit), "mcp_remote_name"@);
    }
    assert(vfield(e16, "mcp_remote_name"@) is None) by {
        lemma_vfield_opt_push_at(e15, "mcp_server_key"@, str_json(m.mcp_server_key), "mcp_remote_name"@);
    }
    assert(vfield(e17, "mcp_remote_name"@) == str_json(m.mcp_remote_name)) by {
        lemma_vfield_opt_push_at(e16, "mcp_remote_name"@, str_json(m.mcp_remote_name), "mcp_remote_name"@);
    }
    assert(vfield(e18, "mcp_remote_name"@) == str_json(m.mcp_remote_name)) by {
        lemma_vfield_opt_push_at(e17, "compact"@, compact_json(m.compact), "mcp_remote_name"@);
    }
    assert(e18 =~= native_entries(m));
}

proof fn lemma_native_key_compact(m: NativeMetaView)
    ensures
        vfield(native_entries(m), "compact"@) == compact_json(m.compact),
{
    lemma_native_key_names();
    let e0 = Seq::<(Seq<char>, JsonView)>::empty().push(("v"@, JsonView::Number(m.v as u64)));
    let e1 = opt_push(e0, "turn_id"@, str_json(m.turn_id));
    let e2 = opt_push(e1, "model_message_id"@, str_json(m.model_message_id));
    let e3 = opt_push(e2, "part_index"@, u32_json(m.part_index));
    let e4 = opt_push(e3, "batch_id"@, str_json(m.batch_id));
    let e5 = opt_push(e4, "tool_call_id"@, str_json(m.tool_call_id));
    let e6 = opt_push(e5, "function_name"@, str_json(m.function_name));
    let e7 = opt_push(e6, "raw_input"@, value_json(m.raw_input));
    let e8 = opt_push(e7, "phase"@, phase_json(m.phase));
    let e9 = opt_push(e8, "outcome"@, outcome_json(m.outcome));
    let e10 = opt_push(e9, "executed"@, bool_json(m.executed));
    let e11 = opt_push(e10, "reason"@, str_json(m.reason));
    let e12 = opt_push(e11, "model_presentation"@, str_json(m.model_presentation));
    let e13 = opt_push(e12, "truncated"@, bool_json(m.truncated));
    let e14 = opt_push(e13, "output_locator"@, locator_json(m.output_locator));
    let e15 = opt_push(e14, "model_commit"@, commit_json(m.model_commit));
    let e16 = opt_push(e15, "mcp_server_key"@, str_json(m.mcp_server_key));
    let e17 = opt_push(e16, "mcp_remote_name"@, str_json(m.mcp_remote_name));
    let e18 = opt_push(e17, "compact"@, compact_json(m.compact));
    assert(vfield(e0, "compact"@) is None) by {
        lemma_vfield_opt_push_at(Seq::empty(), "v"@, Some(JsonView::Number(m.v as u64)), "compact"@);
    }
    assert(vfield(e1, "compact"@) is None) by {
        lemma_vfield_opt_push_at(e0, "turn_id"@, str_json(m.turn_id), "compact"@);
    }
    assert(vfield(e2, "compact"@) is None) by {
        lemma_vfield_opt_push_at(e1, "model_message_id"@, str_json(m.model_message_id), "compact"@);
    }
    assert(vfield(e3, "compact"@) is None) by {
        lemma_vfield_opt_push_at(e2, "part_index"@, u32_json(m.part_index), "compact"@);
    }
    assert(vfield(e4, "compact"@) is None) by {
        lemma_vfield_opt_push_at(e3, "batch_id"@, str_json(m.batch_id), "compact"@);
    }
    assert(vfield(e5, "compact"@) is None) by {
        lemma_vfield_opt_push_at(e4, "tool_call_id"@, str_json(m.tool_call_id), "compact"@);
    }
    assert(vfield(e6, "compact"@) is None) by {
        lemma_vfield_opt_push_at(e5, "function_name"@, str_json(m.function_name), "compact"@);
    }
    assert(vfield(e7, "compact"@) is None) by {
        lemma_vfield_opt_push_at(e6, "raw_input"@, value_json(m.raw_input), "compact"@);
    }
    assert(vfield(e8, "compact"@) is None) by {
        lemma_vfield_opt_push_at(e7, "phase"@, phase_json(m.phase), "compact"@);
    }
    assert(vfield(e9, "compact"@) is None) by {
        lemma_vfield_opt_push_at(e8, "outcome"@, outcome_json(m.outcome), "compact"@);
    }
    assert(vfield(e10, "compact"@) is None) by {
        lemma_vfield_opt_push_at(e9, "executed"@, bool_json(m.executed), "compact"@);
    }
    assert(vfield(e11, "compact"@) is None) by {
        lemma_vfield_opt_push_at(e10, "reason"@, str_json(m.reason), "compact"@);
    }
    assert(vfield(e12, "compact"@) is None) by {
        lemma_vfield_opt_push_at(e11, "model_presentation"@, str_json(m.model_presentation), "compact"@);
    }
    assert(vfield(e13, "compact"@) is None) by {
        lemma_vfield_opt_push_at(e12, "truncated"@, bool_json(m.truncated), "compact"@);
    }
    assert(vfield(e14, "compact"@) is None) by {
        lemma_vfield_opt_push_at(e13, "output_locator"@, locator_json(m.output_locator), "compact"@);
    }
    assert(vfield(e15, "compact"@) is None) by {
        lemma_vfield_opt_push_at(e14, "model_commit"@, commit_json(m.model_commit), "compact"@);
    }
    assert(vfield(e16, "compact"@) is None) by {
        lemma_vfield_opt_push_at(e15, "mcp_server_key"@, str_json(m.mcp_server_key), "compact"@);
    }
    assert(vfield(e17, "compact"@) is None) by {
        lemma_vfield_opt_push_at(e16, "mcp_remote_name"@, str_json(m.mcp_remote_name), "compact"@);
    }
    assert(vfield(e18, "compact"@) == compact_json(m.compact)) by {
        lemma_vfield_opt_push_at(e17, "compact"@, compact_json(m.compact), "compact"@);
    }
    assert(e18 =~= native_entries(m));
}

/// Reading back a written record gives the record, when its free-form
/// input is not null (a null input is written, and reads back as absent).
pub proof fn lemma_native_round_trip(m: NativeMetaView)
    requires
        m.raw_input != Some(JsonView::Null),
    ensures
        meta_ok(JsonView::Object(native_entries(m))),
        meta_val(JsonView::Object(native_entries(m))) == m,
{
    lemma_native_key_v(m);
    lemma_native_key_turn_id(m);
    lemma_native_key_model_message_id(m);
    lemma_native_key_part_index(m);
    lemma_native_key_batch_id(m);
    lemma_native_key_tool_call_id(m);
    lemma_native_key_function_name(m);
    lemma_native_key_raw_input(m);
    lemma_native_key_phase(m);
    lemma_native_key_outcome(m);
    lemma_native_key_executed(m);
    lemma_native_key_reason(m);
    lemma_native_key_model_presentation(m);
    lemma_native_key_truncated(m);
    lemma_native_key_output_locator(m);
    lemma_native_key_model_commit(m);
    lemma_native_key_mcp_server_key(m);
    lemma_native_key_mcp_remote_name(m);
    lemma_native_key_compact(m);
    lemma_phase_round_trip(m.phase);
    lemma_outcome_round_trip(m.outcome);
    lemma_locator_round_trip(m.output_locator);
    lemma_commit_round_trip(m.model_commit);
    lemma_compact_round_trip(m.compact);
}

pub proof fn lemma_phase_round_trip(o: Option<ToolPhase>)
    ensures
        opt_phase_ok(phase_json(o)),
        opt_phase_val(phase_json(o)) == o,
{
    reveal_strlit("pending");
    assert("pending"@[0] == 'p');
    assert("pending"@.len() == 7);
    reveal_strlit("started");
    assert("started"@[0] == 's');
    assert("started"@.len() == 7);
    reveal_strlit("terminal");
    assert("terminal"@[0] == 't');
    assert("terminal"@.len() == 8);
}

pub proof fn lemma_outcome_round_trip(o: Option<ToolOutcome>)
    ensures
        opt_outcome_ok(outcome_json(o)),
        opt_outcome_val(outcome_json(o)) == o,
{
    reveal_strlit("success");
    assert("success"@[0] == 's');
    assert("success"@.len() == 7);
    reveal_strlit("error");
    assert("error"@[0] == 'e');
    assert("error"@.len() == 5);
    reveal_strlit("timeout");
    assert("timeout"@[0] == 't');
    assert("timeout"@.len() == 7);
    reveal_strlit("rejected");
    assert("rejected"@[0] == 'r');
    assert("rejected"@.len() == 8);
    reveal_strlit("cancelled");
    assert("cancelled"@[0] == 'c');
    assert("cancelled"@.len() == 9);
    reveal_strlit("unknown");
    assert("unknown"@[0] == 'u');
    assert("unknown"@.len() == 7);
}

pub proof fn lemma_list_round_trip(s: Seq<Seq<char>>)
    ensures
        str_list_ok(list_json(s)),
        str_list_val(list_json(s)) == s,
{
    if s.len() > 0 {
        let items = s.map_values(|x: Seq<char>| JsonView::Str(x));
        assert(str_list_val(list_json(s)) =~= s);
    }
}

pub proof fn lemma_locator_round_trip(o: Option<LocatorView>)
    ensures
        opt_locator_ok(locator_json(o)),
        opt_locator_val(locator_json(o)) == o,
{
    if let Some(l) = o {
        reveal_strlit("path");
        assert("path"@[0] == 'p');
        assert("path"@.len() == 4);
        reveal_strlit("line");
        assert("line"@[0] == 'l');
        assert("line"@.len() == 4);
        let e0 = Seq::<(Seq<char>, JsonView)>::empty();
        assert(forall|key: Seq<char>| #[trigger] vfield(e0, key) is None);
        let e1 = opt_push(e0, "path"@, str_json(l.path));
        lemma_vfield_opt_push(e0, "path"@, str_json(l.path));
        lemma_vfield_opt_push(e1, "line"@, u32_json(l.line));
        let j = JsonView::Object(locator_entries(l));
        assert(vget(j, "path"@) == str_json(l.path));
        assert(vget(j, "line"@) == u32_json(l.line));
    }
}

pub proof fn lemma_commit_round_trip(o: Option<CommitView>)
    ensures
        opt_commit_ok(commit_json(o)),
        opt_commit_val(commit_json(o)) == o,
{
    if let Some(c) = o {
        reveal_strlit("batch_id");
        assert("batch_id"@[0] == 'b');
        assert("batch_id"@.len() == 8);
        reveal_strlit("parts");
        assert("parts"@[0] == 'p');
        assert("parts"@.len() == 5);
        reveal_strlit("call_ids");
        assert("call_ids"@[0] == 'c');
        assert("call_ids"@.len() == 8);
        let e0 = seq![("batch_id"@, JsonView::Str(c.batch_id))];
        assert(e0 =~= Seq::<(Seq<char>, JsonView)>::empty().push(("batch_id"@, JsonView::Str(c.batch_id))));
        lemma_vfield_opt_push(Seq::empty(), "batch_id"@, Some(JsonView::Str(c.batch_id)));
        let e1 = opt_push(e0, "parts"@, list_json(c.parts));
        lemma_vfield_opt_push(e0, "parts"@, list_json(c.parts));
        lemma_vfield_opt_push(e1, "call_ids"@, list_json(c.call_ids));
        let j = JsonView::Object(commit_entries(c));
        assert(vget(j, "batch_id"@) == Some(JsonView::Str(c.batch_id)));
        assert(vget(j, "parts"@) == list_json(c.parts));
        assert(vget(j, "call_ids"@) == list_json(c.call_ids));
        lemma_list_round_trip(c.parts);
        lemma_list_round_trip(c.call_ids);
    }
}

pub proof fn lemma_compact_round_trip(o: Option<CompactView>)
    ensures
        opt_compact_ok(compact_json(o)),
        opt_compact_val(compact_json(o)) == o,
{
    if let Some(c) = o {
        reveal_strlit("level");
        assert("level"@[0] == 'l');
        assert("level"@.len() == 5);
        reveal_strlit("through_turn");
        assert("through_turn"@[0] == 't');
        assert("through_turn"@.len() == 12);
        reveal_strlit("summary");
        assert("summary"@[0] == 's');
        assert("summary"@.len() == 7);
        reveal_strlit("created_at_ms");
        assert("created_at_ms"@[0] == 'c');
        assert("created_at_ms"@.len() == 13);
        let e0 = Seq::<(Seq<char>, JsonView)>::empty();
        let e1 = e0.push(("level"@, JsonView::Number(c.level as u64)));
        let e2 = e1.push(("through_turn"@, JsonView::Str(c.through_turn)));
        let e3 = e2.push(("summary"@, JsonView::Str(c.summary)));
        let e = e3.push(("created_at_ms"@, JsonView::Number(c.created_at_ms)));
        assert(e =~= compact_entries(c));
        lemma_vfield_opt_push(e0, "level"@, Some(JsonView::Number(c.level as u64)));
        lemma_vfield_opt_push(e1, "through_turn"@, Some(JsonView::Str(c.through_turn)));
        lemma_vfield_opt_push(e2, "summary"@, Some(JsonView::Str(c.summary)));
        lemma_vfield_opt_push(e3, "created_at_ms"@, Some(JsonView::Number(c.created_at_ms)));
        assert(opt_push(e0, "level"@, Some(JsonView::Number(c.level as u64))) == e1);
        assert(opt_push(e1, "through_turn"@, Some(JsonView::Str(c.through_turn))) == e2);
        assert(opt_push(e2, "summary"@, Some(JsonView::Str(c.summary))) == e3);
        assert(opt_push(e3, "created_at_ms"@, Some(JsonView::Number(c.created_at_ms))) == e);
        let j = JsonView::Object(e);
        assert(vget(j, "level"@) == Some(JsonView::Number(c.level as u64)));
        assert(vget(j, "through_turn"@) == Some(JsonView::Str(c.through_turn)));
        assert(vget(j, "summary"@) == Some(JsonView::Str(c.summary)));
        assert(vget(j, "created_at_ms"@) == Some(JsonView::Number(c.created_at_ms)));
    }
}

impl NativeMeta {
    /// An empty record of the current version.
    pub fn v1() -> (r: Self)
        ensures
            r@ == empty_meta(),
    {
        NativeMeta {
            v: NATIVE_META_VERSION,
            turn_id: None,
            model_message_id: None,
            part_index: None,
            batch_id: None,
            tool_call_id: None,
            function_name: None,
            raw_input: None,
            phase: None,
            outcome: None,
            executed: None,
            reason: None,
            model_presentation: None,
            truncated: None,
            output_locator: None,
            model_commit: None,
            mcp_server_key: None,
            mcp_remote_name: None,
            compact: None,
        }
    }
}

impl Default for NativeMeta {
    /// Version 0 with every field absent.
    fn default() -> (r: Self)
        ensures
            r@ == (NativeMetaView { v: 0, ..empty_meta() }),
    {
        let mut m = NativeMeta::v1();
        m.v = 0;
        m
    }
}

/// The current version with every field absent.
pub open spec fn empty_meta() -> NativeMetaView {
    NativeMetaView {
        v: 1,
        turn_id: None,
        model_message_id: None,
        part_index: None,
        batch_id: None,
        tool_call_id: None,
        function_name: None,
        raw_input: None,
        phase: None,
        outcome: None,
        executed: None,
        reason: None,
        model_presentation: None,
        truncated: None,
        output_locator: None,
        model_commit: None,
        mcp_server_key: None,
        mcp_remote_name: None,
        compact: None,
    }
}

/// What an update payload carries under `_meta.codeg_native`: nothing when
/// either key is absent; `Malformed` when the record is not well formed; an
/// unsupported version when `v` is not the current one; else the record.
pub open spec fn extract_spec(p: JsonView) -> Result<Option<NativeMetaView>, NativeMetaError> {
    match vget(p, "_meta"@) {
        None => Ok(None),
        Some(meta) => match vget(meta, NATIVE_META_NS@) {
            None => Ok(None),
            Some(n) => if !meta_ok(n) {
                Err(NativeMetaError::Malformed)
            } else if meta_val(n).v != NATIVE_META_VERSION {
                Err(NativeMetaError::UnsupportedVersion(meta_val(n).v))
            } else {
                Ok(Some(meta_val(n)))
            },
        },
    }
}

/// Reads `_meta.codeg_native` from an ACP session update payload.
pub fn extract_native_meta(payload: &JsonValue) -> (r: Result<Option<NativeMeta>, NativeMetaError>)
    ensures
        match r {
            Ok(Some(m)) => extract_spec(jview(*payload)) == Ok::<
                Option<NativeMetaView>,
                NativeMetaError,
            >(Some(m@)),
            Ok(None) => extract_spec(jview(*payload)) == Ok::<
                Option<NativeMetaView>,
                NativeMetaError,
            >(None),
            Err(e) => extract_spec(jview(*payload)) == Err::<Option<NativeMetaView>, NativeMetaError>(
                e,
            ),
        },
{
    let meta = match payload.get("_meta") {
        Some(m) => m,
        None => return Ok(None),
    };
    let native = match meta.get(NATIVE_META_NS) {
        Some(n) => n,
        None => return Ok(None),
    };
    match decode_native_meta(native) {
        Err(e) => Err(e),
        Ok(m) => {
            if m.v != NATIVE_META_VERSION {
                Err(NativeMetaError::UnsupportedVersion(m.v))
            } else {
                Ok(Some(m))
            }
        },
    }
}

/// `entries` with member `key` set to `v`: replaced in place where the key is
/// present, appended where it is not.
pub open spec fn set_member(entries: Seq<(Seq<char>, JsonView)>, key: Seq<char>, v: JsonView) -> Seq<
    (Seq<char>, JsonView),
>
    decreases entries.len(),
{
    if entries.len() == 0 {
        seq![(key, v)]
    } else if entries[0].0 == key {
        seq![(key, v)] + entries.drop_first()
    } else {
        seq![entries[0]] + set_member(entries.drop_first(), key, v)
    }
}

/// The payload with `codeg_native` set under `_meta`: sibling members of an
/// existing `_meta` object are kept; a missing or non-object `_meta` is
/// replaced by an object holding only the record. A payload that is not an
/// object is returned unchanged.
pub open spec fn attach_spec(p: JsonView, native: NativeMetaView) -> JsonView {
    let nv = JsonView::Object(native_entries(native));
    match p {
        JsonView::Object(entries) => {
            let meta = match vfield(entries, "_meta"@) {
                Some(JsonView::Object(m)) => JsonView::Object(set_member(m, NATIVE_META_NS@, nv)),
                _ => JsonView::Object(seq![(NATIVE_META_NS@, nv)]),
            };
            JsonView::Object(set_member(entries, "_meta"@, meta))
        },
        _ => p,
    }
}

pub proof fn lemma_set_member(entries: Seq<(Seq<char>, JsonView)>, key: Seq<char>, v: JsonView, k: Seq<char>)
    ensures
        vfield(set_member(entries, key, v), k) == if k == key {
            Some(v)
        } else {
            vfield(entries, k)
        },
    decreases entries.len(),
{
    if entries.len() > 0 {
        lemma_set_member(entries.drop_first(), key, v, k);
        if entries[0].0 == key {
            let s = seq![(key, v)] + entries.drop_first();
            assert(s[0] == (key, v));
            assert(s.drop_first() =~= entries.drop_first());
        } else {
            let s = seq![entries[0]] + set_member(entries.drop_first(), key, v);
            assert(s[0] == entries[0]);
            assert(s.drop_first() =~= set_member(entries.drop_first(), key, v));
        }
    } else {
        assert(seq![(key, v)][0] == (key, v));
        assert(seq![(key, v)].drop_first() =~= Seq::<(Seq<char>, JsonView)>::empty());
        assert(vfield(Seq::<(Seq<char>, JsonView)>::empty(), k) is None);
    }
}

/// Sets member `key` of an object under construction, as [`set_member`] does.
fn set_member_exec(entries: &mut Vec<(String, JsonValue)>, key: &str, v: JsonValue)
    ensures
        jview_entries(final(entries)@) == set_member(jview_entries(old(entries)@), key@, jview(v)),
{
    let ghost before = jview_entries(entries@);
    proof {
        lemma_jview_entries(entries@);
    }
    let mut i: usize = 0;
    while i < entries.len()
        invariant
            i <= entries.len(),
            entries@ == old(entries)@,
            before == jview_entries(entries@),
            before.len() == entries.len(),
            forall|j: int| 0 <= j < entries.len() ==> #[trigger] before[j] == (entries@[j].0@, jview(entries@[j].1)),
            forall|j: int| 0 <= j < i ==> before[j].0 != key@,
        decreases entries.len() - i,
    {
        if str_eq(entries[i].0.as_str(), key) {
            let ghost pre = entries@;
            let k = entries[i].0.clone();
            entries.set(i, (k, v));
            proof {
                lemma_set_member_at(before, key@, jview(v), i as int);
                lemma_jview_entries(entries@);
                assert(jview_entries(entries@) =~= before.update(i as int, (key@, jview(v))));
            }
            return;
        }
        i += 1;
    }
    proof {
        lemma_set_member_absent(before, key@, jview(v));
    }
    push_member(entries, key, v);
}

/// Where the key first occurs at `i`, [`set_member`] replaces that member.
proof fn lemma_set_member_at(entries: Seq<(Seq<char>, JsonView)>, key: Seq<char>, v: JsonView, i: int)
    requires
        0 <= i < entries.len(),
        entries[i].0 == key,
        forall|j: int| 0 <= j < i ==> entries[j].0 != key,
    ensures
        set_member(entries, key, v) == entries.update(i, (key, v)),
    decreases i,
{
    if i == 0 {
        assert(seq![(key, v)] + entries.drop_first() =~= entries.update(0, (key, v)));
    } else {
        lemma_set_member_at(entries.drop_first(), key, v, i - 1);
        assert(seq![entries[0]] + entries.drop_first().update(i - 1, (key, v)) =~= entries.update(
            i,
            (key, v),
        ));
    }
}

/// Where the key does not occur, [`set_member`] appends.
proof fn lemma_set_member_absent(entries: Seq<(Seq<char>, JsonView)>, key: Seq<char>, v: JsonView)
    requires
        forall|j: int| 0 <= j < entries.len() ==> entries[j].0 != key,
    ensures
        set_member(entries, key, v) == entries.push((key, v)),
    decreases entries.len(),
{
    if entries.len() > 0 {
        lemma_set_member_absent(entries.drop_first(), key, v);
        assert(seq![entries[0]] + entries.drop_first().push((key, v)) =~= entries.push((key, v)));
    } else {
        assert(seq![(key, v)] =~= entries.push((key, v)));
    }
}

/// Embeds `native` under `_meta.codeg_native` without dropping sibling keys.
pub fn attach_native_meta(payload: JsonValue, native: &NativeMeta) -> (r: JsonValue)
    ensures
        jview(r) == attach_spec(jview(payload), native@),
{
    let native_val = native_meta_json(native);
    match payload {
        JsonValue::Object(mut entries) => {
            proof {
                lemma_field_view(entries@, "_meta"@);
            }
            let meta = {
                let existing = object_field(&entries, "_meta");
                match existing {
                    Some(JsonValue::Object(m)) => {
                        let mut copy: Vec<(String, JsonValue)> = Vec::new();
                        let mut i: usize = 0;
                        while i < m.len()
                            invariant
                                i <= m.len(),
                                copy.len() == i,
                                forall|j: int|
                                    0 <= j < i ==> (#[trigger] copy@[j]).0@ == m@[j].0@ && jview(
                                        copy@[j].1,
                                    ) == jview(m@[j].1),
                            decreases m.len() - i,
                        {
                            copy.push((m[i].0.clone(), m[i].1.deep_copy()));
                            i += 1;
                        }
                        proof {
                            lemma_jview_entries(copy@);
                            lemma_jview_entries(m@);
                            assert(jview_entries(copy@) =~= jview_entries(m@));
                        }
                        set_member_exec(&mut copy, NATIVE_META_NS, native_val);
                        JsonValue::Object(copy)
                    },
                    _ => {
                        let mut fresh: Vec<(String, JsonValue)> = Vec::new();
                        push_member(&mut fresh, NATIVE_META_NS, native_val);
                        proof {
                            assert(jview_entries(Seq::<(String, JsonValue)>::empty()) =~= Seq::<
                                (Seq<char>, JsonView),
                            >::empty());
                            assert(jview_entries(fresh@) =~= seq![(NATIVE_META_NS@, jview(native_val))]);
                        }
                        JsonValue::Object(fresh)
                    },
                }
            };
            set_member_exec(&mut entries, "_meta", meta);
            JsonValue::Object(entries)
        },
        other => other,
    }
}

/// Reading back what [`attach_native_meta`] embedded gives the record, for
/// an object payload and a current-version record whose free-form input is
/// not null.
pub proof fn lemma_attach_then_extract(p: JsonView, native: NativeMetaView)
    requires
        p is Object,
        native.v == NATIVE_META_VERSION,
        native.raw_input != Some(JsonView::Null),
    ensures
        extract_spec(attach_spec(p, native)) == Ok::<Option<NativeMetaView>, NativeMetaError>(
            Some(native),
        ),
{
    lemma_native_round_trip(native);
    let entries = p->Object_0;
    let nv = JsonView::Object(native_entries(native));
    let meta = match vfield(entries, "_meta"@) {
        Some(JsonView::Object(m)) => JsonView::Object(set_member(m, NATIVE_META_NS@, nv)),
        _ => JsonView::Object(seq![(NATIVE_META_NS@, nv)]),
    };
    lemma_set_member(entries, "_meta"@, meta, "_meta"@);
    match vfield(entries, "_meta"@) {
        Some(JsonView::Object(m)) => {
            lemma_set_member(m, NATIVE_META_NS@, nv, NATIVE_META_NS@);
        },
        _ => {
            lemma_set_member(Seq::empty(), NATIVE_META_NS@, nv, NATIVE_META_NS@);
            assert(set_member(Seq::empty(), NATIVE_META_NS@, nv) =~= seq![(NATIVE_META_NS@, nv)]);
        },
    }
}

/// Other members of an existing `_meta` object survive [`attach_native_meta`].
pub proof fn lemma_attach_keeps_sibling_meta(p: JsonView, native: NativeMetaView, key: Seq<char>)
    requires
        p is Object,
        vget(p, "_meta"@) matches Some(JsonView::Object(_)),
        key != NATIVE_META_NS@,
    ensures
        vget(attach_spec(p, native), "_meta"@) matches Some(m) && vget(m, key) == vget(
            vget(p, "_meta"@)->Some_0,
            key,
        ),
{
    let entries = p->Object_0;
    let nv = JsonView::Object(native_entries(native));
    let old_meta = vfield(entries, "_meta"@)->Some_0;
    let meta = JsonView::Object(set_member(old_meta->Object_0, NATIVE_META_NS@, nv));
    lemma_set_member(entries, "_meta"@, meta, "_meta"@);
    lemma_set_member(old_meta->Object_0, NATIVE_META_NS@, nv, key);
}

/// The text chunk of an assistant message.
pub open spec fn chunk_doc(text: Seq<char>) -> JsonView {
    JsonView::Object(
        seq![
            ("sessionUpdate"@, JsonView::Str("agent_message_chunk"@)),
            (
                "content"@,
                JsonView::Object(
                    seq![("type"@, JsonView::Str("text"@)), ("text"@, JsonView::Str(text))],
                ),
            ),
        ],
    )
}

/// A tool call as announced.
pub open spec fn tool_call_doc(
    tool_call_id: Seq<char>,
    title: Seq<char>,
    status: Seq<char>,
    raw_input: JsonView,
) -> JsonView {
    JsonView::Object(
        seq![
            ("sessionUpdate"@, JsonView::Str("tool_call"@)),
            ("toolCallId"@, JsonView::Str(tool_call_id)),
            ("title"@, JsonView::Str(title)),
            ("kind"@, JsonView::Str("other"@)),
            ("status"@, JsonView::Str(status)),
            ("rawInput"@, raw_input),
        ],
    )
}

/// A status change of a tool call.
pub open spec fn tool_call_update_doc(tool_call_id: Seq<char>, status: Seq<char>) -> JsonView {
    JsonView::Object(
        seq![
            ("sessionUpdate"@, JsonView::Str("tool_call_update"@)),
            ("toolCallId"@, JsonView::Str(tool_call_id)),
            ("status"@, JsonView::Str(status)),
        ],
    )
}

fn empty_object() -> (r: Vec<(String, JsonValue)>)
    ensures
        jview_entries(r@) == Seq::<(Seq<char>, JsonView)>::empty(),
{
    let r: Vec<(String, JsonValue)> = Vec::new();
    assert(jview_entries(r@) =~= Seq::<(Seq<char>, JsonView)>::empty());
    r
}

/// An `agent_message_chunk` update carrying `text`, with `native` attached.
pub fn agent_message_chunk(text: &str, native: &NativeMeta) -> (r: JsonValue)
    ensures
        jview(r) == attach_spec(chunk_doc(text@), native@),
{
    let mut content = empty_object();
    push_member(&mut content, "type", JsonValue::Str("text".to_owned()));
    push_member(&mut content, "text", JsonValue::Str(text.to_owned()));
    let mut es = empty_object();
    push_member(&mut es, "sessionUpdate", JsonValue::Str("agent_message_chunk".to_owned()));
    proof {
        assert(jview_entries(content@) =~= seq![
            ("type"@, JsonView::Str("text"@)),
            ("text"@, JsonView::Str(text@)),
        ]);
    }
    push_member(&mut es, "content", JsonValue::Object(content));
    proof {
        assert(jview_entries(es@) =~= chunk_doc(text@)->Object_0);
    }
    attach_native_meta(JsonValue::Object(es), native)
}

/// A `tool_call` update, with `native` attached.
pub fn tool_call_payload(
    tool_call_id: &str,
    title: &str,
    status: &str,
    raw_input: &JsonValue,
    native: &NativeMeta,
) -> (r: JsonValue)
    ensures
        jview(r) == attach_spec(
            tool_call_doc(tool_call_id@, title@, status@, jview(*raw_input)),
            native@,
        ),
{
    let mut es = empty_object();
    push_member(&mut es, "sessionUpdate", JsonValue::Str("tool_call".to_owned()));
    push_member(&mut es, "toolCallId", JsonValue::Str(tool_call_id.to_owned()));
    push_member(&mut es, "title", JsonValue::Str(title.to_owned()));
    push_member(&mut es, "kind", JsonValue::Str("other".to_owned()));
    push_member(&mut es, "status", JsonValue::Str(status.to_owned()));
    push_member(&mut es, "rawInput", raw_input.deep_copy());
    proof {
        assert(jview_entries(es@) =~= tool_call_doc(
            tool_call_id@,
            title@,
            status@,
            jview(*raw_input),
        )->Object_0);
    }
    attach_native_meta(JsonValue::Object(es), native)
}

/// A `tool_call_update`, with `native` attached.
pub fn tool_call_update_payload(tool_call_id: &str, status: &str, native: &NativeMeta) -> (r: JsonValue)
    ensures
        jview(r) == attach_spec(tool_call_update_doc(tool_call_id@, status@), native@),
{
    let mut es = empty_object();
    push_member(&mut es, "sessionUpdate", JsonValue::Str("tool_call_update".to_owned()));
    push_member(&mut es, "toolCallId", JsonValue::Str(tool_call_id.to_owned()));
    push_member(&mut es, "status", JsonValue::Str(status.to_owned()));
    proof {
        assert(jview_entries(es@) =~= tool_call_update_doc(tool_call_id@, status@)->Object_0);
    }
    attach_native_meta(JsonValue::Object(es), native)
}

/// A copy of a compaction record.
pub fn copy_compact(c: &CompactRecord) -> (r: CompactRecord)
    ensures
        r@ == c@,
{
    CompactRecord {
        level: c.level,
        through_turn: c.through_turn.clone(),
        summary: c.summary.clone(),
        created_at_ms: c.created_at_ms,
    }
}

/// An empty assistant chunk whose record carries only `record`.
pub fn compact_update_payload(record: &CompactRecord) -> (r: JsonValue)
    ensures
        jview(r) == attach_spec(
            chunk_doc(Seq::empty()),
            NativeMetaView { compact: Some(record@), ..empty_meta() },
        ),
{
    let mut native = NativeMeta::v1();
    native.compact = Some(copy_compact(record));
    proof {
        reveal_strlit("");
        assert(""@ =~= Seq::<char>::empty());
        assert(native@ == NativeMetaView { compact: Some(record@), ..empty_meta() });
    }
    agent_message_chunk("", &native)
}

pub open spec fn acp_status_spec(outcome: Option<ToolOutcome>, phase: ToolPhase) -> Seq<char> {
    match phase {
        ToolPhase::Pending => "pending"@,
        ToolPhase::Started => "in_progress"@,
        ToolPhase::Terminal => if outcome == Some(ToolOutcome::Success) {
            "completed"@
        } else {
            "failed"@
        },
    }
}

/// ACP status of a tool call: pending, in progress, or — once terminal —
/// completed for a success and failed for anything else.
pub fn acp_status_for(outcome: Option<ToolOutcome>, phase: ToolPhase) -> (r: &'static str)
    ensures
        r@ == acp_status_spec(outcome, phase),
{
    match phase {
        ToolPhase::Pending => "pending",
        ToolPhase::Started => "in_progress",
        ToolPhase::Terminal => match outcome {
            Some(ToolOutcome::Success) => "completed",
            _ => "failed",
        },
    }
}

/// `sessionUpdate` of an ACP payload.
pub fn session_update_kind(payload: &JsonValue) -> (r: Option<&String>)
    ensures
        r matches Some(s) ==> json_get_str(*payload, "sessionUpdate"@) == Some(s@),
        r is None ==> json_get_str(*payload, "sessionUpdate"@) is None,
{
    payload.get_str("sessionUpdate")
}

/// Tool call id of a payload: `toolCallId`, or `tool_call_id` when that key is
/// absent, as text.
pub open spec fn tool_call_id_spec(payload: JsonValue) -> Option<Seq<char>> {
    let v = match json_get(payload, "toolCallId"@) {
        Some(x) => Some(x),
        None => json_get(payload, "tool_call_id"@),
    };
    match v {
        Some(JsonValue::Str(s)) => Some(s@),
        _ => None,
    }
}

/// [`tool_call_id_spec`] of a document.
pub open spec fn call_id_view(p: JsonView) -> Option<Seq<char>> {
    let v = match vget(p, "toolCallId"@) {
        Some(x) => Some(x),
        None => vget(p, "tool_call_id"@),
    };
    match v {
        Some(JsonView::Str(s)) => Some(s),
        _ => None,
    }
}

pub fn tool_call_id_of(payload: &JsonValue) -> (r: Option<&String>)
    ensures
        r matches Some(s) ==> tool_call_id_spec(*payload) == Some(s@),
        r is None ==> tool_call_id_spec(*payload) is None,
        r matches Some(s) ==> call_id_view(jview(*payload)) == Some(s@),
        r is None ==> call_id_view(jview(*payload)) is None,
{
    let v = match payload.get("toolCallId") {
        Some(x) => Some(x),
        None => payload.get("tool_call_id"),
    };
    match v {
        Some(x) => x.as_str(),
        None => None,
    }
}

} // verus!
