//! Run-settled hook: collect the file changes a turn's tool calls made.

use vstd::prelude::*;

use crate::json::{json_get, JsonValue};
use crate::workflow_adapt::AgentType;
use crate::text::{chars_of, is_ws, key_less, key_lt, trim_seq, trim_vec};

verus! {

/// Kind of an ACP tool call.
#[derive(Debug, Clone, Copy, PartialEq, Eq, Structural)]
pub enum ToolKind {
    Read,
    Edit,
    Delete,
    Move,
    Search,
    Execute,
    Think,
    Fetch,
    SwitchMode,
    Other,
}

/// What a turn-stop hook reads of one tool call.
pub struct ToolCallState {
    pub kind: ToolKind,
    pub locations: Option<JsonValue>,
    pub input: Option<JsonValue>,
}

#[derive(Debug, Clone, Copy, PartialEq, Eq, Structural)]
pub enum FileChangeOp {
    Edit,
    Delete,
    Move,
}

pub struct FileChange {
    pub path: String,
    pub operation: FileChangeOp,
}

impl View for FileChange {
    type V = (Seq<char>, FileChangeOp);

    open spec fn view(&self) -> (Seq<char>, FileChangeOp) {
        (self.path@, self.operation)
    }
}

pub open spec fn op_of(kind: ToolKind) -> Option<FileChangeOp> {
    match kind {
        ToolKind::Edit => Some(FileChangeOp::Edit),
        ToolKind::Delete => Some(FileChangeOp::Delete),
        ToolKind::Move => Some(FileChangeOp::Move),
        _ => None,
    }
}

/// Only edits, deletes and moves change files.
pub fn op_from_kind(kind: &ToolKind) -> (r: Option<FileChangeOp>)
    ensures
        r == op_of(*kind),
{
    match kind {
        ToolKind::Edit => Some(FileChangeOp::Edit),
        ToolKind::Delete => Some(FileChangeOp::Delete),
        ToolKind::Move => Some(FileChangeOp::Move),
        _ => None,
    }
}

pub open spec fn slash_for_backslash(c: char) -> char {
    if c == '\\' {
        '/'
    } else {
        c
    }
}

/// A path as recorded: trimmed, with `\` turned into `/`.
pub open spec fn normalize_path(raw: Seq<char>) -> Seq<char> {
    trim_seq(raw).map_values(|c: char| slash_for_backslash(c))
}

/// Appends the normalized path unless it is empty or already listed.
pub open spec fn add_path(acc: Seq<Seq<char>>, raw: Seq<char>) -> Seq<Seq<char>> {
    let n = normalize_path(raw);
    if n.len() == 0 || acc.contains(n) {
        acc
    } else {
        acc.push(n)
    }
}

/// Keys a path may be recorded under, in the order they are read.
pub open spec fn path_keys() -> Seq<Seq<char>> {
    seq!["path"@, "file_path"@, "filePath"@, "target_file"@, "targetFile"@]
}

/// Paths of an object under [`path_keys`], in key order.
pub open spec fn add_object_paths(acc: Seq<Seq<char>>, v: JsonValue, keys: Seq<Seq<char>>) -> Seq<
    Seq<char>,
>
    decreases keys.len(),
{
    if keys.len() == 0 {
        acc
    } else {
        let next = match json_get(v, keys[0]) {
            Some(JsonValue::Str(s)) => add_path(acc, s@),
            _ => acc,
        };
        add_object_paths(next, v, keys.drop_first())
    }
}

/// Paths found in a JSON value: objects are read under [`path_keys`], arrays
/// item by item, recursively; other values hold none.
pub open spec fn add_value_paths(acc: Seq<Seq<char>>, v: JsonValue) -> Seq<Seq<char>>
    decreases v, 1nat,
{
    match v {
        JsonValue::Array(items) => add_items_paths(acc, items@),
        JsonValue::Object(_) => add_object_paths(acc, v, path_keys()),
        _ => acc,
    }
}

pub open spec fn add_items_paths(acc: Seq<Seq<char>>, items: Seq<JsonValue>) -> Seq<Seq<char>>
    decreases items, 0nat,
{
    if items.len() == 0 {
        acc
    } else {
        add_items_paths(add_value_paths(acc, items[0]), items.drop_first())
    }
}

pub open spec fn opt_value_paths(acc: Seq<Seq<char>>, v: Option<JsonValue>) -> Seq<Seq<char>> {
    match v {
        Some(x) => add_value_paths(acc, x),
        None => acc,
    }
}

/// Paths a tool call touches: its locations, then its input.
pub open spec fn call_paths(call: ToolCallState) -> Seq<Seq<char>> {
    opt_value_paths(opt_value_paths(Seq::empty(), call.locations), call.input)
}

pub open spec fn change_paths(acc: Seq<(Seq<char>, FileChangeOp)>) -> Seq<Seq<char>> {
    acc.map_values(|c: (Seq<char>, FileChangeOp)| c.0)
}

/// Appends a change for each path not already in `acc`.
pub open spec fn add_changes(
    acc: Seq<(Seq<char>, FileChangeOp)>,
    paths: Seq<Seq<char>>,
    op: FileChangeOp,
) -> Seq<(Seq<char>, FileChangeOp)>
    decreases paths.len(),
{
    if paths.len() == 0 {
        acc
    } else {
        let next = if change_paths(acc).contains(paths[0]) {
            acc
        } else {
            acc.push((paths[0], op))
        };
        add_changes(next, paths.drop_first(), op)
    }
}

/// File changes of the calls in order, each path once with the operation of
/// the first call that touched it.
pub open spec fn collect_spec(calls: Seq<ToolCallState>) -> Seq<(Seq<char>, FileChangeOp)>
    decreases calls.len(),
{
    if calls.len() == 0 {
        Seq::empty()
    } else {
        let acc = collect_spec(calls.drop_last());
        match op_of(calls.last().kind) {
            Some(op) => add_changes(acc, call_paths(calls.last()), op),
            None => acc,
        }
    }
}

fn contains_path(v: &Vec<String>, p: &Vec<char>) -> (r: bool)
    ensures
        r == v@.map_values(|s: String| s@).contains(p@),
{
    let ghost m = v@.map_values(|s: String| s@);
    let mut i: usize = 0;
    while i < v.len()
        invariant
            i <= v.len(),
            m == v@.map_values(|s: String| s@),
            forall|j: int| 0 <= j < i ==> m[j] != p@,
        decreases v.len() - i,
    {
        let c = chars_of(v[i].as_str());
        if crate::text::chars_eq(&c, p) {
            assert(m[i as int] == p@);
            return true;
        }
        i += 1;
    }
    false
}

/// Appends `raw`, trimmed and with `/` for `\`, unless it is empty or
/// already in `paths`.
pub fn push_path(raw: &str, paths: &mut Vec<String>)
    ensures
        final(paths)@.map_values(|s: String| s@) == add_path(
            old(paths)@.map_values(|s: String| s@),
            raw@,
        ),
{
    let t = trim_vec(&chars_of(raw));
    let mut n: Vec<char> = Vec::new();
    let mut i: usize = 0;
    while i < t.len()
        invariant
            i <= t.len(),
            n@ == t@.take(i as int).map_values(|c: char| slash_for_backslash(c)),
        decreases t.len() - i,
    {
        let c = if t[i] == '\\' {
            '/'
        } else {
            t[i]
        };
        n.push(c);
        assert(t@.take(i + 1).map_values(|c: char| slash_for_backslash(c)) =~= t@.take(
            i as int,
        ).map_values(|c: char| slash_for_backslash(c)).push(slash_for_backslash(t@[i as int])));
        i += 1;
    }
    assert(t@.take(t.len() as int) =~= t@);
    if n.len() == 0 {
        return;
    }
    if contains_path(paths, &n) {
        return;
    }
    let ghost before = paths@;
    paths.push(crate::text::string_from_chars(&n));
    assert(paths@.map_values(|s: String| s@) =~= before.map_values(|s: String| s@).push(n@));
}

fn push_object_paths(value: &JsonValue, paths: &mut Vec<String>)
    ensures
        final(paths)@.map_values(|s: String| s@) == add_object_paths(
            old(paths)@.map_values(|s: String| s@),
            *value,
            path_keys(),
        ),
{
    proof {
        reveal_with_fuel(add_object_paths, 6);
    }
    let ghost k = path_keys();
    assert(k.drop_first() =~= seq!["file_path"@, "filePath"@, "target_file"@, "targetFile"@]);
    assert(k.drop_first().drop_first() =~= seq!["filePath"@, "target_file"@, "targetFile"@]);
    assert(k.drop_first().drop_first().drop_first() =~= seq!["target_file"@, "targetFile"@]);
    assert(k.drop_first().drop_first().drop_first().drop_first() =~= seq!["targetFile"@]);
    assert(k.drop_first().drop_first().drop_first().drop_first().drop_first() =~= Seq::<
        Seq<char>,
    >::empty());
    if let Some(JsonValue::Str(s)) = value.get("path") {
        push_path(s.as_str(), paths);
    }
    if let Some(JsonValue::Str(s)) = value.get("file_path") {
        push_path(s.as_str(), paths);
    }
    if let Some(JsonValue::Str(s)) = value.get("filePath") {
        push_path(s.as_str(), paths);
    }
    if let Some(JsonValue::Str(s)) = value.get("target_file") {
        push_path(s.as_str(), paths);
    }
    if let Some(JsonValue::Str(s)) = value.get("targetFile") {
        push_path(s.as_str(), paths);
    }
}

fn push_paths_from_value(value: &JsonValue, paths: &mut Vec<String>)
    ensures
        final(paths)@.map_values(|s: String| s@) == add_value_paths(
            old(paths)@.map_values(|s: String| s@),
            *value,
        ),
    decreases value, 1nat,
{
    match value {
        JsonValue::Array(items) => {
            assert(items@.skip(0) =~= items@);
            assert(decreases_to!(*value => items@));
            push_paths_from_items(items, 0, paths);
        },
        JsonValue::Object(_) => push_object_paths(value, paths),
        _ => {},
    }
}

fn push_paths_from_items(items: &Vec<JsonValue>, start: usize, paths: &mut Vec<String>)
    requires
        start <= items.len(),
    ensures
        final(paths)@.map_values(|s: String| s@) == add_items_paths(
            old(paths)@.map_values(|s: String| s@),
            items@.skip(start as int),
        ),
    decreases items@.skip(start as int), 0nat,
{
    if start < items.len() {
        let ghost rest = items@.skip(start as int);
        assert(rest[0] == items@[start as int]);
        assert(rest.drop_first() =~= items@.skip(start + 1));
        push_paths_from_value(&items[start], paths);
        push_paths_from_items(items, start + 1, paths);
    } else {
        assert(items@.skip(start as int) =~= Seq::<JsonValue>::empty());
    }
}

/// Paths a tool call touches: its locations, then its input; each once.
pub fn paths_from_tool_call(call: &ToolCallState) -> (r: Vec<String>)
    ensures
        r@.map_values(|s: String| s@) == call_paths(*call),
{
    let mut paths: Vec<String> = Vec::new();
    assert(paths@.map_values(|s: String| s@) =~= Seq::<Seq<char>>::empty());
    if let Some(loc) = &call.locations {
        push_paths_from_value(loc, &mut paths);
    }
    if let Some(input) = &call.input {
        push_paths_from_value(input, &mut paths);
    }
    paths
}

fn changes_contain(out: &Vec<FileChange>, p: &String) -> (r: bool)
    ensures
        r == change_paths(out@.map_values(|c: FileChange| c@)).contains(p@),
{
    let ghost m = change_paths(out@.map_values(|c: FileChange| c@));
    let mut i: usize = 0;
    while i < out.len()
        invariant
            i <= out.len(),
            m == change_paths(out@.map_values(|c: FileChange| c@)),
            forall|j: int| 0 <= j < i ==> m[j] != p@,
        decreases out.len() - i,
    {
        if crate::text::str_eq(out[i].path.as_str(), p.as_str()) {
            assert(m[i as int] == p@);
            return true;
        }
        i += 1;
    }
    false
}

/// Index of the entry with the least call id (the first, among equal ids).
pub open spec fn min_key_index(s: Seq<(String, ToolCallState)>) -> int
    decreases s.len(),
{
    if s.len() <= 1 {
        0
    } else {
        let m = min_key_index(s.drop_last());
        if key_lt(s.last().0@, s[m].0@) {
            s.len() - 1
        } else {
            m
        }
    }
}

pub proof fn lemma_min_key_index_bound(s: Seq<(String, ToolCallState)>)
    requires
        s.len() > 0,
    ensures
        0 <= min_key_index(s) < s.len(),
    decreases s.len(),
{
    if s.len() > 1 {
        lemma_min_key_index_bound(s.drop_last());
    }
}

/// The entries in ascending call-id order, as a map keyed by call id walks
/// them.
pub open spec fn by_call_id(s: Seq<(String, ToolCallState)>) -> Seq<(String, ToolCallState)>
    decreases s.len(),
{
    if s.len() == 0 {
        Seq::empty()
    } else {
        proof {
            lemma_min_key_index_bound(s);
        }
        let m = min_key_index(s);
        seq![s[m]] + by_call_id(s.remove(m))
    }
}

pub open spec fn call_states(s: Seq<(String, ToolCallState)>) -> Seq<ToolCallState> {
    s.map_values(|e: (String, ToolCallState)| e.1)
}

pub open spec fn entries_at(calls: Seq<(String, ToolCallState)>, idx: Seq<usize>) -> Seq<
    (String, ToolCallState),
> {
    idx.map_values(|k: usize| calls[k as int])
}

fn min_entry(calls: &Vec<(String, ToolCallState)>, idx: &Vec<usize>) -> (m: usize)
    requires
        idx.len() > 0,
        forall|k: int| 0 <= k < idx.len() ==> #[trigger] idx@[k] < calls.len(),
    ensures
        m < idx.len(),
        m == min_key_index(entries_at(calls@, idx@)),
{
    let ghost v = entries_at(calls@, idx@);
    let mut m: usize = 0;
    let mut j: usize = 1;
    assert(v.take(1).len() == 1);
    while j < idx.len()
        invariant
            1 <= j <= idx.len(),
            m < j,
            v == entries_at(calls@, idx@),
            forall|k: int| 0 <= k < idx.len() ==> #[trigger] idx@[k] < calls.len(),
            m == min_key_index(v.take(j as int)),
        decreases idx.len() - j,
    {
        assert(v.take(j + 1).drop_last() =~= v.take(j as int));
        assert(v.take(j + 1).last() == v[j as int]);
        assert(v.take(j as int)[m as int] == v[m as int]);
        assert(v.take(j + 1)[m as int] == v[m as int]);
        if key_less(calls[idx[j]].0.as_str(), calls[idx[m]].0.as_str()) {
            m = j;
        }
        j += 1;
    }
    assert(v.take(idx.len() as int) =~= v);
    m
}

/// Adds the changes of one tool call: for an edit, delete or move, each of
/// its paths not already recorded.
fn add_call_changes(out: &mut Vec<FileChange>, call: &ToolCallState)
    ensures
        final(out)@.map_values(|c: FileChange| c@) == match op_of(call.kind) {
            Some(op) => add_changes(old(out)@.map_values(|c: FileChange| c@), call_paths(*call), op),
            None => old(out)@.map_values(|c: FileChange| c@),
        },
{
    match op_from_kind(&call.kind) {
        Some(operation) => {
            let paths = paths_from_tool_call(call);
            let ghost pv = paths@.map_values(|s: String| s@);
            let ghost start = out@.map_values(|c: FileChange| c@);
            let mut j: usize = 0;
            assert(pv.skip(0) =~= pv);
            while j < paths.len()
                invariant
                    j <= paths.len(),
                    pv == paths@.map_values(|s: String| s@),
                    pv == call_paths(*call),
                    op_of(call.kind) == Some(operation),
                    add_changes(start, pv, operation) == add_changes(
                        out@.map_values(|c: FileChange| c@),
                        pv.skip(j as int),
                        operation,
                    ),
                decreases paths.len() - j,
            {
                let ghost before = out@;
                assert(pv.skip(j as int)[0] == paths@[j as int]@);
                assert(pv.skip(j as int).drop_first() =~= pv.skip(j + 1));
                if !changes_contain(out, &paths[j]) {
                    out.push(FileChange { path: paths[j].clone(), operation });
                    assert(out@.map_values(|c: FileChange| c@) =~= before.map_values(
                        |c: FileChange| c@,
                    ).push((paths@[j as int]@, operation)));
                }
                j += 1;
            }
            assert(pv.skip(paths.len() as int) =~= Seq::<Seq<char>>::empty());
        },
        None => {},
    }
}

/// File changes of the tool calls, keyed by call id and walked in ascending
/// call-id order: each path once, with the operation of the first edit,
/// delete or move that touched it.
pub fn collect_file_changes_from_tools(tool_calls: &Vec<(String, ToolCallState)>) -> (r: Vec<
    FileChange,
>)
    ensures
        r@.map_values(|c: FileChange| c@) == collect_spec(call_states(by_call_id(tool_calls@))),
{
    let mut idx: Vec<usize> = Vec::new();
    let mut i: usize = 0;
    while i < tool_calls.len()
        invariant
            i <= tool_calls.len(),
            idx@ == Seq::new(i as nat, |k: int| k as usize),
        decreases tool_calls.len() - i,
    {
        idx.push(i);
        assert(idx@ =~= Seq::new((i + 1) as nat, |k: int| k as usize));
        i += 1;
    }
    assert(entries_at(tool_calls@, idx@) =~= tool_calls@);
    let mut out: Vec<FileChange> = Vec::new();
    let ghost mut done: Seq<(String, ToolCallState)> = Seq::empty();
    assert(done + by_call_id(entries_at(tool_calls@, idx@)) =~= by_call_id(tool_calls@));
    assert(out@.map_values(|c: FileChange| c@) =~= collect_spec(call_states(done)));
    while idx.len() > 0
        invariant
            forall|k: int| 0 <= k < idx.len() ==> #[trigger] idx@[k] < tool_calls.len(),
            done + by_call_id(entries_at(tool_calls@, idx@)) == by_call_id(tool_calls@),
            out@.map_values(|c: FileChange| c@) == collect_spec(call_states(done)),
        decreases idx.len(),
    {
        let ghost v = entries_at(tool_calls@, idx@);
        let m = min_entry(tool_calls, &idx);
        let k = idx[m];
        assert(v[m as int] == tool_calls@[k as int]);
        add_call_changes(&mut out, &tool_calls[k].1);
        let ghost next = done.push(tool_calls@[k as int]);
        assert(call_states(next).drop_last() =~= call_states(done));
        assert(call_states(next).last() == tool_calls@[k as int].1);
        assert(by_call_id(v) == seq![v[m as int]] + by_call_id(v.remove(m as int)));
        idx.remove(m);
        assert(entries_at(tool_calls@, idx@) =~= v.remove(m as int));
        assert(next + by_call_id(v.remove(m as int)) =~= done + (seq![v[m as int]] + by_call_id(
            v.remove(m as int),
        )));
        proof {
            done = next;
        }
    }
    assert(entries_at(tool_calls@, idx@) =~= Seq::<(String, ToolCallState)>::empty());
    assert(done + Seq::<(String, ToolCallState)>::empty() =~= done);
    out
}

/// Where an agent keeps its native transcript for a session, to be looked up
/// on disk by the caller.
#[derive(Debug, PartialEq, Eq)]
pub enum SessionStoreLookup {
    /// The session file with this id (one file per session).
    SessionFile { session_id: String },
    /// The session directory with this id (one directory per session).
    SessionDir { session_id: String },
}

/// Which native transcript to look for after a run: none without a
/// non-empty session id, and none for an agent without a store that is cheap
/// to find (a Codex rollout lookup walks the whole tree).
pub fn session_store_lookup(agent_type: AgentType, external_id: Option<&str>) -> (r: Option<
    SessionStoreLookup,
>)
    ensures
        match external_id {
            Some(id) if id@.len() > 0 => match agent_type {
                AgentType::ClaudeCode => r matches Some(SessionStoreLookup::SessionFile { session_id }) && session_id@ == id@,
                AgentType::Grok => r matches Some(SessionStoreLookup::SessionDir { session_id }) && session_id@ == id@,
                _ => r is None,
            },
            _ => r is None,
        },
{
    let id = match external_id {
        Some(id) => id,
        None => return None,
    };
    if id.is_empty() {
        return None;
    }
    match agent_type {
        AgentType::ClaudeCode => Some(SessionStoreLookup::SessionFile { session_id: String::from_str(id) }),
        AgentType::Grok => Some(SessionStoreLookup::SessionDir { session_id: String::from_str(id) }),
        _ => None,
    }
}

} // verus!
