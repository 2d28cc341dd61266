//! Budget entry points of the context policy and the index arithmetic it
//! uses to keep recent turns.

use vstd::prelude::*;

use crate::text::{push_str, str_eq};
use crate::context::budget::{
    input_budget_spec, safety_margin_spec, BudgetConfig, BudgetError,
};

verus! {

/// Default real user turns to retain when the token window still allows it.
pub const DEFAULT_PROTECT_RECENT_USER_TURNS: usize = 2;
/// Default complete assistant+tool-result groups to retain when the window allows it.
pub const DEFAULT_PROTECT_RECENT_TOOL_GROUPS: usize = 3;

/// `safety_margin = max(1024, ceil(context_window × 5%))`.
pub fn safety_margin(context_window: u64) -> (r: u64)
    ensures
        r == safety_margin_spec(context_window),
{
    BudgetConfig::new(context_window, 0).safety_margin()
}

/// `input_budget = context_window - max_output_tokens - safety_margin`.
pub fn input_budget(context_window: u64, max_output_tokens: u64) -> (r: Result<u64, BudgetError>)
    ensures
        r == input_budget_spec(context_window, max_output_tokens),
{
    BudgetConfig::new(context_window, max_output_tokens).input_budget()
}

/// The `n`-th index counted from the end (1 is the last); the first one when
/// there are fewer than `n`; none for `n == 0` or no indices.
pub open spec fn nth_from_end_spec(indices: Seq<usize>, n: usize) -> Option<usize> {
    if n == 0 || indices.len() == 0 {
        None
    } else if indices.len() >= n {
        Some(indices[indices.len() - n])
    } else {
        Some(indices[0])
    }
}

pub fn nth_from_end(indices: &Vec<usize>, n: usize) -> (r: Option<usize>)
    ensures
        r == nth_from_end_spec(indices@, n),
{
    if n == 0 || indices.len() == 0 {
        return None;
    }
    let skip = indices.len().saturating_sub(n);
    Some(indices[skip])
}


/// One piece of a message, as far as the cut cares: a tool call, a tool
/// result (each with its call id), or anything else.
pub enum ContentKind {
    ToolCall(String),
    ToolResult(String),
    Other,
}

/// A message as the cut reads it: who sent it, its pieces in order, and
/// whether it is the prompt now pending.
pub struct PolicyMessage {
    pub user: bool,
    pub parts: Vec<ContentKind>,
    pub is_pending: bool,
}

pub enum PartView {
    Call(Seq<char>),
    Result(Seq<char>),
    Other,
}

impl View for ContentKind {
    type V = PartView;

    open spec fn view(&self) -> PartView {
        match self {
            ContentKind::ToolCall(id) => PartView::Call(id@),
            ContentKind::ToolResult(id) => PartView::Result(id@),
            ContentKind::Other => PartView::Other,
        }
    }
}

pub struct MsgView {
    pub user: bool,
    pub parts: Seq<PartView>,
    pub pending: bool,
}

impl View for PolicyMessage {
    type V = MsgView;

    open spec fn view(&self) -> MsgView {
        MsgView {
            user: self.user,
            parts: self.parts@.map_values(|p: ContentKind| p@),
            pending: self.is_pending,
        }
    }
}

pub open spec fn msg_views(ms: Seq<PolicyMessage>) -> Seq<MsgView> {
    ms.map_values(|m: PolicyMessage| m@)
}

/// A user message with some piece that is not a tool result.
pub open spec fn real_user(m: MsgView) -> bool {
    m.user && exists|i: int| 0 <= i < m.parts.len() && !(#[trigger] m.parts[i] is Result)
}

/// A user message that starts with a tool result.
pub open spec fn leading_result(m: MsgView) -> bool {
    m.user && m.parts.len() > 0 && m.parts[0] is Result
}

pub open spec fn call_ids_of(parts: Seq<PartView>) -> Seq<Seq<char>>
    decreases parts.len(),
{
    if parts.len() == 0 {
        Seq::empty()
    } else {
        let rest = call_ids_of(parts.drop_last());
        match parts.last() {
            PartView::Call(id) => rest.push(id),
            _ => rest,
        }
    }
}

pub open spec fn result_ids_of(parts: Seq<PartView>) -> Seq<Seq<char>>
    decreases parts.len(),
{
    if parts.len() == 0 {
        Seq::empty()
    } else {
        let rest = result_ids_of(parts.drop_last());
        match parts.last() {
            PartView::Result(id) => rest.push(id),
            _ => rest,
        }
    }
}

/// Tool calls of an assistant message.
pub open spec fn call_ids(m: MsgView) -> Seq<Seq<char>> {
    if m.user {
        Seq::empty()
    } else {
        call_ids_of(m.parts)
    }
}

/// Tool results of a user message.
pub open spec fn result_ids(m: MsgView) -> Seq<Seq<char>> {
    if m.user {
        result_ids_of(m.parts)
    } else {
        Seq::empty()
    }
}

pub fn is_real_user_turn(m: &PolicyMessage) -> (r: bool)
    ensures
        r == real_user(m@),
{
    if !m.user {
        return false;
    }
    let mut i: usize = 0;
    while i < m.parts.len()
        invariant
            i <= m.parts.len(),
            m.user,
            forall|k: int| 0 <= k < i ==> (#[trigger] m@.parts[k]) is Result,
        decreases m.parts.len() - i,
    {
        match &m.parts[i] {
            ContentKind::ToolResult(_) => {},
            _ => {
                assert(!(m@.parts[i as int] is Result));
                return true;
            },
        }
        i += 1;
    }
    false
}

pub fn is_leading_tool_result(m: &PolicyMessage) -> (r: bool)
    ensures
        r == leading_result(m@),
{
    if !m.user || m.parts.len() == 0 {
        return false;
    }
    match &m.parts[0] {
        ContentKind::ToolResult(_) => true,
        _ => false,
    }
}

pub fn ids_of(m: &PolicyMessage, calls: bool) -> (r: Vec<String>)
    ensures
        calls ==> r@.map_values(|s: String| s@) == call_ids(m@),
        !calls ==> r@.map_values(|s: String| s@) == result_ids(m@),
{
    let mut out: Vec<String> = Vec::new();
    if m.user == calls {
        proof {
            assert(out@.map_values(|s: String| s@) =~= Seq::<Seq<char>>::empty());
        }
        return out;
    }
    let ghost pv = m@.parts;
    let mut i: usize = 0;
    while i < m.parts.len()
        invariant
            i <= m.parts.len(),
            m.user != calls,
            pv == m@.parts,
            calls ==> out@.map_values(|s: String| s@) == call_ids_of(pv.take(i as int)),
            !calls ==> out@.map_values(|s: String| s@) == result_ids_of(pv.take(i as int)),
        decreases m.parts.len() - i,
    {
        assert(pv.take(i + 1).drop_last() =~= pv.take(i as int));
        assert(pv.take(i + 1).last() == m.parts@[i as int]@);
        let ghost before = out@;
        match &m.parts[i] {
            ContentKind::ToolCall(id) => {
                if calls {
                    out.push(id.clone());
                    assert(out@.map_values(|s: String| s@) =~= before.map_values(|s: String| s@).push(id@));
                }
            },
            ContentKind::ToolResult(id) => {
                if !calls {
                    out.push(id.clone());
                    assert(out@.map_values(|s: String| s@) =~= before.map_values(|s: String| s@).push(id@));
                }
            },
            ContentKind::Other => {},
        }
        i += 1;
    }
    assert(pv.take(m.parts.len() as int) =~= pv);
    out
}

/// An assistant tool-call message and the tool-result messages that answer
/// it, as `[start, end)`; complete when every call got a result.
pub struct ToolGroup {
    pub start: usize,
    pub end: usize,
    pub complete: bool,
}

pub struct GroupView {
    pub start: int,
    pub end: int,
    pub complete: bool,
}

impl View for ToolGroup {
    type V = GroupView;

    open spec fn view(&self) -> GroupView {
        GroupView { start: self.start as int, end: self.end as int, complete: self.complete }
    }
}

/// Whether any of `ids` is still open.
pub open spec fn answers_open(ids: Seq<Seq<char>>, open: Set<Seq<char>>) -> bool {
    exists|k: int| 0 <= k < ids.len() && open.contains(#[trigger] ids[k])
}

/// Extends a group from message `j` while tool-result messages answer one of
/// its open calls; the end and the calls left open.
pub open spec fn extend_group(ms: Seq<MsgView>, j: int, open: Set<Seq<char>>) -> (int, Set<Seq<char>>)
    decreases ms.len() - j,
{
    if j < 0 || j >= ms.len() || real_user(ms[j]) || call_ids(ms[j]).len() > 0 || result_ids(ms[j]).len()
        == 0 || !answers_open(result_ids(ms[j]), open) {
        (j, open)
    } else {
        extend_group(ms, j + 1, open.difference(result_ids(ms[j]).to_set()))
    }
}

pub proof fn lemma_extend_group_bounds(ms: Seq<MsgView>, j: int, open: Set<Seq<char>>)
    ensures
        extend_group(ms, j, open).0 >= j,
        0 <= j <= ms.len() ==> extend_group(ms, j, open).0 <= ms.len(),
    decreases ms.len() - j,
{
    if !(j < 0 || j >= ms.len() || real_user(ms[j]) || call_ids(ms[j]).len() > 0
        || result_ids(ms[j]).len() == 0 || !answers_open(result_ids(ms[j]), open)) {
        lemma_extend_group_bounds(ms, j + 1, open.difference(result_ids(ms[j]).to_set()));
    }
}

/// The tool groups of the messages from `i` on, in order.
pub open spec fn groups_from(ms: Seq<MsgView>, i: int) -> Seq<GroupView>
    decreases ms.len() - i,
{
    if i < 0 || i >= ms.len() {
        Seq::empty()
    } else if call_ids(ms[i]).len() == 0 {
        groups_from(ms, i + 1)
    } else {
        let (end, open) = extend_group(ms, i + 1, call_ids(ms[i]).to_set());
        proof {
            lemma_extend_group_bounds(ms, i + 1, call_ids(ms[i]).to_set());
        }
        seq![GroupView { start: i, end, complete: open.is_empty() }] + groups_from(ms, end)
    }
}


pub open spec fn texts_of(v: Seq<String>) -> Seq<Seq<char>> {
    v.map_values(|s: String| s@)
}

pub open spec fn group_views(g: Seq<ToolGroup>) -> Seq<GroupView> {
    g.map_values(|x: ToolGroup| x@)
}

fn answers_any(results: &Vec<String>, open: &Vec<String>) -> (r: bool)
    ensures
        r == answers_open(texts_of(results@), texts_of(open@).to_set()),
{
    let mut i: usize = 0;
    while i < results.len()
        invariant
            i <= results.len(),
            forall|k: int| 0 <= k < i ==> !texts_of(open@).to_set().contains(#[trigger] texts_of(results@)[k]),
        decreases results.len() - i,
    {
        let mut j: usize = 0;
        while j < open.len()
            invariant
                i < results.len(),
                j <= open.len(),
                forall|k: int| 0 <= k < j ==> #[trigger] open@[k]@ != results@[i as int]@,
            decreases open.len() - j,
        {
            if str_eq(open[j].as_str(), results[i].as_str()) {
                assert(texts_of(open@)[j as int] == texts_of(results@)[i as int]);
                assert(texts_of(open@).to_set().contains(texts_of(results@)[i as int]));
                return true;
            }
            j += 1;
        }
        assert(!texts_of(open@).to_set().contains(texts_of(results@)[i as int])) by {
            if texts_of(open@).to_set().contains(texts_of(results@)[i as int]) {
                let k = choose|k: int| 0 <= k < texts_of(open@).len() && texts_of(open@)[k] == texts_of(results@)[i as int];
                assert(open@[k]@ != results@[i as int]@);
            }
        }
        i += 1;
    }
    false
}

fn contains_text(v: &Vec<String>, x: &String) -> (r: bool)
    ensures
        r == texts_of(v@).to_set().contains(x@),
{
    let mut j: usize = 0;
    while j < v.len()
        invariant
            j <= v.len(),
            forall|k: int| 0 <= k < j ==> #[trigger] v@[k]@ != x@,
        decreases v.len() - j,
    {
        if str_eq(v[j].as_str(), x.as_str()) {
            assert(texts_of(v@)[j as int] == x@);
            return true;
        }
        j += 1;
    }
    assert(!texts_of(v@).to_set().contains(x@)) by {
        if texts_of(v@).to_set().contains(x@) {
            let k = choose|k: int| 0 <= k < texts_of(v@).len() && texts_of(v@)[k] == x@;
            assert(v@[k]@ != x@);
        }
    }
    false
}

/// The open calls minus the answered ones.
fn without(open: &Vec<String>, results: &Vec<String>) -> (r: Vec<String>)
    ensures
        texts_of(r@).to_set() == texts_of(open@).to_set().difference(texts_of(results@).to_set()),
{
    let mut out: Vec<String> = Vec::new();
    let mut i: usize = 0;
    while i < open.len()
        invariant
            i <= open.len(),
            texts_of(out@).to_set() == texts_of(open@).take(i as int).to_set().difference(
                texts_of(results@).to_set(),
            ),
        decreases open.len() - i,
    {
        let ghost before = texts_of(out@);
        assert(texts_of(open@).take(i + 1) =~= texts_of(open@).take(i as int).push(open@[i as int]@));
        proof {
            texts_of(open@).take(i as int).lemma_push_to_set_commute(open@[i as int]@);
            before.lemma_push_to_set_commute(open@[i as int]@);
        }
        if !contains_text(results, &open[i]) {
            out.push(open[i].clone());
            assert(texts_of(out@) =~= before.push(open@[i as int]@));
        }
        assert(texts_of(out@).to_set() =~= texts_of(open@).take(i + 1).to_set().difference(
            texts_of(results@).to_set(),
        ));
        i += 1;
    }
    assert(texts_of(open@).take(open.len() as int) =~= texts_of(open@));
    out
}

proof fn lemma_to_set_empty(s: Seq<Seq<char>>)
    ensures
        s.to_set().is_empty() <==> s.len() == 0,
{
    if s.len() > 0 {
        assert(s.to_set().contains(s[0]));
    } else {
        assert(s.to_set() =~= Set::<Seq<char>>::empty());
    }
}

/// The tool groups of the messages, in order; see [`groups_from`].
pub fn tool_groups(ms: &Vec<PolicyMessage>) -> (r: Vec<ToolGroup>)
    ensures
        group_views(r@) == groups_from(msg_views(ms@), 0),
{
    let ghost mv = msg_views(ms@);
    let mut out: Vec<ToolGroup> = Vec::new();
    let mut i: usize = 0;
    proof {
        assert(group_views(out@) + groups_from(mv, 0) =~= groups_from(mv, 0));
    }
    while i < ms.len()
        invariant
            i <= ms.len(),
            mv == msg_views(ms@),
            mv.len() == ms.len(),
            group_views(out@) + groups_from(mv, i as int) == groups_from(mv, 0),
        decreases ms.len() - i,
    {
        assert(mv[i as int] == ms@[i as int]@);
        let ids = ids_of(&ms[i], true);
        if ids.len() == 0 {
            i += 1;
            continue;
        }
        let start = i;
        let mut open = ids;
        i += 1;
        let mut end = i;
        while i < ms.len()
            invariant
                start < i <= ms.len(),
                end == i,
                mv == msg_views(ms@),
                mv.len() == ms.len(),
                extend_group(mv, start + 1, call_ids(mv[start as int]).to_set()) == extend_group(
                    mv,
                    i as int,
                    texts_of(open@).to_set(),
                ),
            ensures
                start < i <= ms.len(),
                end == i,
                extend_group(mv, start + 1, call_ids(mv[start as int]).to_set()) == extend_group(
                    mv,
                    i as int,
                    texts_of(open@).to_set(),
                ),
                extend_group(mv, i as int, texts_of(open@).to_set()) == (i as int, texts_of(open@).to_set()),
            decreases ms.len() - i,
        {
            assert(mv[i as int] == ms@[i as int]@);
            if is_real_user_turn(&ms[i]) || ids_of(&ms[i], true).len() > 0 {
                break;
            }
            let results = ids_of(&ms[i], false);
            if results.len() == 0 {
                break;
            }
            if !answers_any(&results, &open) {
                break;
            }
            assert(texts_of(results@) == result_ids(mv[i as int]));
            open = without(&open, &results);
            i += 1;
            end = i;
        }
        proof {
            lemma_to_set_empty(texts_of(open@));
            lemma_extend_group_bounds(mv, start + 1, call_ids(mv[start as int]).to_set());
        }
        let ghost before = out@;
        out.push(ToolGroup { start, end, complete: open.len() == 0 });
        proof {
            assert(group_views(out@) =~= group_views(before).push(
                GroupView { start: start as int, end: end as int, complete: open.len() == 0 },
            ));
            assert(call_ids(mv[start as int]).len() > 0);
            assert(groups_from(mv, start as int) == seq![
                GroupView { start: start as int, end: end as int, complete: open.len() == 0 },
            ] + groups_from(mv, end as int));
            assert(group_views(out@) + groups_from(mv, i as int) =~= group_views(before) + groups_from(
                mv,
                start as int,
            ));
        }
    }
    proof {
        assert(group_views(out@) =~= group_views(out@) + groups_from(mv, i as int));
    }
    out
}


/// Whether the token window keeps every message from `c` on.
pub open spec fn fits_at(fits: Seq<bool>, c: int) -> bool {
    c >= fits.len() || fits[c]
}

/// The first group, from `k` on, that the cut `cut` falls inside.
pub open spec fn first_split(gs: Seq<GroupView>, cut: int, k: int) -> Option<int>
    decreases gs.len() - k,
{
    if k < 0 || k >= gs.len() {
        None
    } else if gs[k].start < cut && cut < gs[k].end {
        Some(k)
    } else {
        first_split(gs, cut, k + 1)
    }
}

/// Moves a cut out of the groups it splits: to the group's start when that
/// is not in the summarized prefix and the rest still fits, else past the
/// group; at most `fuel` moves.
pub open spec fn legalize(cut: int, gs: Seq<GroupView>, min_cut: int, fits: Seq<bool>, fuel: nat) -> int
    decreases fuel,
{
    if fuel == 0 {
        cut
    } else {
        match first_split(gs, cut, 0) {
            None => cut,
            Some(k) => {
                let next = if gs[k].start >= min_cut && fits_at(fits, gs[k].start) {
                    gs[k].start
                } else {
                    gs[k].end
                };
                legalize(next, gs, min_cut, fits, (fuel - 1) as nat)
            },
        }
    }
}

/// A cut moved past tool results that would lead the kept part.
pub open spec fn drop_orphans(ms: Seq<MsgView>, cut: int) -> int
    decreases ms.len() - cut,
{
    if 0 <= cut < ms.len() && leading_result(ms[cut]) {
        drop_orphans(ms, cut + 1)
    } else {
        cut
    }
}

/// Index of the last real user turn before `k`.
pub open spec fn last_real_user(ms: Seq<MsgView>, k: int) -> Option<int>
    decreases k,
{
    if k <= 0 {
        None
    } else if real_user(ms[k - 1]) {
        Some(k - 1)
    } else {
        last_real_user(ms, k - 1)
    }
}

/// Where the kept part must start: at the pending prompt, when it is the
/// last real user turn.
pub open spec fn pending_keep_from(ms: Seq<MsgView>) -> Option<int> {
    match last_real_user(ms, ms.len() as int) {
        Some(i) => if ms[i].pending {
            Some(i)
        } else {
            None
        },
        None => None,
    }
}

/// Indices of the real user turns before `k`.
pub open spec fn user_indices(ms: Seq<MsgView>, k: int) -> Seq<usize>
    decreases k,
{
    if k <= 0 {
        Seq::empty()
    } else {
        let r = user_indices(ms, k - 1);
        if real_user(ms[k - 1]) {
            r.push((k - 1) as usize)
        } else {
            r
        }
    }
}

/// Starts of the complete groups among the first `k`.
pub open spec fn complete_starts(gs: Seq<GroupView>, k: int) -> Seq<usize>
    decreases k,
{
    if k <= 0 {
        Seq::empty()
    } else {
        let r = complete_starts(gs, k - 1);
        if gs[k - 1].complete {
            r.push(gs[k - 1].start as usize)
        } else {
            r
        }
    }
}

/// Where the kept part would rather start: early enough to keep the last
/// few real user turns and complete tool groups.
pub open spec fn preferred_keep_from(ms: Seq<MsgView>, gs: Seq<GroupView>, users: usize, groups: usize) -> Option<int> {
    let u = nth_from_end_spec(user_indices(ms, ms.len() as int), users);
    let g = nth_from_end_spec(complete_starts(gs, gs.len() as int), groups);
    match (u, g) {
        (Some(a), Some(b)) => Some(if a <= b { a as int } else { b as int }),
        (Some(a), None) => Some(a as int),
        (None, Some(b)) => Some(b as int),
        (None, None) => None,
    }
}

/// Answers `ids` in order against the open calls; `None` at the first id
/// that answers nothing open.
pub open spec fn answer_all(ids: Seq<Seq<char>>, open: Set<Seq<char>>) -> Option<Set<Seq<char>>>
    decreases ids.len(),
{
    if ids.len() == 0 {
        Some(open)
    } else if open.contains(ids[0]) {
        answer_all(ids.drop_first(), open.remove(ids[0]))
    } else {
        None
    }
}

/// Whether some tool result from message `k` on answers no call opened
/// before it (in the messages from `k` on, with `open` already open).
pub open spec fn unpaired_from(ms: Seq<MsgView>, k: int, open: Set<Seq<char>>) -> bool
    decreases ms.len() - k,
{
    if k < 0 || k >= ms.len() {
        false
    } else {
        match answer_all(result_ids(ms[k]), open.union(call_ids(ms[k]).to_set())) {
            None => true,
            Some(rest) => unpaired_from(ms, k + 1, rest),
        }
    }
}

/// Per-request limits of the cut.
pub struct CutScope {
    /// 1-based seq already absorbed into a committed summary; the demoted
    /// prefix must cover it.
    pub covers_through_seq: Option<usize>,
    /// Real user turns to retain when the window allows.
    pub protect_recent_user_turns: usize,
    /// Complete tool groups to retain when the window allows.
    pub protect_recent_tool_groups: usize,
}

impl CutScope {
    /// No coverage, and the default turns and groups to protect.
    pub fn new() -> (r: Self)
        ensures
            r.covers_through_seq is None,
            r.protect_recent_user_turns == DEFAULT_PROTECT_RECENT_USER_TURNS,
            r.protect_recent_tool_groups == DEFAULT_PROTECT_RECENT_TOOL_GROUPS,
    {
        CutScope {
            covers_through_seq: None,
            protect_recent_user_turns: DEFAULT_PROTECT_RECENT_USER_TURNS,
            protect_recent_tool_groups: DEFAULT_PROTECT_RECENT_TOOL_GROUPS,
        }
    }
}

/// The prefix the summary already covers, at most everything.
pub open spec fn min_demote(covers: Option<usize>, n: int) -> int {
    match covers {
        Some(seq) => if seq > 0 {
            if seq <= n {
                seq as int
            } else {
                n
            }
        } else {
            0
        },
        None => 0,
    }
}

pub open spec fn budget_message(detail: Seq<char>) -> Seq<char> {
    "context_budget_exceeded: "@ + detail
}

/// Where the demoted prefix of `ms` ends, starting from the token window's
/// cut `token_cut` and its verdicts `fits` on each suffix: moved out of tool
/// groups, kept at or before a pending prompt, at or after the summarized
/// prefix, toward the protected recent turns when they fit, and past
/// leading tool results; refused when no such cut keeps tool calls and
/// results paired.
pub open spec fn cut_spec(ms: Seq<MsgView>, scope: CutScope, token_cut: int, fits: Seq<bool>) -> Result<int, Seq<char>> {
    let n = ms.len() as int;
    if n == 0 {
        Ok(0)
    } else {
        let gs = groups_from(ms, 0);
        let fuel = (gs.len() + 1) as nat;
        let min_cut = min_demote(scope.covers_through_seq, n);
        let must = pending_keep_from(ms);
        let preferred = preferred_keep_from(
            ms,
            gs,
            scope.protect_recent_user_turns,
            scope.protect_recent_tool_groups,
        );
        if must matches Some(m) && (min_cut > m || token_cut > m) {
            Err(
                budget_message(
                    "protected pending prompt or incomplete tool group does not fit the token window"@,
                ),
            )
        } else {
            let c1 = legalize(if token_cut >= min_cut { token_cut } else { min_cut }, gs, min_cut, fits, fuel);
            let r2: Result<int, Seq<char>> = match must {
                Some(m) => if c1 > m {
                    if m < min_cut || !fits_at(fits, m) {
                        Err(budget_message("covers_through_seq would demote the protected pending prompt"@))
                    } else {
                        let c = legalize(m, gs, min_cut, fits, fuel);
                        if c > m {
                            Err(budget_message("no legal boundary keeps the pending prompt and its tool group"@))
                        } else {
                            Ok(c)
                        }
                    }
                } else {
                    Ok(c1)
                },
                None => Ok(c1),
            };
            match r2 {
                Err(e) => Err(e),
                Ok(c2) => {
                    let c3 = match preferred {
                        Some(p) => {
                            let cand = if p >= min_cut { p } else { min_cut };
                            if cand < c2 && fits_at(fits, cand) {
                                let legal = legalize(cand, gs, min_cut, fits, fuel);
                                if legal < c2 && fits_at(fits, legal) {
                                    legal
                                } else {
                                    c2
                                }
                            } else {
                                c2
                            }
                        },
                        None => c2,
                    };
                    let c4 = drop_orphans(ms, c3);
                    if must matches Some(m) && c4 > m {
                        Err(budget_message("leading tool-result adjustment would demote the pending prompt"@))
                    } else {
                        let c5 = if c4 <= n { c4 } else { n };
                        if unpaired_from(ms.subrange(c5, n), 0, Set::empty()) {
                            Err(budget_message("no legal cut preserves tool call/result pairing"@))
                        } else {
                            Ok(c5)
                        }
                    }
                },
            }
        }
    }
}


fn find_split(groups: &Vec<ToolGroup>, cut: usize) -> (r: Option<usize>)
    ensures
        match r {
            Some(j) => j < groups.len() && first_split(group_views(groups@), cut as int, 0) == Some(
                j as int,
            ),
            None => first_split(group_views(groups@), cut as int, 0) is None,
        },
{
    let ghost gv = group_views(groups@);
    let mut j: usize = 0;
    while j < groups.len()
        invariant
            j <= groups.len(),
            gv == group_views(groups@),
            first_split(gv, cut as int, 0) == first_split(gv, cut as int, j as int),
        decreases groups.len() - j,
    {
        assert(gv[j as int] == groups@[j as int]@);
        if groups[j].start < cut && cut < groups[j].end {
            return Some(j);
        }
        j += 1;
    }
    None
}

/// Moves a cut out of the tool groups it splits; see [`legalize`].
fn legalize_cut(cut: usize, groups: &Vec<ToolGroup>, min_cut: usize, fits: &Vec<bool>) -> (r: usize)
    ensures
        r == legalize(cut as int, group_views(groups@), min_cut as int, fits@, (groups.len() + 1) as nat),
{
    let ghost gv = group_views(groups@);
    let ghost total = (groups.len() + 1) as nat;
    let mut cur = cut;
    let mut left: usize = groups.len();
    loop
        invariant
            left <= groups.len(),
            gv == group_views(groups@),
            total == groups.len() + 1,
            legalize(cut as int, gv, min_cut as int, fits@, total) == legalize(
                cur as int,
                gv,
                min_cut as int,
                fits@,
                (left + 1) as nat,
            ),
        decreases left,
    {
        let ghost prev = cur;
        match find_split(groups, cur) {
            None => {
                return cur;
            },
            Some(j) => {
                assert(gv[j as int] == groups@[j as int]@);
                let g = &groups[j];
                let start_fits = g.start >= fits.len() || fits[g.start];
                if g.start >= min_cut && start_fits {
                    cur = g.start;
                } else {
                    cur = g.end;
                }
            },
        }
        assert(legalize(prev as int, gv, min_cut as int, fits@, (left + 1) as nat) == legalize(
            cur as int,
            gv,
            min_cut as int,
            fits@,
            left as nat,
        ));
        if left == 0 {
            return cur;
        }
        left -= 1;
    }
}

/// Moves a cut past tool results that would lead the kept part.
fn drop_leading_orphans(ms: &Vec<PolicyMessage>, cut: usize) -> (r: usize)
    ensures
        r == drop_orphans(msg_views(ms@), cut as int),
        r >= cut,
{
    let ghost mv = msg_views(ms@);
    let mut c = cut;
    while c < ms.len() && is_leading_tool_result(&ms[c])
        invariant
            cut <= c,
            mv == msg_views(ms@),
            drop_orphans(mv, cut as int) == drop_orphans(mv, c as int),
        decreases ms.len() - c,
    {
        assert(mv[c as int] == ms@[c as int]@);
        c += 1;
    }
    proof {
        if c < ms.len() {
            assert(mv[c as int] == ms@[c as int]@);
        }
    }
    c
}

fn pending_keep_from_exec(ms: &Vec<PolicyMessage>) -> (r: Option<usize>)
    ensures
        match r {
            Some(i) => i < ms.len() && pending_keep_from(msg_views(ms@)) == Some(i as int),
            None => pending_keep_from(msg_views(ms@)) is None,
        },
{
    let ghost mv = msg_views(ms@);
    let mut k: usize = ms.len();
    while k > 0
        invariant
            k <= ms.len(),
            mv == msg_views(ms@),
            mv.len() == ms.len(),
            last_real_user(mv, ms.len() as int) == last_real_user(mv, k as int),
        decreases k,
    {
        assert(mv[k - 1] == ms@[k - 1]@);
        if is_real_user_turn(&ms[k - 1]) {
            if ms[k - 1].is_pending {
                return Some(k - 1);
            }
            return None;
        }
        k -= 1;
    }
    None
}

fn preferred_keep_from_exec(ms: &Vec<PolicyMessage>, groups: &Vec<ToolGroup>, users: usize, group_count: usize) -> (r: Option<usize>)
    ensures
        match r {
            Some(p) => preferred_keep_from(msg_views(ms@), group_views(groups@), users, group_count)
                == Some(p as int),
            None => preferred_keep_from(msg_views(ms@), group_views(groups@), users, group_count) is None,
        },
{
    let ghost mv = msg_views(ms@);
    let ghost gv = group_views(groups@);
    let mut us: Vec<usize> = Vec::new();
    let mut i: usize = 0;
    while i < ms.len()
        invariant
            i <= ms.len(),
            mv == msg_views(ms@),
            us@ == user_indices(mv, i as int),
        decreases ms.len() - i,
    {
        assert(mv[i as int] == ms@[i as int]@);
        if is_real_user_turn(&ms[i]) {
            us.push(i);
        }
        i += 1;
    }
    let mut gs: Vec<usize> = Vec::new();
    let mut j: usize = 0;
    while j < groups.len()
        invariant
            j <= groups.len(),
            gv == group_views(groups@),
            gs@ == complete_starts(gv, j as int),
        decreases groups.len() - j,
    {
        assert(gv[j as int] == groups@[j as int]@);
        if groups[j].complete {
            gs.push(groups[j].start);
        }
        j += 1;
    }
    let u = nth_from_end(&us, users);
    let g = nth_from_end(&gs, group_count);
    match (u, g) {
        (Some(a), Some(b)) => Some(if a <= b { a } else { b }),
        (Some(a), None) => Some(a),
        (None, Some(b)) => Some(b),
        (None, None) => None,
    }
}

/// Removes every copy of `id` from the open calls.
fn remove_text(open: &Vec<String>, id: &String) -> (r: Vec<String>)
    ensures
        texts_of(r@).to_set() == texts_of(open@).to_set().remove(id@),
{
    let mut out: Vec<String> = Vec::new();
    let mut i: usize = 0;
    while i < open.len()
        invariant
            i <= open.len(),
            texts_of(out@).to_set() == texts_of(open@).take(i as int).to_set().remove(id@),
        decreases open.len() - i,
    {
        let ghost before = texts_of(out@);
        assert(texts_of(open@).take(i + 1) =~= texts_of(open@).take(i as int).push(open@[i as int]@));
        proof {
            texts_of(open@).take(i as int).lemma_push_to_set_commute(open@[i as int]@);
            before.lemma_push_to_set_commute(open@[i as int]@);
        }
        if !str_eq(open[i].as_str(), id.as_str()) {
            out.push(open[i].clone());
            assert(texts_of(out@) =~= before.push(open@[i as int]@));
        }
        assert(texts_of(out@).to_set() =~= texts_of(open@).take(i + 1).to_set().remove(id@));
        i += 1;
    }
    assert(texts_of(open@).take(open.len() as int) =~= texts_of(open@));
    out
}

/// Answers the results of one message in order; `None` when one of them
/// answers nothing open. See [`answer_all`].
fn answer_results(open: Vec<String>, results: &Vec<String>) -> (r: Option<Vec<String>>)
    ensures
        match answer_all(texts_of(results@), texts_of(open@).to_set()) {
            Some(s) => r matches Some(v) && texts_of(v@).to_set() == s,
            None => r is None,
        },
{
    let mut cur = open;
    let ghost start = texts_of(cur@).to_set();
    let mut i: usize = 0;
    assert(texts_of(results@).skip(0) =~= texts_of(results@));
    while i < results.len()
        invariant
            i <= results.len(),
            start == texts_of(open@).to_set(),
            answer_all(texts_of(results@), start) == answer_all(
                texts_of(results@).skip(i as int),
                texts_of(cur@).to_set(),
            ),
        decreases results.len() - i,
    {
        let ghost rest = texts_of(results@).skip(i as int);
        assert(rest[0] == results@[i as int]@);
        assert(rest.drop_first() =~= texts_of(results@).skip(i + 1));
        if !contains_text(&cur, &results[i]) {
            assert(rest.len() > 0);
            assert(!texts_of(cur@).to_set().contains(rest[0]));
            assert(answer_all(rest, texts_of(cur@).to_set()) is None);
            return None;
        }
        cur = remove_text(&cur, &results[i]);
        i += 1;
    }
    assert(texts_of(results@).skip(results.len() as int) =~= Seq::<Seq<char>>::empty());
    Some(cur)
}

/// Whether some tool result from message `from` on answers no call made
/// after `from` and before it; see [`unpaired_from`].
pub fn has_unpaired_tool_result(ms: &Vec<PolicyMessage>, from: usize) -> (r: bool)
    requires
        from <= ms.len(),
    ensures
        r == unpaired_from(msg_views(ms@).subrange(from as int, ms.len() as int), 0, Set::empty()),
{
    let ghost mv = msg_views(ms@);
    let ghost sub = mv.subrange(from as int, ms.len() as int);
    let mut open: Vec<String> = Vec::new();
    let mut k: usize = from;
    proof {
        assert(texts_of(open@).to_set() =~= Set::<Seq<char>>::empty());
    }
    while k < ms.len()
        invariant
            from <= k <= ms.len(),
            mv == msg_views(ms@),
            sub == mv.subrange(from as int, ms.len() as int),
            unpaired_from(sub, 0, Set::empty()) == unpaired_from(
                sub,
                (k - from) as int,
                texts_of(open@).to_set(),
            ),
        decreases ms.len() - k,
    {
        assert(sub[(k - from) as int] == ms@[k as int]@);
        let calls = ids_of(&ms[k], true);
        let ghost before = texts_of(open@);
        let mut c: usize = 0;
        while c < calls.len()
            invariant
                c <= calls.len(),
                texts_of(open@).to_set() == before.to_set().union(texts_of(calls@).take(c as int).to_set()),
            decreases calls.len() - c,
        {
            let ghost prev = texts_of(open@);
            open.push(calls[c].clone());
            proof {
                assert(texts_of(open@) =~= prev.push(calls@[c as int]@));
                prev.lemma_push_to_set_commute(calls@[c as int]@);
                assert(texts_of(calls@).take(c + 1) =~= texts_of(calls@).take(c as int).push(
                    calls@[c as int]@,
                ));
                texts_of(calls@).take(c as int).lemma_push_to_set_commute(calls@[c as int]@);
                assert(texts_of(open@).to_set() =~= before.to_set().union(
                    texts_of(calls@).take(c + 1).to_set(),
                ));
            }
            c += 1;
        }
        assert(texts_of(calls@).take(calls.len() as int) =~= texts_of(calls@));
        let results = ids_of(&ms[k], false);
        match answer_results(open, &results) {
            None => {
                return true;
            },
            Some(rest) => {
                open = rest;
            },
        }
        k += 1;
    }
    false
}

/// Where the demoted prefix of `ms` ends; see [`cut_spec`]. `token_cut` is
/// where the token window cut the same messages, and `fits[c]` whether the
/// window keeps every message from `c` on.
pub fn choose_cut(ms: &Vec<PolicyMessage>, scope: &CutScope, token_cut: usize, fits: &Vec<bool>) -> (r: Result<usize, String>)
    requires
        token_cut <= ms.len(),
        fits.len() == ms.len(),
    ensures
        match cut_spec(msg_views(ms@), *scope, token_cut as int, fits@) {
            Ok(c) => r == Ok::<usize, String>(c as usize),
            Err(m) => r matches Err(s) && s@ == m,
        },
{
    let n = ms.len();
    if n == 0 {
        return Ok(0);
    }
    let groups = tool_groups(ms);
    let min_cut: usize = match scope.covers_through_seq {
        Some(seq) => if seq > 0 {
            if seq <= n {
                seq
            } else {
                n
            }
        } else {
            0
        },
        None => 0,
    };
    let ghost mv = msg_views(ms@);
    let ghost gs = groups_from(mv, 0);
    assert(group_views(groups@).len() == groups.len());
    assert(min_cut as int == min_demote(scope.covers_through_seq, mv.len() as int));
    let must = pending_keep_from_exec(ms);
    let preferred = preferred_keep_from_exec(
        ms,
        &groups,
        scope.protect_recent_user_turns,
        scope.protect_recent_tool_groups,
    );
    match must {
        Some(m) => {
            if min_cut > m || token_cut > m {
                return Err(
                    budget_exceeded(
                        "protected pending prompt or incomplete tool group does not fit the token window",
                    ),
                );
            }
        },
        None => {},
    }
    let start = if token_cut >= min_cut { token_cut } else { min_cut };
    let mut cut = legalize_cut(start, &groups, min_cut, fits);
    let ghost fuel = (gs.len() + 1) as nat;
    assert(gs == group_views(groups@));
    assert(cut as int == legalize(
        if token_cut >= min_cut { token_cut as int } else { min_cut as int },
        gs,
        min_cut as int,
        fits@,
        fuel,
    ));
    assert(match must {
        Some(m) => pending_keep_from(mv) == Some(m as int),
        None => pending_keep_from(mv) is None,
    });
    match must {
        Some(m) => {
            if cut > m {
                let m_fits = m >= fits.len() || fits[m];
                if m < min_cut || !m_fits {
                    return Err(budget_exceeded("covers_through_seq would demote the protected pending prompt"));
                }
                cut = legalize_cut(m, &groups, min_cut, fits);
                if cut > m {
                    return Err(
                        budget_exceeded("no legal boundary keeps the pending prompt and its tool group"),
                    );
                }
            }
        },
        None => {},
    }
    match preferred {
        Some(p) => {
            let cand = if p >= min_cut { p } else { min_cut };
            let cand_fits = cand >= fits.len() || fits[cand];
            if cand < cut && cand_fits {
                let legal = legalize_cut(cand, &groups, min_cut, fits);
                let legal_fits = legal >= fits.len() || fits[legal];
                if legal < cut && legal_fits {
                    cut = legal;
                }
            }
        },
        None => {},
    }
    cut = drop_leading_orphans(ms, cut);
    match must {
        Some(m) => {
            if cut > m {
                return Err(
                    budget_exceeded("leading tool-result adjustment would demote the pending prompt"),
                );
            }
        },
        None => {},
    }
    if cut > n {
        cut = n;
    }
    if has_unpaired_tool_result(ms, cut) {
        return Err(budget_exceeded("no legal cut preserves tool call/result pairing"));
    }
    Ok(cut)
}

fn budget_exceeded(detail: &str) -> (r: String)
    ensures
        r@ == budget_message(detail@),
{
    let mut s = "context_budget_exceeded: ".to_owned();
    push_str(&mut s, detail);
    s
}


proof fn lemma_legalize_at_least(cut: int, gs: Seq<GroupView>, min_cut: int, fits: Seq<bool>, fuel: nat)
    requires
        cut >= min_cut,
    ensures
        legalize(cut, gs, min_cut, fits, fuel) >= min_cut,
    decreases fuel,
{
    if fuel > 0 {
        if let Some(k) = first_split(gs, cut, 0) {
            lemma_first_split_is_split(gs, cut, 0);
            let next = if gs[k].start >= min_cut && fits_at(fits, gs[k].start) {
                gs[k].start
            } else {
                gs[k].end
            };
            lemma_legalize_at_least(next, gs, min_cut, fits, (fuel - 1) as nat);
        }
    }
}

proof fn lemma_first_split_is_split(gs: Seq<GroupView>, cut: int, k: int)
    ensures
        first_split(gs, cut, k) matches Some(j) ==> 0 <= j < gs.len() && gs[j].start < cut
            && cut < gs[j].end,
    decreases gs.len() - k,
{
    if 0 <= k < gs.len() && !(gs[k].start < cut && cut < gs[k].end) {
        lemma_first_split_is_split(gs, cut, k + 1);
    }
}

proof fn lemma_drop_orphans_at_least(ms: Seq<MsgView>, cut: int)
    ensures
        drop_orphans(ms, cut) >= cut,
    decreases ms.len() - cut,
{
    if 0 <= cut < ms.len() && leading_result(ms[cut]) {
        lemma_drop_orphans_at_least(ms, cut + 1);
    }
}

/// An accepted cut lies within the messages, and the kept suffix answers
/// every tool result it holds with a call it also holds.
pub proof fn lemma_cut_keeps_pairs(ms: Seq<MsgView>, scope: CutScope, token_cut: int, fits: Seq<bool>)
    ensures
        cut_spec(ms, scope, token_cut, fits) matches Ok(c) ==> 0 <= c <= ms.len() && !unpaired_from(
            ms.subrange(c, ms.len() as int),
            0,
            Set::empty(),
        ),
{
    lemma_cut_covers_summary(ms, scope, token_cut, fits);
}

/// An accepted cut demotes at least the prefix a committed summary covers,
/// so summarized messages never come back into the kept part.
pub proof fn lemma_cut_covers_summary(ms: Seq<MsgView>, scope: CutScope, token_cut: int, fits: Seq<bool>)
    ensures
        cut_spec(ms, scope, token_cut, fits) matches Ok(c) ==> c >= min_demote(
            scope.covers_through_seq,
            ms.len() as int,
        ),
{
    if ms.len() > 0 {
        let gs = groups_from(ms, 0);
        let fuel = (gs.len() + 1) as nat;
        let min_cut = min_demote(scope.covers_through_seq, ms.len() as int);
        let start = if token_cut >= min_cut { token_cut } else { min_cut };
        lemma_legalize_at_least(start, gs, min_cut, fits, fuel);
        if let Some(m) = pending_keep_from(ms) {
            if m >= min_cut {
                lemma_legalize_at_least(m, gs, min_cut, fits, fuel);
            }
        }
        let c1 = legalize(start, gs, min_cut, fits, fuel);
        if let Some(p) = preferred_keep_from(
            ms,
            gs,
            scope.protect_recent_user_turns,
            scope.protect_recent_tool_groups,
        ) {
            let cand = if p >= min_cut { p } else { min_cut };
            lemma_legalize_at_least(cand, gs, min_cut, fits, fuel);
        }
        if let Ok(c) = cut_spec(ms, scope, token_cut, fits) {
            let r2: Result<int, Seq<char>> = match pending_keep_from(ms) {
                Some(m) => if c1 > m {
                    if m < min_cut || !fits_at(fits, m) {
                        Err(Seq::empty())
                    } else {
                        let cc = legalize(m, gs, min_cut, fits, fuel);
                        if cc > m {
                            Err(Seq::empty())
                        } else {
                            Ok(cc)
                        }
                    }
                } else {
                    Ok(c1)
                },
                None => Ok(c1),
            };
            if let Ok(c2) = r2 {
                let c3 = match preferred_keep_from(
                    ms,
                    gs,
                    scope.protect_recent_user_turns,
                    scope.protect_recent_tool_groups,
                ) {
                    Some(p) => {
                        let cand = if p >= min_cut { p } else { min_cut };
                        if cand < c2 && fits_at(fits, cand) {
                            let legal = legalize(cand, gs, min_cut, fits, fuel);
                            if legal < c2 && fits_at(fits, legal) {
                                legal
                            } else {
                                c2
                            }
                        } else {
                            c2
                        }
                    },
                    None => c2,
                };
                lemma_drop_orphans_at_least(ms, c3);
            }
        }
    }
}

/// An accepted cut never demotes the pending prompt: the kept part starts at
/// or before it.
pub proof fn lemma_cut_keeps_pending(ms: Seq<MsgView>, scope: CutScope, token_cut: int, fits: Seq<bool>)
    ensures
        cut_spec(ms, scope, token_cut, fits) matches Ok(c) ==> (pending_keep_from(ms) matches Some(m)
            ==> c <= m),
{
}

} // verus!
