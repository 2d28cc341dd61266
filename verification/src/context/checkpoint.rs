//! Checkpoint files of the summary store and the summary text they hold.

use vstd::prelude::*;

use crate::context::compact::CompactArtifact;
use crate::context::compact_llm::{
    slice_sha256_spec, source_slice_sha256, MessageText, HISTORY_SUMMARY_EN, HISTORY_SUMMARY_ZH,
};
use crate::path_text::{extension, extension_spec, file_name, file_name_spec};
use crate::text::{
    chars_of, decimal_seq, eq_lit, has_prefix, push_decimal, push_str, starts_with_lit, str_eq,
    string_from_chars, strip_prefix_lit, strip_prefix_seq, trim_seq, trim_vec,
};

verus! {

pub const INDEX_FILE: &'static str = "index.json";

/// The summary text without a leading history-summary label, trimmed.
pub open spec fn strip_label_spec(text: Seq<char>) -> Seq<char> {
    let t = trim_seq(text);
    let rest = match strip_prefix_seq(t, HISTORY_SUMMARY_ZH@) {
        Some(r) => r,
        None => match strip_prefix_seq(t, HISTORY_SUMMARY_EN@) {
            Some(r) => r,
            None => t,
        },
    };
    trim_seq(rest)
}

pub fn strip_summary_label(text: &str) -> (r: String)
    ensures
        r@ == strip_label_spec(text@),
{
    let t = trim_vec(&chars_of(text));
    let rest = match strip_prefix_lit(&t, HISTORY_SUMMARY_ZH) {
        Some(r) => r,
        None => match strip_prefix_lit(&t, HISTORY_SUMMARY_EN) {
            Some(r) => r,
            None => t,
        },
    };
    string_from_chars(&trim_vec(&rest))
}

/// A checkpoint file: a `.json` file that is neither hidden nor the index.
pub open spec fn checkpoint_file_spec(path: Seq<char>) -> bool {
    extension_spec(path) == Some("json"@) && match file_name_spec(path) {
        Some(name) => !(name.len() > 0 && name[0] == '.') && name != INDEX_FILE@,
        None => false,
    }
}

pub fn is_checkpoint_file(path: &str) -> (r: bool)
    ensures
        r == checkpoint_file_spec(path@),
{
    let v = chars_of(path);
    let ext_ok = match extension(&v) {
        Some(e) => eq_lit(&e, "json"),
        None => false,
    };
    if !ext_ok {
        return false;
    }
    match file_name(&v) {
        Some(name) => !(name.len() > 0 && name[0] == '.') && !eq_lit(&name, INDEX_FILE),
        None => false,
    }
}


/// Budget figures recorded with a compaction request.
pub struct RequestBudgetSnapshot {
    /// Last seq of the confirmed source snapshot (may exceed demoted length).
    pub source_last_seq: Option<u64>,
    pub max_summary_tokens: Option<u64>,
}

/// Rebuilds a compactor's output from stored summary text, so a carry-over
/// read back from disk can be handed to the next compaction.
pub trait FromSummaryText: Sized {
    fn from_summary_text(text: &str) -> Self;
}

impl FromSummaryText for CompactArtifact {
    /// The summary alone, with no files.
    fn from_summary_text(text: &str) -> (r: Self)
        ensures
            r.summary@ == text@,
            r.files@.len() == 0,
    {
        CompactArtifact { summary: text.to_owned(), files: Vec::new() }
    }
}

// ----- reuse of stored checkpoints -----

pub const STATUS_COMMITTED: &'static str = "committed";
/// Longest lineage walked before a chain is given up.
pub const LINEAGE_LIMIT: usize = 1024;

/// What the reuse lookup reads of a stored compaction checkpoint.
pub struct CheckpointRecord {
    pub id: String,
    pub previous_id: Option<String>,
    pub conversation_id: String,
    /// 1-based prefix length of original messages absorbed into this summary.
    pub covers_through_seq: u64,
    /// SHA-256 (hex) of the increment compacted to produce this record.
    pub source_prefix_sha256: String,
    pub status: String,
    pub fingerprint: String,
}

/// A [`CheckpointRecord`] as a mathematical value.
pub struct CheckpointView {
    pub id: Seq<char>,
    pub previous_id: Option<Seq<char>>,
    pub conversation_id: Seq<char>,
    pub covers: u64,
    pub hash: Seq<char>,
    pub status: Seq<char>,
    pub fingerprint: Seq<char>,
}

impl View for CheckpointRecord {
    type V = CheckpointView;

    open spec fn view(&self) -> CheckpointView {
        CheckpointView {
            id: self.id@,
            previous_id: match self.previous_id {
                Some(p) => Some(p@),
                None => None,
            },
            conversation_id: self.conversation_id@,
            covers: self.covers_through_seq,
            hash: self.source_prefix_sha256@,
            status: self.status@,
            fingerprint: self.fingerprint@,
        }
    }
}

/// The records a lookup searches, the conversation and fingerprint that make
/// one usable, the summary carried over from the previous compaction, and
/// whether no node of a lineage may reach past the record it leads to.
pub struct LookupScope {
    pub records: Seq<CheckpointView>,
    pub conversation_id: Seq<char>,
    pub fingerprint: Seq<char>,
    pub carry: Option<CheckpointView>,
    pub bounded: bool,
}

pub open spec fn record_views(rs: Seq<CheckpointRecord>) -> Seq<CheckpointView> {
    rs.map_values(|c: CheckpointRecord| c@)
}

pub open spec fn scope_of(
    records: Seq<CheckpointRecord>,
    conversation_id: Seq<char>,
    fingerprint: Seq<char>,
    carry: Option<CheckpointView>,
) -> LookupScope {
    LookupScope { records: record_views(records), conversation_id, fingerprint, carry, bounded: true }
}

/// How far a node of `cp`'s lineage may reach.
pub open spec fn limit_of(sc: LookupScope, cp: CheckpointView) -> u64 {
    if sc.bounded {
        cp.covers
    } else {
        u64::MAX
    }
}

/// A committed record of this conversation made under this fingerprint.
pub open spec fn usable(sc: LookupScope, c: CheckpointView) -> bool {
    &&& c.conversation_id == sc.conversation_id
    &&& c.fingerprint == sc.fingerprint
    &&& c.status == STATUS_COMMITTED@
}

/// Index of the last usable record with `id` among the first `k`.
pub open spec fn by_id_upto(sc: LookupScope, id: Seq<char>, k: int) -> Option<int>
    decreases k,
{
    if k <= 0 {
        None
    } else if usable(sc, sc.records[k - 1]) && sc.records[k - 1].id == id {
        Some(k - 1)
    } else {
        by_id_upto(sc, id, k - 1)
    }
}

/// The usable record a lookup finds for `id`: the last one with that id, as a
/// map filled from the records in order holds it.
pub open spec fn by_id(sc: LookupScope, id: Seq<char>) -> Option<int> {
    by_id_upto(sc, id, sc.records.len() as int)
}

pub open spec fn carry_is(sc: LookupScope, id: Seq<char>) -> bool {
    sc.carry matches Some(c) && c.id == id
}

pub open spec fn id_in(chain: Seq<CheckpointView>, id: Seq<char>) -> bool {
    exists|n: int| 0 <= n < chain.len() && #[trigger] chain[n].id == id
}

/// Walks back from the oldest node of `chain` through previous ids: done at a
/// root or at the carried-over summary; given up at an unknown id, at an id
/// met before, or when `fuel` runs out.
pub open spec fn walk(sc: LookupScope, chain: Seq<CheckpointView>, fuel: nat) -> Option<
    Seq<CheckpointView>,
>
    decreases fuel,
{
    if fuel == 0 {
        None
    } else {
        match chain[0].previous_id {
            None => Some(chain),
            Some(pid) => if carry_is(sc, pid) {
                Some(chain)
            } else {
                match by_id(sc, pid) {
                    None => None,
                    Some(j) => if id_in(chain, sc.records[j].id) {
                        None
                    } else {
                        walk(sc, seq![sc.records[j]] + chain, (fuel - 1) as nat)
                    },
                }
            },
        }
    }
}

/// The chain of records that ends at `cp`, oldest first.
pub open spec fn lineage(sc: LookupScope, cp: CheckpointView) -> Option<Seq<CheckpointView>> {
    walk(sc, seq![cp], LINEAGE_LIMIT as nat)
}

/// The messages a record summarised on top of its predecessor: from the
/// predecessor's coverage (a usable record first, else the carried-over
/// summary, 0 for a root) up to its own; none when that range is empty or
/// the predecessor is unknown.
pub open spec fn increment_range_spec(sc: LookupScope, node: CheckpointView) -> Option<(u64, u64)> {
    let start: Option<u64> = match node.previous_id {
        None => Some(0u64),
        Some(pid) => match by_id(sc, pid) {
            Some(j) => Some(sc.records[j].covers),
            None => if carry_is(sc, pid) {
                Some(sc.carry->Some_0.covers)
            } else {
                None
            },
        },
    };
    match start {
        Some(st) => if st < node.covers {
            Some((st, node.covers))
        } else {
            None
        },
        None => None,
    }
}

/// Checks a chain against the evicted messages from `cursor` on: every node
/// past `origin` continues where the last one stopped, stays within `limit`
/// and hashes the slice of evicted messages it covers. The cursor reached, or
/// none when a node fails.
pub open spec fn chain_cursor(
    sc: LookupScope,
    chain: Seq<CheckpointView>,
    ev: Seq<Seq<u8>>,
    origin: u64,
    limit: u64,
    cursor: u64,
) -> Option<u64>
    decreases chain.len(),
{
    if chain.len() == 0 {
        Some(cursor)
    } else {
        let node = chain[0];
        match increment_range_spec(sc, node) {
            None => None,
            Some((st, en)) => if en <= origin {
                chain_cursor(sc, chain.drop_first(), ev, origin, limit, cursor)
            } else if st != cursor || en > limit {
                None
            } else {
                let i0: int = if st > origin {
                    st - origin
                } else {
                    0
                };
                let i1: int = en - origin;
                if i1 > ev.len() || i0 >= i1 {
                    None
                } else if slice_sha256_spec(ev.subrange(i0, i1)) != node.hash {
                    None
                } else {
                    chain_cursor(sc, chain.drop_first(), ev, origin, limit, en)
                }
            },
        }
    }
}

pub open spec fn sat_add(a: u64, b: int) -> u64 {
    if a + b <= u64::MAX {
        (a + b) as u64
    } else {
        u64::MAX
    }
}

/// A record reproduces the evicted messages past `origin`: it covers more
/// than `origin` and no more than there are messages, and its whole lineage
/// hashes the slices it claims, ending exactly at its coverage.
pub open spec fn verifies_spec(sc: LookupScope, cp: CheckpointView, ev: Seq<Seq<u8>>, origin: u64) -> bool {
    &&& cp.covers > origin
    &&& cp.covers <= sat_add(origin, ev.len() as int)
    &&& match lineage(sc, cp) {
        None => false,
        Some(chain) => chain_cursor(sc, chain, ev, origin, limit_of(sc, cp), origin) == Some(cp.covers),
    }
}

pub open spec fn origin_of(sc: LookupScope) -> u64 {
    match sc.carry {
        Some(c) => c.covers,
        None => 0,
    }
}

pub open spec fn target_of(sc: LookupScope, ev: Seq<Seq<u8>>) -> u64 {
    sat_add(origin_of(sc), ev.len() as int)
}

/// A usable record that verifies against the evicted messages.
pub open spec fn candidate(sc: LookupScope, ev: Seq<Seq<u8>>, i: int) -> bool {
    usable(sc, sc.records[i]) && verifies_spec(sc, sc.records[i], ev, origin_of(sc))
}

/// The first candidate among the first `k` records that covers exactly the
/// evicted messages.
pub open spec fn first_exact(sc: LookupScope, ev: Seq<Seq<u8>>, k: int) -> Option<int>
    decreases k,
{
    if k <= 0 {
        None
    } else {
        match first_exact(sc, ev, k - 1) {
            Some(i) => Some(i),
            None => if candidate(sc, ev, k - 1) && sc.records[k - 1].covers == target_of(sc, ev) {
                Some(k - 1)
            } else {
                None
            },
        }
    }
}

/// The first candidate among the first `k` records that covers the most of
/// the evicted messages short of all of them.
pub open spec fn best_prefix(sc: LookupScope, ev: Seq<Seq<u8>>, k: int) -> Option<int>
    decreases k,
{
    if k <= 0 {
        None
    } else {
        let b = best_prefix(sc, ev, k - 1);
        let i = k - 1;
        if candidate(sc, ev, i) && sc.records[i].covers < target_of(sc, ev) && (b is None
            || sc.records[i].covers > sc.records[b->Some_0].covers) {
            Some(i)
        } else {
            b
        }
    }
}

/// What a lookup finds among the records: one that covers exactly the
/// evicted messages, else one that covers a prefix of them (and where the
/// rest starts), else nothing. Records are given by index.
#[derive(Debug, Clone, Copy, PartialEq, Eq, Structural)]
pub enum Lookup {
    Exact(usize),
    Prefix { stored: usize, suffix_start: usize },
    Miss,
}

pub open spec fn lookup_spec(sc: LookupScope, ev: Seq<Seq<u8>>) -> Lookup {
    let n = sc.records.len() as int;
    match first_exact(sc, ev, n) {
        Some(i) => Lookup::Exact(i as usize),
        None => match best_prefix(sc, ev, n) {
            Some(i) => Lookup::Prefix {
                stored: i as usize,
                suffix_start: (sc.records[i].covers - origin_of(sc)) as usize,
            },
            None => Lookup::Miss,
        },
    }
}

pub open spec fn carry_view(carry: Option<&CheckpointRecord>) -> Option<CheckpointView> {
    match carry {
        Some(c) => Some(c@),
        None => None,
    }
}

pub open spec fn evicted_view(evicted: Seq<Vec<u8>>) -> Seq<Seq<u8>> {
    evicted.map_values(|b: Vec<u8>| b@)
}

fn is_usable(c: &CheckpointRecord, conversation_id: &str, fingerprint: &str) -> (r: bool)
    ensures
        r == (c@.conversation_id == conversation_id@ && c@.fingerprint == fingerprint@
            && c@.status == STATUS_COMMITTED@),
{
    str_eq(c.conversation_id.as_str(), conversation_id) && str_eq(c.fingerprint.as_str(), fingerprint)
        && str_eq(c.status.as_str(), STATUS_COMMITTED)
}

pub open spec fn scope_ok(
    sc: LookupScope,
    records: Seq<CheckpointRecord>,
    conversation_id: &str,
    fingerprint: &str,
    carry: Option<&CheckpointRecord>,
) -> bool {
    &&& sc.records == record_views(records)
    &&& sc.conversation_id == conversation_id@
    &&& sc.fingerprint == fingerprint@
    &&& sc.carry == carry_view(carry)
}

fn find_by_id(
    records: &Vec<CheckpointRecord>,
    conversation_id: &str,
    fingerprint: &str,
    id: &str,
    Ghost(sc): Ghost<LookupScope>,
) -> (r: Option<usize>)
    requires
        sc.records == record_views(records@),
        sc.conversation_id == conversation_id@,
        sc.fingerprint == fingerprint@,
    ensures
        match (r, by_id(sc, id@)) {
            (Some(a), Some(b)) => a == b,
            (None, None) => true,
            _ => false,
        },
        r matches Some(a) ==> a < records.len(),
{
    let mut found: Option<usize> = None;
    let mut i: usize = 0;
    while i < records.len()
        invariant
            i <= records.len(),
            sc.records == record_views(records@),
            sc.conversation_id == conversation_id@,
            sc.fingerprint == fingerprint@,
            match (found, by_id_upto(sc, id@, i as int)) {
                (Some(a), Some(b)) => a == b,
                (None, None) => true,
                _ => false,
            },
            found matches Some(a) ==> a < i,
        decreases records.len() - i,
    {
        if is_usable(&records[i], conversation_id, fingerprint) && str_eq(records[i].id.as_str(), id) {
            found = Some(i);
        }
        i = i + 1;
    }
    found
}

pub open spec fn chain_views(rs: Seq<CheckpointView>, idx: Seq<usize>) -> Seq<CheckpointView> {
    idx.map_values(|k: usize| rs[k as int])
}

pub open spec fn in_range(idx: Seq<usize>, n: int) -> bool {
    forall|k: int| 0 <= k < idx.len() ==> #[trigger] idx[k] < n
}

fn chain_has_id(
    records: &Vec<CheckpointRecord>,
    chain: &Vec<usize>,
    id: &str,
    Ghost(sc): Ghost<LookupScope>,
) -> (r: bool)
    requires
        sc.records == record_views(records@),
        in_range(chain@, records.len() as int),
    ensures
        r == id_in(chain_views(sc.records, chain@), id@),
{
    let ghost cv = chain_views(sc.records, chain@);
    let mut n: usize = 0;
    while n < chain.len()
        invariant
            n <= chain.len(),
            sc.records == record_views(records@),
            in_range(chain@, records.len() as int),
            cv == chain_views(sc.records, chain@),
            forall|m: int| 0 <= m < n ==> cv[m].id != id@,
        decreases chain.len() - n,
    {
        let k = chain[n];
        assert(chain@[n as int] < records.len());
        if str_eq(records[k].id.as_str(), id) {
            assert(cv[n as int].id == id@);
            return true;
        }
        n = n + 1;
    }
    false
}

fn lineage_of(
    records: &Vec<CheckpointRecord>,
    conversation_id: &str,
    fingerprint: &str,
    carry: Option<&CheckpointRecord>,
    cp: usize,
    Ghost(sc): Ghost<LookupScope>,
) -> (r: Option<Vec<usize>>)
    requires
        scope_ok(sc, records@, conversation_id, fingerprint, carry),
        cp < records.len(),
    ensures
        match (r, lineage(sc, sc.records[cp as int])) {
            (Some(v), Some(c)) => chain_views(sc.records, v@) == c && in_range(v@, records.len() as int),
            (None, None) => true,
            _ => false,
        },
{
    let mut chain: Vec<usize> = Vec::new();
    chain.push(cp);
    let mut fuel: usize = LINEAGE_LIMIT;
    assert(chain_views(sc.records, chain@) =~= seq![sc.records[cp as int]]);
    while fuel > 0
        invariant
            scope_ok(sc, records@, conversation_id, fingerprint, carry),
            chain.len() >= 1,
            in_range(chain@, records.len() as int),
            walk(sc, chain_views(sc.records, chain@), fuel as nat) == lineage(sc, sc.records[cp as int]),
        decreases fuel,
    {
        let head = chain[0];
        assert(chain@[0] < records.len());
        let ghost cv = chain_views(sc.records, chain@);
        assert(cv[0] == records@[head as int]@);
        match &records[head].previous_id {
            None => {
                return Some(chain);
            },
            Some(pid) => {
                let at_carry = match carry {
                    Some(c) => str_eq(c.id.as_str(), pid.as_str()),
                    None => false,
                };
                if at_carry {
                    return Some(chain);
                }
                match find_by_id(records, conversation_id, fingerprint, pid.as_str(), Ghost(sc)) {
                    None => {
                        return None;
                    },
                    Some(j) => {
                        if chain_has_id(records, &chain, records[j].id.as_str(), Ghost(sc)) {
                            return None;
                        }
                        let ghost before = chain@;
                        chain.insert(0, j);
                        assert(chain_views(sc.records, chain@) =~= seq![sc.records[j as int]]
                            + chain_views(sc.records, before));
                        assert forall|k: int| 0 <= k < chain@.len() implies #[trigger] chain@[k]
                            < records.len() by {
                            if k > 0 {
                                assert(chain@[k] == before[k - 1]);
                            }
                        }
                        fuel = fuel - 1;
                    },
                }
            },
        }
    }
    None
}

fn increment_range(
    records: &Vec<CheckpointRecord>,
    conversation_id: &str,
    fingerprint: &str,
    carry: Option<&CheckpointRecord>,
    node: usize,
    Ghost(sc): Ghost<LookupScope>,
) -> (r: Option<(u64, u64)>)
    requires
        scope_ok(sc, records@, conversation_id, fingerprint, carry),
        node < records.len(),
    ensures
        r == increment_range_spec(sc, sc.records[node as int]),
{
    let end = records[node].covers_through_seq;
    let start = match &records[node].previous_id {
        None => 0,
        Some(pid) => match find_by_id(records, conversation_id, fingerprint, pid.as_str(), Ghost(sc)) {
            Some(j) => records[j].covers_through_seq,
            None => match carry {
                Some(c) => {
                    if str_eq(c.id.as_str(), pid.as_str()) {
                        c.covers_through_seq
                    } else {
                        return None;
                    }
                },
                None => {
                    return None;
                },
            },
        },
    };
    if start < end {
        Some((start, end))
    } else {
        None
    }
}

fn verifies(
    records: &Vec<CheckpointRecord>,
    conversation_id: &str,
    fingerprint: &str,
    carry: Option<&CheckpointRecord>,
    cp: usize,
    evicted: &Vec<Vec<u8>>,
    origin: u64,
    bounded: bool,
    Ghost(sc): Ghost<LookupScope>,
) -> (r: bool)
    requires
        scope_ok(sc, records@, conversation_id, fingerprint, carry),
        sc.bounded == bounded,
        cp < records.len(),
    ensures
        r == verifies_spec(sc, sc.records[cp as int], evicted_view(evicted@), origin),
{
    let ghost ev = evicted_view(evicted@);
    let covers = records[cp].covers_through_seq;
    if covers <= origin {
        return false;
    }
    let top = origin.saturating_add(evicted.len() as u64);
    if covers > top {
        return false;
    }
    let chain = match lineage_of(records, conversation_id, fingerprint, carry, cp, Ghost(sc)) {
        Some(c) => c,
        None => {
            return false;
        },
    };
    let limit = if bounded {
        covers
    } else {
        u64::MAX
    };
    let ghost cv = chain_views(sc.records, chain@);
    let mut cursor = origin;
    let mut n: usize = 0;
    assert(cv.skip(0) =~= cv);
    while n < chain.len()
        invariant
            scope_ok(sc, records@, conversation_id, fingerprint, carry),
            n <= chain.len(),
            in_range(chain@, records.len() as int),
            cv == chain_views(sc.records, chain@),
            ev == evicted_view(evicted@),
            cp < records.len(),
            covers == sc.records[cp as int].covers,
            limit == limit_of(sc, sc.records[cp as int]),
            lineage(sc, sc.records[cp as int]) == Some(cv),
            chain_cursor(sc, cv, ev, origin, limit, origin) == chain_cursor(
                sc,
                cv.skip(n as int),
                ev,
                origin,
                limit,
                cursor,
            ),
        decreases chain.len() - n,
    {
        let node = chain[n];
        assert(chain@[n as int] < records.len());
        assert(cv[n as int] == sc.records[node as int]);
        assert(cv.skip(n as int)[0] == cv[n as int]);
        assert(cv.skip(n as int).drop_first() =~= cv.skip(n + 1));
        let (start, end) = match increment_range(
            records,
            conversation_id,
            fingerprint,
            carry,
            node,
            Ghost(sc),
        ) {
            Some(p) => p,
            None => {
                return false;
            },
        };
        if end <= origin {
            n = n + 1;
        } else {
            if start != cursor || end > limit {
                return false;
            }
            let i0: u64 = if start > origin {
                start - origin
            } else {
                0
            };
            let i1: u64 = end - origin;
            if i1 > evicted.len() as u64 || i0 >= i1 {
                return false;
            }
            let h = source_slice_sha256(evicted, i0 as usize, i1 as usize);
            assert(evicted@.subrange(i0 as int, i1 as int).map_values(|b: Vec<u8>| b@) =~= ev.subrange(
                i0 as int,
                i1 as int,
            ));
            if !str_eq(h.as_str(), records[node].source_prefix_sha256.as_str()) {
                return false;
            }
            cursor = end;
            n = n + 1;
        }
    }
    assert(cv.skip(n as int) =~= Seq::<CheckpointView>::empty());
    cursor == covers
}

proof fn lemma_first_exact_stable(sc: LookupScope, ev: Seq<Seq<u8>>, k: int, m: int)
    requires
        0 <= k <= m,
        first_exact(sc, ev, k) is Some,
    ensures
        first_exact(sc, ev, m) == first_exact(sc, ev, k),
    decreases m - k,
{
    if m > k {
        lemma_first_exact_stable(sc, ev, k, m - 1);
    }
}

/// Finds a stored checkpoint to reuse for compacting `evicted` (each message
/// given by its compact JSON encoding) on top of `carry_over`.
pub fn lookup(
    records: &Vec<CheckpointRecord>,
    evicted: &Vec<Vec<u8>>,
    carry_over: Option<&CheckpointRecord>,
    conversation_id: &str,
    fingerprint: &str,
) -> (r: Lookup)
    ensures
        r == lookup_spec(
            scope_of(records@, conversation_id@, fingerprint@, carry_view(carry_over)),
            evicted_view(evicted@),
        ),
{
    lookup_in(records, evicted, carry_over, conversation_id, fingerprint, true)
}

pub(crate) fn lookup_in(
    records: &Vec<CheckpointRecord>,
    evicted: &Vec<Vec<u8>>,
    carry_over: Option<&CheckpointRecord>,
    conversation_id: &str,
    fingerprint: &str,
    bounded: bool,
) -> (r: Lookup)
    ensures
        r == lookup_spec(
            LookupScope {
                records: record_views(records@),
                conversation_id: conversation_id@,
                fingerprint: fingerprint@,
                carry: carry_view(carry_over),
                bounded,
            },
            evicted_view(evicted@),
        ),
{
    let ghost sc = LookupScope {
        records: record_views(records@),
        conversation_id: conversation_id@,
        fingerprint: fingerprint@,
        carry: carry_view(carry_over),
        bounded,
    };
    let ghost ev = evicted_view(evicted@);
    let origin = match carry_over {
        Some(c) => c.covers_through_seq,
        None => 0,
    };
    let target = origin.saturating_add(evicted.len() as u64);
    let mut best: Option<usize> = None;
    let mut i: usize = 0;
    while i < records.len()
        invariant
            i <= records.len(),
            sc == (LookupScope {
                records: record_views(records@),
                conversation_id: conversation_id@,
                fingerprint: fingerprint@,
                carry: carry_view(carry_over),
                bounded,
            }),
            ev == evicted_view(evicted@),
            origin == origin_of(sc),
            target == target_of(sc, ev),
            first_exact(sc, ev, i as int) is None,
            match (best, best_prefix(sc, ev, i as int)) {
                (Some(a), Some(b)) => a == b,
                (None, None) => true,
                _ => false,
            },
            best matches Some(b) ==> b < i && records@[b as int].covers_through_seq > origin,
        decreases records.len() - i,
    {
        if is_usable(&records[i], conversation_id, fingerprint) && verifies(
            records,
            conversation_id,
            fingerprint,
            carry_over,
            i,
            evicted,
            origin,
            bounded,
            Ghost(sc),
        ) {
            let c = records[i].covers_through_seq;
            if c == target {
                proof {
                    lemma_first_exact_stable(sc, ev, i + 1, records.len() as int);
                }
                return Lookup::Exact(i);
            }
            if c > origin && c < target {
                let better = match best {
                    Some(b) => c > records[b].covers_through_seq,
                    None => true,
                };
                if better {
                    best = Some(i);
                }
            }
        }
        i = i + 1;
    }
    match best {
        Some(b) => Lookup::Prefix {
            stored: b,
            suffix_start: (records[b].covers_through_seq - origin) as usize,
        },
        None => Lookup::Miss,
    }
}

proof fn lemma_first_exact_facts(sc: LookupScope, ev: Seq<Seq<u8>>, k: int)
    requires
        0 <= k <= sc.records.len(),
    ensures
        first_exact(sc, ev, k) matches Some(i) ==> 0 <= i < k && candidate(sc, ev, i)
            && sc.records[i].covers == target_of(sc, ev),
        first_exact(sc, ev, k) is None ==> forall|j: int|
            0 <= j < k ==> !(#[trigger] candidate(sc, ev, j) && sc.records[j].covers == target_of(
                sc,
                ev,
            )),
    decreases k,
{
    if k > 0 {
        lemma_first_exact_facts(sc, ev, k - 1);
    }
}

proof fn lemma_best_prefix_facts(sc: LookupScope, ev: Seq<Seq<u8>>, k: int)
    requires
        0 <= k <= sc.records.len(),
    ensures
        best_prefix(sc, ev, k) matches Some(i) ==> 0 <= i < k && candidate(sc, ev, i)
            && sc.records[i].covers < target_of(sc, ev) && forall|j: int|
            0 <= j < k && #[trigger] candidate(sc, ev, j) && sc.records[j].covers < target_of(sc, ev)
                ==> sc.records[j].covers <= sc.records[i].covers,
        best_prefix(sc, ev, k) is None ==> forall|j: int|
            0 <= j < k ==> !(#[trigger] candidate(sc, ev, j) && sc.records[j].covers < target_of(
                sc,
                ev,
            )),
    decreases k,
{
    if k > 0 {
        lemma_best_prefix_facts(sc, ev, k - 1);
    }
}

/// What a lookup hands back can be trusted: an exact hit is a usable record
/// whose whole lineage hashes the evicted messages and that covers all of
/// them; a prefix hit is the usable, verified record covering the most of
/// them short of all, with the rest starting where it stops; a miss means no
/// usable record verifies at all.
pub proof fn lemma_lookup_sound(sc: LookupScope, ev: Seq<Seq<u8>>)
    requires
        sc.records.len() <= usize::MAX,
        ev.len() <= usize::MAX,
    ensures
        match lookup_spec(sc, ev) {
            Lookup::Exact(i) => {
                &&& 0 <= i < sc.records.len()
                &&& usable(sc, sc.records[i as int])
                &&& verifies_spec(sc, sc.records[i as int], ev, origin_of(sc))
                &&& sc.records[i as int].covers == target_of(sc, ev)
            },
            Lookup::Prefix { stored, suffix_start } => {
                &&& 0 <= stored < sc.records.len()
                &&& usable(sc, sc.records[stored as int])
                &&& verifies_spec(sc, sc.records[stored as int], ev, origin_of(sc))
                &&& origin_of(sc) < sc.records[stored as int].covers < target_of(sc, ev)
                &&& suffix_start < ev.len()
                &&& suffix_start == sc.records[stored as int].covers - origin_of(sc)
                &&& forall|j: int|
                    0 <= j < sc.records.len() && #[trigger] candidate(sc, ev, j) ==> sc.records[j].covers
                        <= sc.records[stored as int].covers
            },
            Lookup::Miss => forall|j: int| 0 <= j < sc.records.len() ==> !#[trigger] candidate(sc, ev, j),
        },
{
    let n = sc.records.len() as int;
    lemma_first_exact_facts(sc, ev, n);
    lemma_best_prefix_facts(sc, ev, n);
    match first_exact(sc, ev, n) {
        Some(i) => {},
        None => {
            assert forall|j: int| 0 <= j < n && #[trigger] candidate(sc, ev, j) implies sc.records[j].covers
                < target_of(sc, ev) by {
                assert(sc.records[j].covers <= target_of(sc, ev));
            }
        },
    }
}

/// A checkpoint stored for the evicted messages on top of the carried-over
/// summary is found again, as an exact hit, by a lookup over the same
/// messages: what one compaction stores, the next identical one reuses.
pub proof fn lemma_stored_checkpoint_is_found(sc: LookupScope, ev: Seq<Seq<u8>>, k: int)
    requires
        sc.records.len() <= usize::MAX,
        0 <= k < sc.records.len(),
        ev.len() > 0,
        origin_of(sc) + ev.len() <= u64::MAX,
        usable(sc, sc.records[k]),
        sc.records[k].covers == origin_of(sc) + ev.len(),
        sc.records[k].hash == slice_sha256_spec(ev),
        sc.records[k].previous_id == (match sc.carry {
            Some(c) => Some(c.id),
            None => None,
        }),
        sc.carry matches Some(c) ==> (by_id(sc, c.id) matches Some(j) ==> sc.records[j].covers
            == c.covers),
    ensures
        lookup_spec(sc, ev) matches Lookup::Exact(i) && sc.records[i as int].covers
            == sc.records[k].covers,
{
    let new = sc.records[k];
    let origin = origin_of(sc);
    assert(walk(sc, seq![new], (LINEAGE_LIMIT - 1) as nat + 1) == Some(seq![new]));
    assert(lineage(sc, new) == Some(seq![new]));
    assert(increment_range_spec(sc, new) == Some((origin, new.covers)));
    assert(ev.subrange(0, ev.len() as int) =~= ev);
    assert(seq![new].drop_first() =~= Seq::<CheckpointView>::empty());
    let limit = limit_of(sc, new);
    assert(chain_cursor(sc, Seq::<CheckpointView>::empty(), ev, origin, limit, new.covers) == Some(
        new.covers,
    ));
    assert(chain_cursor(sc, seq![new], ev, origin, limit, origin) == Some(new.covers));
    assert(candidate(sc, ev, k));
    assert(first_exact(sc, ev, k + 1) is Some);
    lemma_first_exact_stable(sc, ev, k + 1, sc.records.len() as int);
    lemma_first_exact_facts(sc, ev, sc.records.len() as int);
}

/// What a compaction does once the lookup has spoken.
#[derive(Debug, Clone, Copy, PartialEq, Eq, Structural)]
pub enum CompactPlan {
    /// Hand back stored record `i` as it is.
    Reuse(usize),
    /// Summarise the evicted messages from `from` on, on top of stored record
    /// `stored` (its summary recovered as the carry-over, its coverage as the
    /// origin).
    Extend { stored: usize, from: usize },
    /// Summarise all evicted messages on top of the carried-over summary.
    Fresh,
}

pub open spec fn plan_spec(found: Lookup, exact_valid: bool, evicted_len: nat) -> Result<CompactPlan, Seq<char>> {
    if evicted_len == 0 {
        Err("checkpointed compact received empty evicted prefix"@)
    } else {
        match found {
            Lookup::Exact(i) => if exact_valid {
                Ok(CompactPlan::Reuse(i))
            } else {
                Ok(CompactPlan::Fresh)
            },
            Lookup::Prefix { stored, suffix_start } => if suffix_start > evicted_len {
                Err("compaction prefix suffix_start out of range"@)
            } else if suffix_start == evicted_len {
                Ok(CompactPlan::Reuse(stored))
            } else {
                Ok(CompactPlan::Extend { stored, from: suffix_start })
            },
            Lookup::Miss => Ok(CompactPlan::Fresh),
        }
    }
}

/// Decides a compaction: an empty eviction is refused; an exact hit is reused
/// when its summary is valid (else the work is redone); a prefix hit is
/// reused when it already covers everything and extended otherwise; a miss
/// is summarised afresh.
pub fn plan_compaction(found: Lookup, exact_valid: bool, evicted_len: usize) -> (r: Result<
    CompactPlan,
    String,
>)
    ensures
        match (r, plan_spec(found, exact_valid, evicted_len as nat)) {
            (Ok(a), Ok(b)) => a == b,
            (Err(m), Err(t)) => m@ == t,
            _ => false,
        },
{
    if evicted_len == 0 {
        return Err("checkpointed compact received empty evicted prefix".to_owned());
    }
    match found {
        Lookup::Exact(i) => {
            if exact_valid {
                Ok(CompactPlan::Reuse(i))
            } else {
                Ok(CompactPlan::Fresh)
            }
        },
        Lookup::Prefix { stored, suffix_start } => {
            if suffix_start > evicted_len {
                Err("compaction prefix suffix_start out of range".to_owned())
            } else if suffix_start == evicted_len {
                Ok(CompactPlan::Reuse(stored))
            } else {
                Ok(CompactPlan::Extend { stored, from: suffix_start })
            }
        },
        Lookup::Miss => Ok(CompactPlan::Fresh),
    }
}

/// Summary text labelled as a history summary: trimmed, with the Chinese
/// label in front unless either label already opens it.
pub open spec fn labeled_summary_spec(text: Seq<char>) -> Seq<char> {
    let t = trim_seq(text);
    if has_prefix(t, HISTORY_SUMMARY_ZH@) || has_prefix(t, HISTORY_SUMMARY_EN@) {
        t
    } else {
        HISTORY_SUMMARY_ZH@ + t
    }
}

/// The text of the user message that stores a compactor's summary.
pub fn labeled_user_summary(text: &str) -> (r: String)
    ensures
        r@ == labeled_summary_spec(text@),
{
    let t = trim_vec(&chars_of(text));
    let ts = string_from_chars(&t);
    if starts_with_lit(&t, HISTORY_SUMMARY_ZH) || starts_with_lit(&t, HISTORY_SUMMARY_EN) {
        ts
    } else {
        let mut s = HISTORY_SUMMARY_ZH.to_owned();
        push_str(&mut s, ts.as_str());
        s
    }
}

/// Text parts of a message joined with newlines.
pub open spec fn plain_text_spec(texts: Seq<String>) -> Seq<char>
    decreases texts.len(),
{
    if texts.len() == 0 {
        Seq::empty()
    } else if texts.len() == 1 {
        texts[0]@
    } else {
        plain_text_spec(texts.drop_last()) + "\n"@ + texts.last()@
    }
}

/// The plain text of a message: its text parts joined with newlines.
pub fn message_plain_text(message: &MessageText) -> (r: String)
    ensures
        r@ == plain_text_spec(message.texts@),
{
    let mut out = String::new();
    let mut i: usize = 0;
    while i < message.texts.len()
        invariant
            i <= message.texts.len(),
            out@ == plain_text_spec(message.texts@.take(i as int)),
        decreases message.texts.len() - i,
    {
        let ghost before = out@;
        if i > 0 {
            push_str(&mut out, "\n");
        }
        push_str(&mut out, message.texts[i].as_str());
        proof {
            let sub = message.texts@.take(i + 1);
            assert(sub.drop_last() =~= message.texts@.take(i as int));
            if i == 0 {
                reveal_strlit("");
                assert(before =~= Seq::<char>::empty());
                assert(out@ =~= sub[0]@);
            }
        }
        i = i + 1;
    }
    proof {
        assert(message.texts@.take(i as int) =~= message.texts@);
    }
    out
}

/// A stored summary is usable: a user message whose plain text is not blank.
pub open spec fn valid_summary_spec(message: MessageText) -> bool {
    message.from_user && message.texts@.len() > 0 && trim_seq(plain_text_spec(message.texts@)).len() > 0
}

pub fn valid_summary(message: &MessageText) -> (r: bool)
    ensures
        r == valid_summary_spec(*message),
{
    if !message.from_user || message.texts.len() == 0 {
        return false;
    }
    let text = message_plain_text(message);
    trim_vec(&chars_of(text.as_str())).len() > 0
}

/// Coverage and source seq of a new checkpoint summarising `n` messages past
/// `origin`, or the refusal of a summary over its token cap.
pub open spec fn new_coverage_spec(
    snapshot: RequestBudgetSnapshot,
    origin: u64,
    n: nat,
    estimated: u64,
) -> Result<(u64, u64), Seq<char>> {
    let covers = sat_add(origin, n as int);
    match snapshot.max_summary_tokens {
        Some(max) if estimated > max => Err(
            "context_budget_exceeded: summary tokens "@ + decimal_seq(estimated as nat)
                + " exceed max "@ + decimal_seq(max as nat),
        ),
        _ => Ok(
            (
                covers,
                match snapshot.source_last_seq {
                    Some(s) => s,
                    None => covers,
                },
            ),
        ),
    }
}

/// `(covers_through_seq, source_last_seq)` of a new checkpoint: the origin
/// plus the messages summarised, and the snapshot's source seq where it has
/// one; refused when the summary exceeds the snapshot's token cap.
pub fn new_coverage(snapshot: &RequestBudgetSnapshot, origin: u64, n: usize, estimated: u64) -> (r: Result<
    (u64, u64),
    String,
>)
    ensures
        match (r, new_coverage_spec(*snapshot, origin, n as nat, estimated)) {
            (Ok(a), Ok(b)) => a == b,
            (Err(m), Err(t)) => m@ == t,
            _ => false,
        },
{
    let covers = origin.saturating_add(n as u64);
    if let Some(max) = snapshot.max_summary_tokens {
        if estimated > max {
            let mut m = String::new();
            push_str(&mut m, "context_budget_exceeded: summary tokens ");
            push_decimal(&mut m, estimated);
            push_str(&mut m, " exceed max ");
            push_decimal(&mut m, max);
            proof {
                reveal_strlit("");
            }
            return Err(m);
        }
    }
    let source = match snapshot.source_last_seq {
        Some(s) => s,
        None => covers,
    };
    Ok((covers, source))
}

// ----- the store's in-memory index -----

pub const CHECKPOINT_VERSION: u32 = 1;

/// A checkpoint file read from disk is indexed when it belongs to the
/// conversation, is committed, and has the current format version.
pub open spec fn indexed_spec(conversation_id: Seq<char>, record_conversation: Seq<char>, status: Seq<char>, version: u32) -> bool {
    record_conversation == conversation_id && status == STATUS_COMMITTED@ && version == CHECKPOINT_VERSION
}

pub fn indexed_on_load(conversation_id: &str, record_conversation: &str, status: &str, version: u32) -> (r: bool)
    ensures
        r == indexed_spec(conversation_id@, record_conversation@, status@, version),
{
    str_eq(record_conversation, conversation_id) && str_eq(status, STATUS_COMMITTED)
        && version == CHECKPOINT_VERSION
}

/// Index of the first record with `id`.
pub open spec fn first_with_id(rs: Seq<CheckpointView>, id: Seq<char>) -> Option<int>
    decreases rs.len(),
{
    if rs.len() == 0 {
        None
    } else {
        match first_with_id(rs.drop_last(), id) {
            Some(i) => Some(i),
            None => if rs.last().id == id {
                Some(rs.len() - 1)
            } else {
                None
            },
        }
    }
}

/// The index after a checkpoint is persisted: it replaces the record with
/// its id, else it is added at the end.
pub open spec fn upsert_spec(rs: Seq<CheckpointView>, c: CheckpointView) -> Seq<CheckpointView> {
    match first_with_id(rs, c.id) {
        Some(i) => rs.update(i, c),
        None => rs.push(c),
    }
}

proof fn lemma_first_with_id_prefix(rs: Seq<CheckpointView>, id: Seq<char>, k: int)
    requires
        0 <= k <= rs.len(),
        first_with_id(rs.take(k), id) is Some,
    ensures
        first_with_id(rs, id) == first_with_id(rs.take(k), id),
    decreases rs.len(),
{
    if k == rs.len() {
        assert(rs.take(k) =~= rs);
    } else {
        assert(rs.drop_last().take(k) =~= rs.take(k));
        lemma_first_with_id_prefix(rs.drop_last(), id, k);
    }
}

proof fn lemma_first_with_id_props(rs: Seq<CheckpointView>, id: Seq<char>)
    ensures
        first_with_id(rs, id) matches Some(i) ==> 0 <= i < rs.len() && rs[i].id == id && forall|j: int|
            0 <= j < i ==> #[trigger] rs[j].id != id,
        first_with_id(rs, id) is None ==> forall|j: int| 0 <= j < rs.len() ==> #[trigger] rs[j].id != id,
    decreases rs.len(),
{
    if rs.len() > 0 {
        lemma_first_with_id_props(rs.drop_last(), id);
        assert forall|j: int| 0 <= j < rs.len() - 1 implies rs.drop_last()[j] == #[trigger] rs[j] by {}
    }
}

fn copy_record(c: &CheckpointRecord) -> (r: CheckpointRecord)
    ensures
        r@ == c@,
{
    CheckpointRecord {
        id: c.id.clone(),
        previous_id: c.previous_id.clone(),
        conversation_id: c.conversation_id.clone(),
        covers_through_seq: c.covers_through_seq,
        source_prefix_sha256: c.source_prefix_sha256.clone(),
        status: c.status.clone(),
        fingerprint: c.fingerprint.clone(),
    }
}

/// Records a persisted checkpoint in a conversation's index.
pub fn upsert_checkpoint(records: &mut Vec<CheckpointRecord>, checkpoint: &CheckpointRecord)
    ensures
        record_views(final(records)@) == upsert_spec(record_views(old(records)@), checkpoint@),
{
    let ghost rv = record_views(records@);
    let mut i: usize = 0;
    while i < records.len()
        invariant
            i <= records.len(),
            rv == record_views(records@),
            records@ == old(records)@,
            first_with_id(rv.take(i as int), checkpoint@.id) is None,
        decreases records.len() - i,
    {
        assert(rv.take(i + 1).drop_last() =~= rv.take(i as int));
        if str_eq(records[i].id.as_str(), checkpoint.id.as_str()) {
            proof {
                assert(rv.take(i + 1).last() == rv[i as int]);
                assert(first_with_id(rv.take(i + 1), checkpoint@.id) == Some(i as int));
                lemma_first_with_id_prefix(rv, checkpoint@.id, i + 1);
            }
            records.set(i, copy_record(checkpoint));
            proof {
                assert(record_views(records@) =~= rv.update(i as int, checkpoint@));
            }
            return;
        }
        i = i + 1;
    }
    assert(rv.take(i as int) =~= rv);
    records.push(copy_record(checkpoint));
    assert(record_views(records@) =~= rv.push(checkpoint@));
}

/// A persisted checkpoint is what the index then holds for its id, and the
/// records of other ids are left as they were: what the store writes, a
/// lookup reads back.
pub proof fn lemma_persist_then_read(rs: Seq<CheckpointView>, c: CheckpointView)
    ensures
        ({
            let after = upsert_spec(rs, c);
            &&& first_with_id(after, c.id) matches Some(i) && after[i] == c
            &&& forall|id: Seq<char>|
                id != c.id ==> (#[trigger] first_with_id(after, id) matches Some(j) ==> after[j] == rs[j])
        }),
{
    let after = upsert_spec(rs, c);
    lemma_first_with_id_props(rs, c.id);
    lemma_first_with_id_props(after, c.id);
    match first_with_id(rs, c.id) {
        Some(i) => {
            assert(after[i] == c);
            if first_with_id(after, c.id) != Some(i) {
                match first_with_id(after, c.id) {
                    Some(j) => {
                        if j < i {
                            assert(after[j] == rs[j]);
                        } else {
                            assert(rs[i].id == c.id);
                        }
                    },
                    None => {
                        assert(after[i].id == c.id);
                    },
                }
            }
        },
        None => {
            assert(after[rs.len() as int] == c);
            match first_with_id(after, c.id) {
                Some(j) => {
                    if j < rs.len() {
                        assert(after[j] == rs[j]);
                    }
                },
                None => {
                    assert(after[rs.len() as int].id == c.id);
                },
            }
        },
    }
    assert forall|id: Seq<char>| id != c.id implies (#[trigger] first_with_id(after, id) matches Some(j) ==> after[j] == rs[j]) by {
        lemma_first_with_id_props(after, id);
        if let Some(j) = first_with_id(after, id) {
            if first_with_id(rs, c.id) is None && j == rs.len() {
                assert(after[j] == c);
            }
            if let Some(i) = first_with_id(rs, c.id) {
                if j == i {
                    assert(after[j] == c);
                }
            }
        }
    }
}

} // verus!
