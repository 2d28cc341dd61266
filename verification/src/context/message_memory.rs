//! Session metadata and the runtime operation log of the message store:
//! which operations finished and which message ordinals a run committed.

use vstd::prelude::*;

use vstd::slice::slice_subrange;

use crate::context::compact_llm::{sha256_hex, sha256_hex_spec};
use crate::text::{decimal_seq, push_decimal, push_str, str_eq};

verus! {

pub const STORAGE_VERSION: u32 = 2;
pub const MESSAGE_FORMAT: &'static str = "rig::completion::Message";
pub const RIG_VERSION: &'static str = "0.42.0";

pub struct SessionMeta {
    pub storage_version: u32,
    pub message_format: String,
    pub rig_version: String,
    pub session_id: String,
    pub cwd: String,
    pub committed_message_count: u64,
    pub active_compaction_id: Option<String>,
}

impl SessionMeta {
    /// Metadata of a fresh session: current formats, nothing committed.
    pub fn new(session_id: String, cwd: String) -> (r: Self)
        ensures
            r.storage_version == STORAGE_VERSION,
            r.message_format@ == MESSAGE_FORMAT@,
            r.rig_version@ == RIG_VERSION@,
            r.session_id == session_id,
            r.cwd == cwd,
            r.committed_message_count == 0,
            r.active_compaction_id is None,
    {
        SessionMeta {
            storage_version: STORAGE_VERSION,
            message_format: MESSAGE_FORMAT.to_owned(),
            rig_version: RIG_VERSION.to_owned(),
            session_id,
            cwd,
            committed_message_count: 0,
            active_compaction_id: None,
        }
    }
}

/// One record of the runtime operation log.
pub enum RuntimeOp {
    Prepare {
        operation_id: String,
        run_id: Option<String>,
        ordinals: Vec<u64>,
        expected_offset: u64,
        count: u64,
        byte_len: u64,
        content_hashes: Vec<String>,
    },
    Commit {
        operation_id: String,
        run_id: Option<String>,
        committed_message_count: u64,
        ordinals: Vec<u64>,
        count: u64,
    },
    Abort { operation_id: String, reason: String },
    BeginRun { run_id: String, prompt_seq: u64 },
}

/// Id of an operation that finished (committed or aborted).
pub open spec fn finished_id(op: RuntimeOp) -> Option<Seq<char>> {
    match op {
        RuntimeOp::Commit { operation_id, .. } => Some(operation_id@),
        RuntimeOp::Abort { operation_id, .. } => Some(operation_id@),
        _ => None,
    }
}

pub open spec fn listed(v: Seq<String>, id: Seq<char>) -> bool {
    exists|k: int| 0 <= k < v.len() && v[k]@ == id
}

pub open spec fn is_finished(ops: Seq<RuntimeOp>, id: Seq<char>) -> bool {
    exists|i: int| 0 <= i < ops.len() && finished_id(#[trigger] ops[i]) == Some(id)
}

fn push_unique(out: &mut Vec<String>, s: &String)
    ensures
        forall|k: int| 0 <= k < old(out).len() ==> #[trigger] final(out)@[k] == old(out)@[k],
        old(out)@.len() <= final(out)@.len() <= old(out)@.len() + 1,
        exists|k: int| 0 <= k < final(out).len() && #[trigger] final(out)@[k]@ == s@,
        forall|k: int| old(out).len() <= k < final(out).len() ==> #[trigger] final(out)@[k]@ == s@,
        (forall|a: int, b: int|
            0 <= a < old(out).len() && 0 <= b < old(out).len() && a != b ==> #[trigger] old(out)@[a]@
                != #[trigger] old(out)@[b]@) ==> (forall|a: int, b: int|
            0 <= a < final(out).len() && 0 <= b < final(out).len() && a != b ==> #[trigger] final(out)@[a]@
                != #[trigger] final(out)@[b]@),
{
    let mut i: usize = 0;
    while i < out.len()
        invariant
            i <= out.len(),
            forall|k: int| 0 <= k < i ==> #[trigger] out@[k]@ != s@,
        decreases out.len() - i,
    {
        if str_eq(out[i].as_str(), s.as_str()) {
            assert(out@[i as int]@ == s@);
            return;
        }
        i += 1;
    }
    let ghost n = out.len();
    out.push(s.clone());
    assert(out@[n as int]@ == s@);
}

/// Ids of the operations that finished, each once.
pub fn finished_operation_ids(ops: &Vec<RuntimeOp>) -> (r: Vec<String>)
    ensures
        forall|k: int| 0 <= k < r.len() ==> is_finished(ops@, #[trigger] r@[k]@),
        forall|i: int|
            0 <= i < ops.len() && (#[trigger] finished_id(ops@[i])) is Some ==> listed(
                r@,
                finished_id(ops@[i])->0,
            ),
        forall|a: int, b: int|
            0 <= a < r.len() && 0 <= b < r.len() && a != b ==> #[trigger] r@[a]@ != #[trigger] r@[b]@,
{
    let mut out: Vec<String> = Vec::new();
    let mut i: usize = 0;
    while i < ops.len()
        invariant
            i <= ops.len(),
            forall|k: int| 0 <= k < out.len() ==> is_finished(ops@, #[trigger] out@[k]@),
            forall|j: int|
                0 <= j < i && (#[trigger] finished_id(ops@[j])) is Some ==> listed(
                    out@,
                    finished_id(ops@[j])->0,
                ),
            forall|a: int, b: int|
                0 <= a < out.len() && 0 <= b < out.len() && a != b ==> #[trigger] out@[a]@
                    != #[trigger] out@[b]@,
        decreases ops.len() - i,
    {
        let ghost before = out@;
        match &ops[i] {
            RuntimeOp::Commit { operation_id, .. } | RuntimeOp::Abort { operation_id, .. } => {
                push_unique(&mut out, operation_id);
                proof {
                    assert(finished_id(ops@[i as int]) == Some(operation_id@));
                    assert forall|k: int| 0 <= k < out.len() implies is_finished(ops@, #[trigger] out@[k]@) by {
                        if k < before.len() {
                            assert(out@[k] == before[k]);
                        } else {
                            assert(out@[k]@ == operation_id@);
                            assert(finished_id(ops@[i as int]) == Some(out@[k]@));
                        }
                    }
                    assert forall|j: int|
                        0 <= j < i + 1 && (#[trigger] finished_id(ops@[j])) is Some implies listed(
                            out@,
                            finished_id(ops@[j])->0,
                        ) by {
                        if j < i {
                            let id = finished_id(ops@[j])->0;
                            assert(listed(before, id));
                            let k = choose|k: int| 0 <= k < before.len() && before[k]@ == id;
                            assert(out@[k] == before[k]);
                            assert(out@[k]@ == id);
                            assert(listed(out@, id));
                        } else {
                            assert(j == i);
                            assert(finished_id(ops@[j])->0 == operation_id@);
                            let k = choose|k: int| 0 <= k < out.len() && #[trigger] out@[k]@ == operation_id@;
                            assert(out@[k]@ == operation_id@);
                            assert(listed(out@, operation_id@));
                        }
                    }
                }
            },
            _ => {},
        }
        i += 1;
    }
    out
}

/// Ordinals committed for `run_id`, in log order.
pub open spec fn committed_for(ops: Seq<RuntimeOp>, run_id: Seq<char>) -> Seq<u64>
    decreases ops.len(),
{
    if ops.len() == 0 {
        Seq::empty()
    } else {
        let rest = committed_for(ops.drop_last(), run_id);
        match ops.last() {
            RuntimeOp::Commit { run_id: Some(id), ordinals, .. } => if id@ == run_id {
                rest + ordinals@
            } else {
                rest
            },
            _ => rest,
        }
    }
}

/// The ordinals that commits of `run_id` recorded, as a list (a value may
/// repeat; only membership matters).
pub fn committed_ordinals_for(ops: &Vec<RuntimeOp>, run_id: &str) -> (r: Vec<u64>)
    ensures
        r@ == committed_for(ops@, run_id@),
{
    let mut out: Vec<u64> = Vec::new();
    let mut i: usize = 0;
    while i < ops.len()
        invariant
            i <= ops.len(),
            out@ == committed_for(ops@.take(i as int), run_id@),
        decreases ops.len() - i,
    {
        assert(ops@.take(i + 1).drop_last() =~= ops@.take(i as int));
        assert(ops@.take(i + 1).last() == ops@[i as int]);
        match &ops[i] {
            RuntimeOp::Commit { run_id: Some(id), ordinals, .. } => {
                if str_eq(id.as_str(), run_id) {
                    let ghost before = out@;
                    let mut j: usize = 0;
                    while j < ordinals.len()
                        invariant
                            j <= ordinals.len(),
                            out@ == before + ordinals@.take(j as int),
                        decreases ordinals.len() - j,
                    {
                        out.push(ordinals[j]);
                        assert(ordinals@.take(j + 1) =~= ordinals@.take(j as int).push(ordinals@[j as int]));
                        j += 1;
                    }
                    assert(ordinals@.take(ordinals.len() as int) =~= ordinals@);
                }
            },
            _ => {},
        }
        i += 1;
    }
    assert(ops@.take(ops.len() as int) =~= ops@);
    out
}

// ----- the message log: lines, their hashes and recovery -----

pub const MESSAGES_FILE: &'static str = "messages.jsonl";

/// Lines of the first `k` bytes of a log, each closed by a newline byte (the
/// newline not included), and where the unclosed rest starts.
pub open spec fn line_fold(buf: Seq<u8>, k: int) -> (Seq<Seq<u8>>, int)
    decreases k,
{
    if k <= 0 {
        (Seq::empty(), 0)
    } else {
        let (ls, st) = line_fold(buf, k - 1);
        if buf[k - 1] == 10u8 {
            (ls.push(buf.subrange(st, k - 1)), k)
        } else {
            (ls, st)
        }
    }
}

/// The newline-closed lines of a log; bytes after the last newline are no line.
pub open spec fn lines_of(buf: Seq<u8>) -> Seq<Seq<u8>> {
    line_fold(buf, buf.len() as int).0
}

pub open spec fn hash_views(hashes: Seq<String>) -> Seq<Seq<char>> {
    hashes.map_values(|h: String| h@)
}

/// Bytes that end with a newline and whose lines hash, in order, to exactly
/// the recorded hashes.
pub open spec fn hashes_match_spec(buf: Seq<u8>, hashes: Seq<Seq<char>>) -> bool {
    &&& buf.len() > 0
    &&& buf.last() == 10u8
    &&& lines_of(buf).len() == hashes.len()
    &&& forall|i: int| 0 <= i < hashes.len() ==> sha256_hex_spec(#[trigger] lines_of(buf)[i]) == hashes[i]
}

proof fn lemma_line_fold_start(buf: Seq<u8>, m: int)
    requires
        0 <= m <= buf.len(),
    ensures
        0 <= line_fold(buf, m).1 <= m,
    decreases m,
{
    if m > 0 {
        lemma_line_fold_start(buf, m - 1);
    }
}

proof fn lemma_line_fold_grows(buf: Seq<u8>, k: int, m: int)
    requires
        0 <= k <= m <= buf.len(),
    ensures
        line_fold(buf, k).0.len() <= line_fold(buf, m).0.len(),
        line_fold(buf, m).0.take(line_fold(buf, k).0.len() as int) == line_fold(buf, k).0,
        0 <= line_fold(buf, m).1 <= m,
    decreases m - k,
{
    lemma_line_fold_start(buf, m);
    if m > k {
        lemma_line_fold_grows(buf, k, m - 1);
        let (ls, st) = line_fold(buf, m - 1);
        let n = line_fold(buf, k).0.len() as int;
        if buf[m - 1] == 10u8 {
            assert(ls.push(buf.subrange(st, m - 1)).take(n) =~= ls.take(n));
        }
    } else {
        let (ls, st) = line_fold(buf, m);
        assert(ls.take(ls.len() as int) =~= ls);
    }
}

/// Checks the bytes an interrupted append left behind against the hashes
/// its prepare record holds.
pub fn hashes_match(buf: &Vec<u8>, hashes: &Vec<String>) -> (r: bool)
    ensures
        r == hashes_match_spec(buf@, hash_views(hashes@)),
{
    let ghost hv = hash_views(hashes@);
    if buf.len() == 0 || buf[buf.len() - 1] != 10u8 {
        return false;
    }
    let mut start: usize = 0;
    let mut index: usize = 0;
    let mut i: usize = 0;
    proof {
        lemma_line_fold_grows(buf@, 0, buf.len() as int);
    }
    while i < buf.len()
        invariant
            i <= buf.len(),
            buf.len() > 0,
            buf@.last() == 10u8,
            hv == hash_views(hashes@),
            line_fold(buf@, i as int).1 == start,
            start <= i,
            line_fold(buf@, i as int).0.len() == index,
            index <= hashes.len(),
            forall|j: int| 0 <= j < index ==> sha256_hex_spec(#[trigger] line_fold(buf@, i as int).0[j]) == hv[j],
        decreases buf.len() - i,
    {
        let ghost prev = line_fold(buf@, i as int).0;
        if buf[i] == 10u8 {
            proof {
                lemma_line_fold_grows(buf@, i + 1, buf.len() as int);
                assert(line_fold(buf@, i + 1).0 == prev.push(buf@.subrange(start as int, i as int)));
                let all = lines_of(buf@);
                assert(all.take(index + 1) == prev.push(buf@.subrange(start as int, i as int)));
                assert(all[index as int] == all.take(index + 1)[index as int]);
            }
            if index >= hashes.len() {
                return false;
            }
            let line = sha256_hex(slice_subrange(buf.as_slice(), start, i));
            if !str_eq(line.as_str(), hashes[index].as_str()) {
                assert(hv[index as int] == hashes@[index as int]@);
                return false;
            }
            proof {
                let now = line_fold(buf@, i + 1).0;
                assert forall|j: int| 0 <= j < index + 1 implies sha256_hex_spec(#[trigger] now[j]) == hv[j] by {
                    if j < index {
                        assert(now[j] == prev[j]);
                    }
                }
            }
            index = index + 1;
            start = i + 1;
        }
        i = i + 1;
    }
    proof {
        let all = lines_of(buf@);
        assert forall|j: int| 0 <= j < hv.len() && index == hashes.len() implies sha256_hex_spec(#[trigger] all[j]) == hv[j] by {
            assert(line_fold(buf@, buf.len() as int).0[j] == all[j]);
        }
        assert(line_fold(buf@, (buf.len() - 1) as int).1 <= buf.len() - 1) by {
            lemma_line_fold_grows(buf@, 0, buf.len() - 1);
        }
    }
    index == hashes.len() && start == buf.len()
}

/// Messages written as one append: each message's compact JSON followed by a
/// newline.
pub open spec fn framed(items: Seq<Seq<u8>>) -> Seq<u8>
    decreases items.len(),
{
    if items.len() == 0 {
        Seq::empty()
    } else {
        framed(items.drop_last()) + items.last() + seq![10u8]
    }
}

pub open spec fn byte_views(items: Seq<Vec<u8>>) -> Seq<Seq<u8>> {
    items.map_values(|b: Vec<u8>| b@)
}

/// The bytes of one append and the hash of each message line, as its prepare
/// record holds them.
pub fn frame_payload(items: &Vec<Vec<u8>>) -> (r: (Vec<u8>, Vec<String>))
    ensures
        r.0@ == framed(byte_views(items@)),
        hash_views(r.1@) == byte_views(items@).map_values(|b: Seq<u8>| sha256_hex_spec(b)),
{
    let ghost view = byte_views(items@);
    let mut payload: Vec<u8> = Vec::new();
    let mut hashes: Vec<String> = Vec::new();
    let mut i: usize = 0;
    while i < items.len()
        invariant
            i <= items.len(),
            view == byte_views(items@),
            payload@ == framed(view.take(i as int)),
            hashes.len() == i,
            hash_views(hashes@) == view.take(i as int).map_values(|b: Seq<u8>| sha256_hex_spec(b)),
        decreases items.len() - i,
    {
        let ghost old_h = hashes@;
        let h = sha256_hex(items[i].as_slice());
        assert(h@ == sha256_hex_spec(items@[i as int]@));
        hashes.push(h);
        let ghost before = payload@;
        payload.extend_from_slice(items[i].as_slice());
        payload.push(10u8);
        proof {
            let t = view.take(i + 1);
            assert(t.drop_last() =~= view.take(i as int));
            assert(t.last() == items@[i as int]@);
            assert(payload@ =~= before + items@[i as int]@ + seq![10u8]);
            let hw = hash_views(hashes@);
            let tw = t.map_values(|b: Seq<u8>| sha256_hex_spec(b));
            let ow = view.take(i as int).map_values(|b: Seq<u8>| sha256_hex_spec(b));
            assert forall|j: int| 0 <= j < tw.len() implies hw[j] == tw[j] by {
                if j < i {
                    assert(t[j] == view.take(i as int)[j]);
                    assert(hashes@[j] == old_h[j]);
                    assert(hash_views(old_h)[j] == ow[j]);
                } else {
                    assert(hashes@[j] == h);
                    assert(t[j] == view[j]);
                }
            }
            assert(hw =~= tw);
        }
        i = i + 1;
    }
    proof {
        assert(view.take(i as int) =~= view);
    }
    (payload, hashes)
}

pub open spec fn no_newline(b: Seq<u8>) -> bool {
    forall|j: int| 0 <= j < b.len() ==> b[j] != 10u8
}

proof fn lemma_line_fold_prefix(a: Seq<u8>, b: Seq<u8>, k: int)
    requires
        0 <= k <= a.len(),
    ensures
        line_fold(a + b, k) == line_fold(a, k),
    decreases k,
{
    if k > 0 {
        lemma_line_fold_prefix(a, b, k - 1);
        let (ls, st) = line_fold(a, k - 1);
        lemma_line_fold_grows(a, k - 1, k - 1);
        assert((a + b)[k - 1] == a[k - 1]);
        assert((a + b).subrange(st, k - 1) =~= a.subrange(st, k - 1));
    }
}

proof fn lemma_line_fold_skips(q: Seq<u8>, p_len: int, k: int)
    requires
        0 <= p_len <= k <= q.len(),
        forall|j: int| p_len <= j < k ==> q[j] != 10u8,
    ensures
        line_fold(q, k) == line_fold(q, p_len),
    decreases k - p_len,
{
    if k > p_len {
        lemma_line_fold_skips(q, p_len, k - 1);
    }
}

/// Appending framed messages that hold no newline byte gives back exactly
/// those messages as lines.
proof fn lemma_framed_lines(items: Seq<Seq<u8>>)
    requires
        forall|i: int| 0 <= i < items.len() ==> no_newline(#[trigger] items[i]),
    ensures
        line_fold(framed(items), framed(items).len() as int) == (items, framed(items).len() as int),
    decreases items.len(),
{
    if items.len() == 0 {
        assert(framed(items) =~= Seq::<u8>::empty());
        assert(items =~= Seq::<Seq<u8>>::empty());
    } else {
        let init = items.drop_last();
        let x = items.last();
        assert(no_newline(items[items.len() - 1]));
        assert forall|i: int| 0 <= i < init.len() implies no_newline(#[trigger] init[i]) by {
            assert(init[i] == items[i]);
        }
        lemma_framed_lines(init);
        let p = framed(init);
        let q = framed(items);
        assert(q == p + x + seq![10u8]);
        assert(q =~= p + (x + seq![10u8]));
        lemma_line_fold_prefix(p, x + seq![10u8], p.len() as int);
        let e = (p.len() + x.len()) as int;
        assert forall|j: int| p.len() <= j < e implies q[j] != 10u8 by {
            assert(q[j] == x[j - p.len()]);
        }
        lemma_line_fold_skips(q, p.len() as int, e);
        assert(q[e] == 10u8);
        assert(q.subrange(p.len() as int, e) =~= x);
        assert(init.push(x) =~= items);
    }
}

/// A complete append is recognised as complete: the bytes one append writes
/// match the hashes its prepare record holds, whenever the messages are
/// compact JSON (no raw newline) and there is at least one.
pub proof fn lemma_complete_append_matches(items: Seq<Seq<u8>>)
    requires
        items.len() > 0,
        forall|i: int| 0 <= i < items.len() ==> no_newline(#[trigger] items[i]),
    ensures
        hashes_match_spec(framed(items), items.map_values(|b: Seq<u8>| sha256_hex_spec(b))),
        lines_of(framed(items)) == items,
{
    lemma_framed_lines(items);
    let q = framed(items);
    assert(q == framed(items.drop_last()) + items.last() + seq![10u8]);
    assert(q.last() == 10u8);
}

/// Newline bytes among the first `k` bytes.
pub open spec fn newline_count(data: Seq<u8>, k: int) -> nat
    decreases k,
{
    if k <= 0 {
        0
    } else {
        newline_count(data, k - 1) + if data[k - 1] == 10u8 {
            1nat
        } else {
            0nat
        }
    }
}

/// Where the `count`-th newline-closed line ends, among the first `k` bytes.
pub open spec fn line_end_upto(data: Seq<u8>, count: nat, k: int) -> Option<int>
    decreases k,
{
    if k <= 0 {
        None
    } else {
        match line_end_upto(data, count, k - 1) {
            Some(e) => Some(e),
            None => if data[k - 1] == 10u8 && newline_count(data, k) == count {
                Some(k)
            } else {
                None
            },
        }
    }
}

proof fn lemma_line_end_stable(data: Seq<u8>, count: nat, k: int, m: int)
    requires
        0 <= k <= m,
        line_end_upto(data, count, k) is Some,
    ensures
        line_end_upto(data, count, m) == line_end_upto(data, count, k),
    decreases m - k,
{
    if m > k {
        lemma_line_end_stable(data, count, k, m - 1);
    }
}

/// The byte offset just past the first `count` lines of the log, or why
/// there is none.
pub open spec fn byte_end_spec(data: Seq<u8>, count: u64) -> Result<u64, Seq<char>> {
    if count == 0 {
        Ok(0)
    } else {
        match line_end_upto(data, count as nat, data.len() as int) {
            Some(e) => Ok(e as u64),
            None => Err(
                MESSAGES_FILE@ + " has "@ + decimal_seq(newline_count(data, data.len() as int))
                    + " complete lines, expected "@ + decimal_seq(count as nat) + " committed"@,
            ),
        }
    }
}

/// Where the committed messages of the log end.
pub fn committed_byte_end(data: &Vec<u8>, count: u64) -> (r: Result<u64, String>)
    ensures
        match (r, byte_end_spec(data@, count)) {
            (Ok(a), Ok(b)) => a == b,
            (Err(m), Err(t)) => m@ == t,
            _ => false,
        },
{
    if count == 0 {
        return Ok(0);
    }
    let mut seen: u64 = 0;
    let mut i: usize = 0;
    while i < data.len()
        invariant
            i <= data.len(),
            count > 0,
            seen == newline_count(data@, i as int),
            seen < count,
            line_end_upto(data@, count as nat, i as int) is None,
        decreases data.len() - i,
    {
        if data[i] == 10u8 {
            seen = seen + 1;
            if seen == count {
                proof {
                    assert(line_end_upto(data@, count as nat, i + 1) == Some(i + 1));
                    lemma_line_end_stable(data@, count as nat, i + 1, data.len() as int);
                }
                return Ok((i + 1) as u64);
            }
        }
        i = i + 1;
    }
    let mut m = String::new();
    push_str(&mut m, MESSAGES_FILE);
    push_str(&mut m, " has ");
    push_decimal(&mut m, seen);
    push_str(&mut m, " complete lines, expected ");
    push_decimal(&mut m, count);
    push_str(&mut m, " committed");
    proof {
        reveal_strlit("");
    }
    Err(m)
}

/// What recovery does with a prepared append that has no commit or abort.
#[derive(Debug, PartialEq, Eq)]
pub enum PrepareRecovery {
    /// Record an abort with this reason; the log is left alone.
    Abort(String),
    /// The append is whole: record its commit and raise the committed count.
    Commit { new_count: u64 },
    /// Move the bytes past the prepare offset aside, then record an abort
    /// with this reason.
    IsolateAndAbort(String),
}

/// Recovery of a prepared append: the log must reach the prepare offset and
/// have something past it; the append is whole when exactly its bytes follow
/// and they match its hashes.
pub open spec fn recovery_spec(
    committed: u64,
    expected_offset: u64,
    count: u64,
    byte_len: u64,
    hashes: Seq<Seq<char>>,
    file_len: u64,
    tail: Seq<u8>,
) -> (Option<Seq<char>>, Option<u64>, bool) {
    if file_len < expected_offset {
        (Some("messages_shorter_than_prepare_offset"@), None, false)
    } else if file_len - expected_offset == 0 {
        (Some("prepare_not_started"@), None, false)
    } else if file_len - expected_offset == byte_len && hashes_match_spec(tail, hashes) {
        (None, Some((committed + count) as u64), false)
    } else {
        (Some("truncated_or_hash_mismatch"@), None, true)
    }
}

pub open spec fn recovery_matches(r: PrepareRecovery, s: (Option<Seq<char>>, Option<u64>, bool)) -> bool {
    match r {
        PrepareRecovery::Abort(m) => s.0 == Some(m@) && !s.2,
        PrepareRecovery::Commit { new_count } => s.1 == Some(new_count),
        PrepareRecovery::IsolateAndAbort(m) => s.0 == Some(m@) && s.2,
    }
}

/// Decides the fate of a prepared append from the log's length and, when
/// exactly the prepared number of bytes follow the offset, those bytes.
pub fn recover_prepare_action(
    committed: u64,
    expected_offset: u64,
    count: u64,
    byte_len: u64,
    content_hashes: &Vec<String>,
    file_len: u64,
    tail: &Vec<u8>,
) -> (r: PrepareRecovery)
    requires
        file_len >= expected_offset && file_len - expected_offset == byte_len && byte_len > 0
            && hashes_match_spec(tail@, hash_views(content_hashes@)) ==> committed + count <= u64::MAX,
    ensures
        recovery_matches(
            r,
            recovery_spec(
                committed,
                expected_offset,
                count,
                byte_len,
                hash_views(content_hashes@),
                file_len,
                tail@,
            ),
        ),
{
    if file_len < expected_offset {
        return PrepareRecovery::Abort("messages_shorter_than_prepare_offset".to_owned());
    }
    let tail_len = file_len - expected_offset;
    if tail_len == 0 {
        return PrepareRecovery::Abort("prepare_not_started".to_owned());
    }
    let complete = tail_len == byte_len && hashes_match(tail, content_hashes);
    if complete {
        return PrepareRecovery::Commit { new_count: committed + count };
    }
    PrepareRecovery::IsolateAndAbort("truncated_or_hash_mismatch".to_owned())
}

/// An append interrupted after its bytes were written but before its commit
/// record is committed by recovery, with exactly its messages; one cut short
/// is moved aside instead.
pub proof fn lemma_interrupted_append_recovery(
    items: Seq<Seq<u8>>,
    committed: u64,
    offset: u64,
    written: nat,
)
    requires
        items.len() > 0,
        forall|i: int| 0 <= i < items.len() ==> no_newline(#[trigger] items[i]),
        committed + items.len() <= u64::MAX,
        offset + framed(items).len() <= u64::MAX,
        0 < written <= framed(items).len(),
    ensures
        ({
            let payload = framed(items);
            let hashes = items.map_values(|b: Seq<u8>| sha256_hex_spec(b));
            let r = recovery_spec(
                committed,
                offset,
                items.len() as u64,
                payload.len() as u64,
                hashes,
                (offset + written) as u64,
                payload.subrange(0, written as int),
            );
            &&& written == payload.len() ==> r == (None::<Seq<char>>, Some((committed + items.len()) as u64), false)
            &&& written < payload.len() ==> r == (Some("truncated_or_hash_mismatch"@), None::<u64>, true)
        }),
{
    lemma_complete_append_matches(items);
    let payload = framed(items);
    assert(payload.subrange(0, payload.len() as int) =~= payload);
}

/// The largest committed count among `committed` and the commits logged.
pub open spec fn max_commit_spec(committed: u64, ops: Seq<RuntimeOp>) -> u64
    decreases ops.len(),
{
    if ops.len() == 0 {
        committed
    } else {
        let m = max_commit_spec(committed, ops.drop_last());
        match ops.last() {
            RuntimeOp::Commit { committed_message_count, .. } => if committed_message_count > m {
                committed_message_count
            } else {
                m
            },
            _ => m,
        }
    }
}

/// The committed message count recovery settles on.
pub fn max_committed_count(committed: u64, ops: &Vec<RuntimeOp>) -> (r: u64)
    ensures
        r == max_commit_spec(committed, ops@),
{
    let mut m = committed;
    let mut i: usize = 0;
    while i < ops.len()
        invariant
            i <= ops.len(),
            m == max_commit_spec(committed, ops@.take(i as int)),
        decreases ops.len() - i,
    {
        assert(ops@.take(i + 1).drop_last() =~= ops@.take(i as int));
        assert(ops@.take(i + 1).last() == ops@[i as int]);
        if let RuntimeOp::Commit { committed_message_count, .. } = &ops[i] {
            if *committed_message_count > m {
                m = *committed_message_count;
            }
        }
        i = i + 1;
    }
    assert(ops@.take(ops.len() as int) =~= ops@);
    m
}

fn contains_u64(v: &Vec<u64>, x: u64) -> (r: bool)
    ensures
        r == v@.contains(x),
{
    let mut i: usize = 0;
    while i < v.len()
        invariant
            i <= v.len(),
            forall|k: int| 0 <= k < i ==> v@[k] != x,
        decreases v.len() - i,
    {
        if v[i] == x {
            assert(v@[i as int] == x);
            return true;
        }
        i = i + 1;
    }
    false
}

/// Whether message `i` of an append starting at `start` still has to be
/// written: always without a run, else unless its ordinal was committed for
/// the run.
pub open spec fn append_keeps(ops: Seq<RuntimeOp>, run_id: Option<Seq<char>>, start: u64, i: int) -> bool {
    match run_id {
        None => true,
        Some(id) => !committed_for(ops, id).contains((start + i) as u64),
    }
}

pub open spec fn str_opt(o: Option<&str>) -> Option<Seq<char>> {
    match o {
        Some(s) => Some(s@),
        None => None,
    }
}

/// The messages of an append still to write, by index, and their ordinals.
pub fn append_plan(ops: &Vec<RuntimeOp>, run_id: Option<&str>, start_ordinal: u64, n: usize) -> (r: (
    Vec<usize>,
    Vec<u64>,
))
    requires
        start_ordinal + n <= u64::MAX,
    ensures
        r.0.len() == r.1.len(),
        forall|k: int| 0 <= k < r.0.len() ==> r.1@[k] == start_ordinal + #[trigger] r.0@[k],
        forall|k: int| 0 <= k < r.0.len() ==> #[trigger] r.0@[k] < n,
        forall|a: int, b: int| 0 <= a < b < r.0.len() ==> r.0@[a] < r.0@[b],
        forall|i: int|
            0 <= i < n ==> (#[trigger] append_keeps(ops@, str_opt(run_id), start_ordinal, i) <==> exists|k: int| 0 <= k < r.0.len() && #[trigger] r.0@[k] == i),
{
    let ghost rid = str_opt(run_id);
    let committed = match run_id {
        Some(id) => committed_ordinals_for(ops, id),
        None => Vec::new(),
    };
    let mut kept: Vec<usize> = Vec::new();
    let mut ordinals: Vec<u64> = Vec::new();
    let mut i: usize = 0;
    while i < n
        invariant
            i <= n,
            start_ordinal + n <= u64::MAX,
            rid == str_opt(run_id),
            run_id matches Some(id) ==> committed@ == committed_for(ops@, id@),
            kept.len() == ordinals.len(),
            forall|k: int| 0 <= k < kept.len() ==> ordinals@[k] == start_ordinal + #[trigger] kept@[k],
            forall|k: int| 0 <= k < kept.len() ==> #[trigger] kept@[k] < i,
            forall|a: int, b: int| 0 <= a < b < kept.len() ==> kept@[a] < kept@[b],
            forall|j: int|
                0 <= j < i ==> (#[trigger] append_keeps(ops@, rid, start_ordinal, j) <==> exists|k: int|
                    0 <= k < kept.len() && #[trigger] kept@[k] == j),
        decreases n - i,
    {
        let ordinal = start_ordinal + i as u64;
        let skip = match run_id {
            Some(_) => contains_u64(&committed, ordinal),
            None => false,
        };
        let ghost before = kept@;
        if !skip {
            kept.push(i);
            ordinals.push(ordinal);
        }
        proof {
            assert(skip == !append_keeps(ops@, rid, start_ordinal, i as int));
            assert forall|j: int| 0 <= j < i + 1 implies (#[trigger] append_keeps(ops@, rid, start_ordinal, j)
                <==> exists|k: int| 0 <= k < kept.len() && #[trigger] kept@[k] == j) by {
                if j < i {
                    if exists|k: int| 0 <= k < before.len() && #[trigger] before[k] == j {
                        let k = choose|k: int| 0 <= k < before.len() && #[trigger] before[k] == j;
                        assert(kept@[k] == j);
                    }
                    if exists|k: int| 0 <= k < kept.len() && #[trigger] kept@[k] == j {
                        let k = choose|k: int| 0 <= k < kept.len() && #[trigger] kept@[k] == j;
                        if k < before.len() {
                            assert(before[k] == j);
                        }
                    }
                } else {
                    if !skip {
                        assert(kept@[before.len() as int] == j);
                    }
                    if exists|k: int| 0 <= k < kept.len() && #[trigger] kept@[k] == j {
                        let k = choose|k: int| 0 <= k < kept.len() && #[trigger] kept@[k] == j;
                        if k < before.len() {
                            assert(before[k] < i);
                        }
                    }
                }
            }
        }
        i = i + 1;
    }
    (kept, ordinals)
}

/// Retrying an append of a run writes nothing again: once the ordinals of
/// its messages were committed for the run, none is kept.
pub proof fn lemma_committed_append_is_not_repeated(ops: Seq<RuntimeOp>, run_id: Seq<char>, start: u64, n: int)
    requires
        start + n <= u64::MAX,
        forall|i: int| 0 <= i < n ==> #[trigger] committed_for(ops, run_id).contains((start + i) as u64),
    ensures
        forall|i: int| 0 <= i < n ==> !#[trigger] append_keeps(ops, Some(run_id), start, i),
{
}

/// The ordinal an appended run continues from: one past the largest it
/// committed, else 0.
pub open spec fn next_ordinal_spec(ordinals: Seq<u64>) -> u64
    decreases ordinals.len(),
{
    if ordinals.len() == 0 {
        0
    } else {
        let m = next_ordinal_spec(ordinals.drop_last());
        if ordinals.last() + 1 > m {
            (ordinals.last() + 1) as u64
        } else {
            m
        }
    }
}

/// Where the next append of a run starts.
pub fn next_start_ordinal(ops: &Vec<RuntimeOp>, run_id: &str) -> (r: u64)
    requires
        forall|k: int| 0 <= k < committed_for(ops@, run_id@).len() ==> #[trigger] committed_for(ops@, run_id@)[k] < u64::MAX,
    ensures
        r == next_ordinal_spec(committed_for(ops@, run_id@)),
{
    let ords = committed_ordinals_for(ops, run_id);
    let mut m: u64 = 0;
    let mut i: usize = 0;
    while i < ords.len()
        invariant
            i <= ords.len(),
            forall|k: int| 0 <= k < ords.len() ==> #[trigger] ords@[k] < u64::MAX,
            m == next_ordinal_spec(ords@.take(i as int)),
        decreases ords.len() - i,
    {
        assert(ords@.take(i + 1).drop_last() =~= ords@.take(i as int));
        assert(ords@.take(i + 1).last() == ords@[i as int]);
        let next = ords[i] + 1;
        if next > m {
            m = next;
        }
        i = i + 1;
    }
    assert(ords@.take(ords.len() as int) =~= ords@);
    m
}

/// A prepared append that no commit or abort in the log finished.
pub open spec fn unfinished_prepare(ops: Seq<RuntimeOp>, i: int) -> bool {
    ops[i] matches RuntimeOp::Prepare { operation_id, .. } && !is_finished(ops, operation_id@)
}

/// The prepared appends recovery has to settle, by index in log order.
pub fn unfinished_prepares(ops: &Vec<RuntimeOp>) -> (r: Vec<usize>)
    ensures
        forall|k: int| 0 <= k < r.len() ==> #[trigger] r@[k] < ops.len() && unfinished_prepare(ops@, r@[k] as int),
        forall|a: int, b: int| 0 <= a < b < r.len() ==> r@[a] < r@[b],
        forall|i: int|
            0 <= i < ops.len() && #[trigger] unfinished_prepare(ops@, i) ==> exists|k: int|
                0 <= k < r.len() && r@[k] == i,
{
    let finished = finished_operation_ids(ops);
    let mut out: Vec<usize> = Vec::new();
    let mut i: usize = 0;
    while i < ops.len()
        invariant
            i <= ops.len(),
            forall|k: int| 0 <= k < finished.len() ==> is_finished(ops@, #[trigger] finished@[k]@),
            forall|j: int|
                0 <= j < ops.len() && (#[trigger] finished_id(ops@[j])) is Some ==> listed(
                    finished@,
                    finished_id(ops@[j])->0,
                ),
            forall|k: int| 0 <= k < out.len() ==> #[trigger] out@[k] < i && unfinished_prepare(ops@, out@[k] as int),
            forall|a: int, b: int| 0 <= a < b < out.len() ==> out@[a] < out@[b],
            forall|j: int|
                0 <= j < i && #[trigger] unfinished_prepare(ops@, j) ==> exists|k: int|
                    0 <= k < out.len() && out@[k] == j,
        decreases ops.len() - i,
    {
        if let RuntimeOp::Prepare { operation_id, .. } = &ops[i] {
            let mut done = false;
            let mut k: usize = 0;
            while k < finished.len()
                invariant
                    k <= finished.len(),
                    done == exists|m: int| 0 <= m < k && #[trigger] finished@[m]@ == operation_id@,
                decreases finished.len() - k,
            {
                if str_eq(finished[k].as_str(), operation_id.as_str()) {
                    done = true;
                }
                k = k + 1;
            }
            proof {
                if is_finished(ops@, operation_id@) {
                    let j = choose|j: int| 0 <= j < ops.len() && finished_id(#[trigger] ops@[j]) == Some(operation_id@);
                    assert(finished_id(ops@[j]) is Some);
                    assert(listed(finished@, operation_id@));
                }
                if done {
                    let m = choose|m: int| 0 <= m < finished.len() && #[trigger] finished@[m]@ == operation_id@;
                    assert(is_finished(ops@, finished@[m]@));
                }
            }
            let ghost before = out@;
            if !done {
                out.push(i);
                proof {
                    assert(out@[before.len() as int] == i);
                }
            }
            proof {
                assert forall|j: int| 0 <= j < i + 1 && #[trigger] unfinished_prepare(ops@, j) implies exists|k: int|
                    0 <= k < out.len() && out@[k] == j by {
                    if j < i {
                        let k = choose|k: int| 0 <= k < before.len() && before[k] == j;
                        assert(out@[k] == before[k]);
                    } else {
                        assert(out@[before.len() as int] == i);
                    }
                }
            }
        }
        i = i + 1;
    }
    out
}

// ----- session metadata and the runner's window -----

/// Why stored session metadata is refused: another storage version, another
/// message format, or another session.
pub open spec fn meta_error_spec(meta: SessionMeta, session_id: Seq<char>) -> Option<Seq<char>> {
    if meta.storage_version != STORAGE_VERSION {
        Some(
            "unsupported storage_version "@ + decimal_seq(meta.storage_version as nat)
                + " (expected "@ + decimal_seq(STORAGE_VERSION as nat) + "); refusing to rewrite"@,
        )
    } else if meta.message_format@ != MESSAGE_FORMAT@ {
        Some(
            "unsupported message_format "@ + meta.message_format@ + " (expected "@ + MESSAGE_FORMAT@
                + ")"@,
        )
    } else if meta.session_id@ != session_id {
        Some(
            "session.json session_id "@ + meta.session_id@ + " does not match "@ + session_id,
        )
    } else {
        None
    }
}

pub fn check_session_meta(meta: &SessionMeta, session_id: &str) -> (r: Result<(), String>)
    ensures
        match meta_error_spec(*meta, session_id@) {
            None => r is Ok,
            Some(m) => r matches Err(e) && e@ == m,
        },
{
    if meta.storage_version != STORAGE_VERSION {
        let mut m = "unsupported storage_version ".to_owned();
        push_decimal(&mut m, meta.storage_version as u64);
        push_str(&mut m, " (expected ");
        push_decimal(&mut m, STORAGE_VERSION as u64);
        push_str(&mut m, "); refusing to rewrite");
        return Err(m);
    }
    if !str_eq(meta.message_format.as_str(), MESSAGE_FORMAT) {
        let mut m = "unsupported message_format ".to_owned();
        push_str(&mut m, meta.message_format.as_str());
        push_str(&mut m, " (expected ");
        push_str(&mut m, MESSAGE_FORMAT);
        push_str(&mut m, ")");
        return Err(m);
    }
    if !str_eq(meta.session_id.as_str(), session_id) {
        let mut m = "session.json session_id ".to_owned();
        push_str(&mut m, meta.session_id.as_str());
        push_str(&mut m, " does not match ");
        push_str(&mut m, session_id);
        return Err(m);
    }
    Ok(())
}

/// How many committed messages the runner loads: those before the bound
/// seq (1-based), or all when there is no bound.
pub open spec fn runner_count_spec(committed: nat, history_before: Option<u64>) -> nat {
    match history_before {
        Some(seq) if seq > 0 => if (seq - 1) < committed {
            (seq - 1) as nat
        } else {
            committed
        },
        _ => committed,
    }
}

pub fn runner_history_count(committed: usize, history_before: Option<u64>) -> (r: usize)
    ensures
        r == runner_count_spec(committed as nat, history_before),
{
    match history_before {
        Some(seq) => {
            if seq > 0 {
                let n = seq - 1;
                if n < committed as u64 {
                    n as usize
                } else {
                    committed
                }
            } else {
                committed
            }
        },
        None => committed,
    }
}

/// The runner never sees the message at the history bound or after it: a
/// prompt saved at seq `s` is left out of the history loaded for its run.
pub proof fn lemma_runner_excludes_bound(committed: nat, seq: u64)
    requires
        seq > 0,
    ensures
        runner_count_spec(committed, Some(seq)) < seq,
        runner_count_spec(committed, Some(seq)) <= committed,
{
}

} // verus!
