//! Rules of a session's history load: the tail kept by the token window,
//! where the history before the pending prompt ends, what a compacted view
//! covers, and the fail-closed check on the loaded request.

use vstd::prelude::*;

use crate::context::budget::{input_budget_spec, BudgetConfig, BudgetError};
use crate::context::compact::L2_MAX_TOKENS;
use crate::text::{chars_of, contains_chars, contains_seq, decimal_seq, push_decimal, push_str};

verus! {

/// Tail token budget of a session's token window: the soft-compact share of
/// the input budget less one compact completion (and at least one); a
/// quarter of the address space when no input budget is left.
pub open spec fn tail_budget_spec(budget: BudgetConfig) -> usize {
    match input_budget_spec(budget.window, budget.max_output) {
        Ok(input) => {
            let scaled: int = if input * budget.compact_soft_percent <= u64::MAX {
                input * budget.compact_soft_percent
            } else {
                u64::MAX as int
            };
            let target: int = scaled / 100;
            let reserve: int = if L2_MAX_TOKENS >= 1024 {
                L2_MAX_TOKENS as int
            } else {
                1024
            };
            let left: int = if target > reserve {
                target - reserve
            } else {
                0
            };
            let kept: int = if left >= 1 {
                left
            } else {
                1
            };
            kept as u64 as usize
        },
        Err(_) => (usize::MAX / 4) as usize,
    }
}

/// Tail token budget for the session's token window.
///
/// Falls back to a huge window when the request cannot fit output and safety,
/// so nothing is demoted; the load still fails closed on the budget check.
pub fn tail_budget_from(budget: BudgetConfig) -> (r: usize)
    ensures
        r == tail_budget_spec(budget),
{
    match budget.input_budget() {
        Ok(input) => {
            let scaled = match input.checked_mul(budget.compact_soft_percent as u64) {
                Some(x) => x,
                None => u64::MAX,
            };
            let target = scaled / 100;
            let reserve: u64 = if L2_MAX_TOKENS >= 1024 {
                L2_MAX_TOKENS
            } else {
                1024
            };
            let left = target.saturating_sub(reserve);
            let kept: u64 = if left >= 1 {
                left
            } else {
                1
            };
            kept as usize
        },
        Err(_) => usize::MAX / 4,
    }
}

/// Why a loaded request is refused: its estimate exceeds the input budget,
/// or there is no input budget at all.
pub open spec fn loaded_budget_spec(budget: BudgetConfig, estimated: u64) -> Result<(), Seq<char>> {
    match input_budget_spec(budget.window, budget.max_output) {
        Ok(input) => if estimated > input {
            Err(
                "context_budget_exceeded: estimated "@ + decimal_seq(estimated as nat)
                    + " exceeds input budget "@ + decimal_seq(input as nat),
            )
        } else {
            Ok(())
        },
        Err(e) => Err("context_budget_exceeded: "@ + e.message_spec()),
    }
}

/// The fail-closed check of a loaded history: `Ok` when the request estimate
/// fits the input budget, else the `context_budget_exceeded` message.
pub fn check_loaded_budget(budget: BudgetConfig, estimated: u64) -> (r: Result<(), String>)
    ensures
        match (r, loaded_budget_spec(budget, estimated)) {
            (Ok(()), Ok(())) => true,
            (Err(m), Err(s)) => m@ == s,
            _ => false,
        },
{
    match budget.input_budget() {
        Ok(input) => {
            if estimated > input {
                let mut m = String::new();
                push_str(&mut m, "context_budget_exceeded: estimated ");
                push_decimal(&mut m, estimated);
                push_str(&mut m, " exceeds input budget ");
                push_decimal(&mut m, input);
                proof {
                    reveal_strlit("");
                }
                Err(m)
            } else {
                Ok(())
            }
        },
        Err(e) => {
            let mut m = String::new();
            push_str(&mut m, "context_budget_exceeded: ");
            let detail = e.message();
            push_str(&mut m, detail.as_str());
            proof {
                reveal_strlit("");
            }
            Err(m)
        },
    }
}

/// With no input budget the tail is unbounded for the window, yet the load
/// is still refused.
pub proof fn lemma_no_budget_fails_closed(budget: BudgetConfig, estimated: u64)
    requires
        input_budget_spec(budget.window, budget.max_output) is Err,
    ensures
        tail_budget_spec(budget) == (usize::MAX / 4) as usize,
        loaded_budget_spec(budget, estimated) is Err,
{
}

// ----- how a load settles its pending checkpoint -----

/// What a history load does with the checkpoint that compaction left pending.
#[derive(Debug)]
pub enum LoadAction {
    /// Hand the loaded history back; commit the pending checkpoint, if any.
    Commit { pending_id: Option<String> },
    /// Refuse the load with `message`: abort the pending checkpoint, if any,
    /// and, when `forget` is set, drop the conversation's cached view.
    Fail { abort_id: Option<String>, forget: bool, message: String },
}

/// The last step of a load, once the request is estimated: a request that
/// fits the input budget commits the pending checkpoint; any other aborts it
/// (never commits it), drops the cached view, and fails with the
/// `context_budget_exceeded` message.
pub fn settle_load(budget: BudgetConfig, estimated: u64, pending_id: Option<String>) -> (r: LoadAction)
    ensures
        match loaded_budget_spec(budget, estimated) {
            Ok(()) => r == LoadAction::Commit { pending_id },
            Err(msg) => r matches LoadAction::Fail { abort_id, forget, message }
                && abort_id == pending_id && forget && message@ == msg,
        },
{
    match check_loaded_budget(budget, estimated) {
        Ok(()) => LoadAction::Commit { pending_id },
        Err(message) => LoadAction::Fail { abort_id: pending_id, forget: true, message },
    }
}

/// The message of a policy refusal raised while the history is assembled: kept
/// when it already names `context_budget_exceeded`, else prefixed with it.
pub open spec fn budget_policy_message_spec(msg: Seq<char>) -> Seq<char> {
    if contains_seq(msg, "context_budget_exceeded"@) {
        msg
    } else {
        "context_budget_exceeded: "@ + msg
    }
}

pub fn budget_policy_message(msg: &str) -> (r: String)
    ensures
        r@ == budget_policy_message_spec(msg@),
{
    let chars = chars_of(msg);
    let tag = chars_of("context_budget_exceeded");
    if contains_chars(&chars, &tag) {
        String::from_str(msg)
    } else {
        let mut m = String::new();
        push_str(&mut m, "context_budget_exceeded: ");
        push_str(&mut m, msg);
        proof {
            reveal_strlit("");
        }
        m
    }
}

/// A load that fails while its history is assembled aborts the pending
/// checkpoint, if any, and keeps the cached view. A policy refusal carries
/// [`budget_policy_message`] of its message; any other error is returned as
/// it came, so its action carries an empty message.
pub fn settle_failed_load(pending_id: Option<String>, policy_message: Option<&str>) -> (r: LoadAction)
    ensures
        r matches LoadAction::Fail { abort_id, forget, message } && abort_id == pending_id
            && !forget && message@ == match policy_message {
            Some(m) => budget_policy_message_spec(m@),
            None => Seq::<char>::empty(),
        },
{
    let message = match policy_message {
        Some(m) => budget_policy_message(m),
        None => String::new(),
    };
    LoadAction::Fail { abort_id: pending_id, forget: false, message }
}

// ----- where the loaded history stands -----

pub open spec fn byte_seqs(v: Seq<Vec<u8>>) -> Seq<Seq<u8>> {
    v.map_values(|b: Vec<u8>| b@)
}

/// The 1-based seq the history is bound before: the whole committed prefix,
/// less the pending prompt when it was already saved as the last message.
/// Messages are compared by their compact JSON encodings.
pub open spec fn bind_seq_spec(committed: Seq<Seq<u8>>, pending: Seq<u8>) -> int {
    if committed.len() > 0 && committed.last() == pending {
        committed.len() as int
    } else {
        committed.len() + 1int
    }
}

fn bytes_eq(a: &Vec<u8>, b: &Vec<u8>) -> (r: bool)
    ensures
        r == (a@ == b@),
{
    if a.len() != b.len() {
        return false;
    }
    let mut i: usize = 0;
    while i < a.len()
        invariant
            i <= a.len(),
            a.len() == b.len(),
            forall|k: int| 0 <= k < i ==> a@[k] == b@[k],
        decreases a.len() - i,
    {
        if a[i] != b[i] {
            return false;
        }
        i = i + 1;
    }
    assert(a@ =~= b@);
    true
}

pub fn bind_seq_excluding_pending(committed: &Vec<Vec<u8>>, pending: &Vec<u8>) -> (r: u64)
    requires
        committed.len() < u64::MAX,
    ensures
        r == bind_seq_spec(byte_seqs(committed@), pending@),
{
    let n = committed.len();
    if n > 0 && bytes_eq(&committed[n - 1], pending) {
        n as u64
    } else {
        n as u64 + 1
    }
}

/// `s` ends with `tail`.
pub open spec fn ends_with_seq(s: Seq<Seq<u8>>, tail: Seq<Seq<u8>>) -> bool {
    tail.len() <= s.len() && s.subrange(s.len() - tail.len(), s.len() as int) == tail
}

/// How much of the original prefix a loaded view stands for: all of it when
/// nothing was loaded; otherwise what precedes the kept tail (the loaded
/// messages after the leading summary, else all loaded messages) when the
/// original ends with it.
pub open spec fn covers_spec(original: Seq<Seq<u8>>, loaded: Seq<Seq<u8>>) -> Option<int> {
    if loaded.len() == 0 {
        if original.len() > 0 {
            Some(original.len() as int)
        } else {
            None
        }
    } else if ends_with_seq(original, loaded.subrange(1, loaded.len() as int)) {
        Some(original.len() - (loaded.len() - 1))
    } else if ends_with_seq(original, loaded) {
        Some(original.len() - loaded.len())
    } else {
        None
    }
}

fn ends_with_items(s: &Vec<Vec<u8>>, tail: &Vec<Vec<u8>>, from: usize) -> (r: bool)
    requires
        from <= tail.len(),
    ensures
        r == ends_with_seq(byte_seqs(s@), byte_seqs(tail@).subrange(from as int, tail.len() as int)),
{
    let ghost sv = byte_seqs(s@);
    let ghost tv = byte_seqs(tail@).subrange(from as int, tail.len() as int);
    let k = tail.len() - from;
    if k > s.len() {
        return false;
    }
    let base = s.len() - k;
    let mut i: usize = 0;
    while i < k
        invariant
            i <= k,
            k == tail.len() - from,
            base == s.len() - k,
            sv == byte_seqs(s@),
            tv == byte_seqs(tail@).subrange(from as int, tail.len() as int),
            forall|j: int| 0 <= j < i ==> sv[base + j] == tv[j],
        decreases k - i,
    {
        if !bytes_eq(&s[base + i], &tail[from + i]) {
            proof {
                assert(sv.subrange(base as int, s.len() as int)[i as int] != tv[i as int]);
            }
            return false;
        }
        i = i + 1;
    }
    assert(sv.subrange(base as int, s.len() as int) =~= tv);
    true
}

/// Where a compacted view's coverage ends, from the original prefix and the
/// loaded messages.
pub fn covers_through(original: &Vec<Vec<u8>>, loaded: &Vec<Vec<u8>>) -> (r: Option<usize>)
    ensures
        match (r, covers_spec(byte_seqs(original@), byte_seqs(loaded@))) {
            (Some(a), Some(b)) => a == b,
            (None, None) => true,
            _ => false,
        },
{
    if loaded.len() == 0 {
        if original.len() > 0 {
            return Some(original.len());
        }
        return None;
    }
    if ends_with_items(original, loaded, 1) {
        return Some(original.len() - (loaded.len() - 1));
    }
    if ends_with_items(original, loaded, 0) {
        proof {
            assert(byte_seqs(loaded@).subrange(0, loaded.len() as int) =~= byte_seqs(loaded@));
        }
        return Some(original.len() - loaded.len());
    }
    proof {
        assert(byte_seqs(loaded@).subrange(0, loaded.len() as int) =~= byte_seqs(loaded@));
    }
    None
}

/// A compacted view made of a summary followed by the last messages of the
/// original stands for exactly the messages it evicted.
pub proof fn lemma_summary_view_covers_evicted(evicted: Seq<Seq<u8>>, kept: Seq<Seq<u8>>, summary: Seq<u8>)
    ensures
        covers_spec(evicted + kept, seq![summary] + kept) == Some(evicted.len() as int),
{
    let loaded = seq![summary] + kept;
    let original = evicted + kept;
    assert(loaded.subrange(1, loaded.len() as int) =~= kept);
    assert(original.subrange(original.len() - kept.len(), original.len() as int) =~= kept);
}

} // verus!
