//! Reuse of compact-llm checkpoints at the request boundary: which stored
//! checkpoint covers the evicted messages, and what the compactor does then.

use vstd::prelude::*;

use crate::context::checkpoint::{
    carry_view, evicted_view, lookup_in, lookup_spec, CheckpointRecord, CheckpointView,
    CompactPlan, Lookup, LookupScope, STATUS_COMMITTED,
};
use crate::context::compact_llm::{CompactLlmError, LlmFailure};

verus! {

/// What the reuse lookup reads of a stored compact-llm checkpoint.
pub struct LlmCheckpointRecord {
    pub id: String,
    pub previous_id: Option<String>,
    pub conversation_id: String,
    pub epoch: u64,
    pub covers_through_seq: u64,
    pub source_slice_sha256: String,
    pub fingerprint: String,
}

/// A compact-llm checkpoint as the shared lookup reads it: usable exactly
/// when it belongs to the epoch asked for (pending ones included).
pub open spec fn llm_view(c: LlmCheckpointRecord, epoch: u64) -> CheckpointView {
    CheckpointView {
        id: c.id@,
        previous_id: match c.previous_id {
            Some(p) => Some(p@),
            None => None,
        },
        conversation_id: c.conversation_id@,
        covers: c.covers_through_seq,
        hash: c.source_slice_sha256@,
        status: if c.epoch == epoch {
            STATUS_COMMITTED@
        } else {
            "other epoch"@
        },
        fingerprint: c.fingerprint@,
    }
}

pub open spec fn llm_scope(
    records: Seq<LlmCheckpointRecord>,
    conversation_id: Seq<char>,
    epoch: u64,
    fingerprint: Seq<char>,
    carry: Option<LlmCheckpointRecord>,
) -> LookupScope {
    LookupScope {
        records: records.map_values(|c: LlmCheckpointRecord| llm_view(c, epoch)),
        conversation_id,
        fingerprint,
        carry: match carry {
            Some(c) => Some(llm_view(c, epoch)),
            None => None,
        },
        bounded: false,
    }
}

fn as_record(c: &LlmCheckpointRecord, epoch: u64) -> (r: CheckpointRecord)
    ensures
        r@ == llm_view(*c, epoch),
{
    CheckpointRecord {
        id: c.id.clone(),
        previous_id: c.previous_id.clone(),
        conversation_id: c.conversation_id.clone(),
        covers_through_seq: c.covers_through_seq,
        source_prefix_sha256: c.source_slice_sha256.clone(),
        status: if c.epoch == epoch {
            STATUS_COMMITTED.to_owned()
        } else {
            "other epoch".to_owned()
        },
        fingerprint: c.fingerprint.clone(),
    }
}

/// Finds a compact-llm checkpoint of this conversation, epoch and
/// fingerprint to reuse for `evicted` (each message given by its compact
/// JSON encoding) on top of `carry_over`.
pub fn lookup_compact_llm(
    records: &Vec<LlmCheckpointRecord>,
    evicted: &Vec<Vec<u8>>,
    carry_over: Option<&LlmCheckpointRecord>,
    conversation_id: &str,
    epoch: u64,
    fingerprint: &str,
) -> (r: Lookup)
    ensures
        r == lookup_spec(
            llm_scope(
                records@,
                conversation_id@,
                epoch,
                fingerprint@,
                match carry_over {
                    Some(c) => Some(*c),
                    None => None,
                },
            ),
            evicted_view(evicted@),
        ),
{
    let mut mapped: Vec<CheckpointRecord> = Vec::new();
    let mut i: usize = 0;
    while i < records.len()
        invariant
            i <= records.len(),
            mapped.len() == i,
            forall|k: int| 0 <= k < i ==> #[trigger] mapped@[k]@ == llm_view(records@[k], epoch),
        decreases records.len() - i,
    {
        mapped.push(as_record(&records[i], epoch));
        i = i + 1;
    }
    let carry = match carry_over {
        Some(c) => Some(as_record(c, epoch)),
        None => None,
    };
    let r = match &carry {
        Some(c) => lookup_in(&mapped, evicted, Some(c), conversation_id, fingerprint, false),
        None => lookup_in(&mapped, evicted, None, conversation_id, fingerprint, false),
    };
    proof {
        let sc = llm_scope(
            records@,
            conversation_id@,
            epoch,
            fingerprint@,
            match carry_over {
                Some(c) => Some(*c),
                None => None,
            },
        );
        assert(mapped@.map_values(|c: CheckpointRecord| c@) =~= sc.records);
    }
    r
}

/// What the compact-llm compactor does once the lookup has spoken: an empty
/// eviction and a cancelled turn are refused; an exact hit is reused; a
/// prefix hit is reused when it covers everything and extended otherwise;
/// a miss is summarised afresh.
pub open spec fn llm_plan_ok(
    r: Result<CompactPlan, CompactLlmError>,
    found: Lookup,
    evicted_len: nat,
    cancelled: bool,
) -> bool {
    if evicted_len == 0 {
        r matches Err(e) && e@ == LlmFailure::Other("compact-llm received empty evicted prefix"@)
    } else if cancelled {
        r matches Err(e) && e@ == LlmFailure::Cancelled
    } else {
        match found {
            Lookup::Exact(i) => r == Ok::<CompactPlan, CompactLlmError>(CompactPlan::Reuse(i)),
            Lookup::Prefix { stored, suffix_start } => if suffix_start > evicted_len {
                r matches Err(e) && e@ == LlmFailure::Other(
                    "compact-llm prefix suffix_start out of range"@,
                )
            } else if suffix_start == evicted_len {
                r == Ok::<CompactPlan, CompactLlmError>(CompactPlan::Reuse(stored))
            } else {
                r == Ok::<CompactPlan, CompactLlmError>(
                    CompactPlan::Extend { stored, from: suffix_start },
                )
            },
            Lookup::Miss => r == Ok::<CompactPlan, CompactLlmError>(CompactPlan::Fresh),
        }
    }
}

pub fn plan_compact_llm(found: Lookup, evicted_len: usize, cancelled: bool) -> (r: Result<
    CompactPlan,
    CompactLlmError,
>)
    ensures
        llm_plan_ok(r, found, evicted_len as nat, cancelled),
{
    if evicted_len == 0 {
        return Err(CompactLlmError::Other("compact-llm received empty evicted prefix".to_owned()));
    }
    if cancelled {
        return Err(CompactLlmError::Cancelled);
    }
    match found {
        Lookup::Exact(i) => Ok(CompactPlan::Reuse(i)),
        Lookup::Prefix { stored, suffix_start } => {
            if suffix_start > evicted_len {
                Err(CompactLlmError::Other("compact-llm prefix suffix_start out of range".to_owned()))
            } else if suffix_start == evicted_len {
                Ok(CompactPlan::Reuse(stored))
            } else {
                Ok(CompactPlan::Extend { stored, from: suffix_start })
            }
        },
        Lookup::Miss => Ok(CompactPlan::Fresh),
    }
}

} // verus!
