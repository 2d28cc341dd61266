//! Isolated LLM compaction branch (`compact-llm`): its settings, errors,
//! fingerprint and summary marker. Default off.

pub mod branch;
pub mod checkpoint;
pub mod recovery;
pub mod sandbox;
pub mod view;

use sha2::{Digest, Sha256};
use vstd::prelude::*;
use vstd::string::StringSliceAdditionalSpecFns;

use crate::text::{chars_of, decimal_seq, has_prefix, lower_seq, push_decimal, push_str, starts_with_lit, to_ascii_lowercase, trim, trim_seq, is_ws};

verus! {

/// Capability / config identifier.
pub const COMPACT_LLM_ID: &'static str = "compact-llm";
/// Checkpoint + fingerprint format version.
pub const COMPACT_LLM_FORMAT_VERSION: u32 = 1;
pub const COMPACT_LLM_MAX_FILE_BYTES: u64 = 262144;
pub const COMPACT_LLM_MAX_FILE_COUNT: usize = 16;
pub const COMPACT_LLM_MAX_INPUT_BYTES: usize = 65536;
pub const COMPACT_LLM_MAX_TOTAL_BYTES: u64 = 1048576;
pub const COMPACT_LLM_MAX_TURNS: usize = 8;
pub const COMPACT_LLM_DEADLINE_SECS: u64 = 120;
/// Output cap of one compact completion.
pub const L2_MAX_TOKENS: u64 = 2048;
pub const HISTORY_SUMMARY_ZH: &'static str = "历史摘要：";
pub const HISTORY_SUMMARY_EN: &'static str = "History summary:";

/// Opt-in compact-llm settings.
pub struct CompactLlmConfig {
    pub enabled: bool,
    pub model_id: String,
    pub compact_prompt: String,
    pub max_turns: usize,
    pub max_input_bytes: usize,
    pub max_output_tokens: u64,
    /// Deadline of one branch run, in seconds.
    pub deadline_secs: u64,
    pub max_file_bytes: u64,
    pub max_file_count: usize,
    pub max_total_bytes: u64,
}

/// The limits every configuration starts from.
pub open spec fn default_limits(c: CompactLlmConfig) -> bool {
    &&& c.max_turns == COMPACT_LLM_MAX_TURNS
    &&& c.max_input_bytes == COMPACT_LLM_MAX_INPUT_BYTES
    &&& c.max_output_tokens == L2_MAX_TOKENS
    &&& c.deadline_secs == COMPACT_LLM_DEADLINE_SECS
    &&& c.max_file_bytes == COMPACT_LLM_MAX_FILE_BYTES
    &&& c.max_file_count == COMPACT_LLM_MAX_FILE_COUNT
    &&& c.max_total_bytes == COMPACT_LLM_MAX_TOTAL_BYTES
}

impl CompactLlmConfig {
    pub fn disabled() -> (r: Self)
        ensures
            !r.enabled,
            r.model_id@.len() == 0,
            r.compact_prompt@.len() == 0,
            default_limits(r),
    {
        CompactLlmConfig {
            enabled: false,
            model_id: String::new(),
            compact_prompt: String::new(),
            max_turns: COMPACT_LLM_MAX_TURNS,
            max_input_bytes: COMPACT_LLM_MAX_INPUT_BYTES,
            max_output_tokens: L2_MAX_TOKENS,
            deadline_secs: COMPACT_LLM_DEADLINE_SECS,
            max_file_bytes: COMPACT_LLM_MAX_FILE_BYTES,
            max_file_count: COMPACT_LLM_MAX_FILE_COUNT,
            max_total_bytes: COMPACT_LLM_MAX_TOTAL_BYTES,
        }
    }

    pub fn enabled(model_id: String, compact_prompt: String) -> (r: Self)
        ensures
            r.enabled,
            r.model_id == model_id,
            r.compact_prompt == compact_prompt,
            default_limits(r),
    {
        let d = Self::disabled();
        CompactLlmConfig { enabled: true, model_id, compact_prompt, ..d }
    }

    pub fn fingerprint(&self) -> (r: String)
        ensures
            r@ == fingerprint_spec(self.model_id@, self.compact_prompt@),
    {
        fingerprint(self.model_id.as_str(), self.compact_prompt.as_str())
    }
}

#[derive(Debug)]
pub enum CompactLlmError {
    Cancelled,
    Sandbox(String),
    Checkpoint(String),
    Branch(String),
    Budget(String),
    Other(String),
}

pub enum LlmFailure {
    Cancelled,
    Sandbox(Seq<char>),
    Checkpoint(Seq<char>),
    Branch(Seq<char>),
    Budget(Seq<char>),
    Other(Seq<char>),
}

impl View for CompactLlmError {
    type V = LlmFailure;

    open spec fn view(&self) -> LlmFailure {
        match self {
            CompactLlmError::Cancelled => LlmFailure::Cancelled,
            CompactLlmError::Sandbox(m) => LlmFailure::Sandbox(m@),
            CompactLlmError::Checkpoint(m) => LlmFailure::Checkpoint(m@),
            CompactLlmError::Branch(m) => LlmFailure::Branch(m@),
            CompactLlmError::Budget(m) => LlmFailure::Budget(m@),
            CompactLlmError::Other(m) => LlmFailure::Other(m@),
        }
    }
}

impl CompactLlmError {
    pub fn sandbox(msg: String) -> (r: Self)
        ensures
            r@ == LlmFailure::Sandbox(msg@),
    {
        CompactLlmError::Sandbox(msg)
    }

    pub fn checkpoint(msg: String) -> (r: Self)
        ensures
            r@ == LlmFailure::Checkpoint(msg@),
    {
        CompactLlmError::Checkpoint(msg)
    }

    pub fn branch(msg: String) -> (r: Self)
        ensures
            r@ == LlmFailure::Branch(msg@),
    {
        CompactLlmError::Branch(msg)
    }

    pub open spec fn message_spec(self) -> Seq<char> {
        match self@ {
            LlmFailure::Cancelled => "cancelled"@,
            LlmFailure::Sandbox(m) => "sandbox: "@ + m,
            LlmFailure::Checkpoint(m) => "checkpoint: "@ + m,
            LlmFailure::Branch(m) => "branch: "@ + m,
            LlmFailure::Budget(m) => "context_budget_exceeded: "@ + m,
            LlmFailure::Other(m) => m,
        }
    }

    /// Text of the error.
    pub fn message(&self) -> (r: String)
        ensures
            r@ == self.message_spec(),
    {
        let mut s = String::new();
        match self {
            CompactLlmError::Cancelled => push_str(&mut s, "cancelled"),
            CompactLlmError::Sandbox(m) => {
                push_str(&mut s, "sandbox: ");
                push_str(&mut s, m.as_str());
            },
            CompactLlmError::Checkpoint(m) => {
                push_str(&mut s, "checkpoint: ");
                push_str(&mut s, m.as_str());
            },
            CompactLlmError::Branch(m) => {
                push_str(&mut s, "branch: ");
                push_str(&mut s, m.as_str());
            },
            CompactLlmError::Budget(m) => {
                push_str(&mut s, "context_budget_exceeded: ");
                push_str(&mut s, m.as_str());
            },
            CompactLlmError::Other(m) => push_str(&mut s, m.as_str()),
        }
        proof {
            reveal_strlit("");
        }
        s
    }
}

/// What `sha2::Sha256::digest` yields for `bytes`.
pub uninterp spec fn sha256_digest_spec(bytes: Seq<u8>) -> Seq<u8>;

/// `sha2::Sha256::digest(bytes)` as a byte vector: the digest named
/// [`sha256_digest_spec`], 32 bytes long (the SHA-256 output size).
#[verifier::external_body]
pub(crate) fn sha256_digest(bytes: &[u8]) -> (r: Vec<u8>)
    ensures
        r@ == sha256_digest_spec(bytes@),
        r@.len() == 32,
{
    Sha256::digest(bytes).to_vec()
}

pub open spec fn hex_digit(d: u8) -> char {
    if d < 10 {
        (48 + d) as char
    } else {
        (87 + d) as char
    }
}

/// Two lowercase hex digits per byte, as `{:02x}` prints each.
pub open spec fn lower_hex(bytes: Seq<u8>) -> Seq<char>
    decreases bytes.len(),
{
    if bytes.len() == 0 {
        Seq::empty()
    } else {
        lower_hex(bytes.drop_last()) + seq![hex_digit(bytes.last() / 16), hex_digit(bytes.last() % 16)]
    }
}

/// Lowercase hex of the SHA-256 digest of `bytes`.
pub open spec fn sha256_hex_spec(bytes: Seq<u8>) -> Seq<char> {
    lower_hex(sha256_digest_spec(bytes))
}

/// Lowercase hex of `bytes[..n]`.
pub fn hex_prefix(bytes: &Vec<u8>, n: usize) -> (r: String)
    requires
        n <= bytes.len(),
    ensures
        r@ == lower_hex(bytes@.take(n as int)),
{
    let mut s = String::new();
    let mut i: usize = 0;
    assert(bytes@.take(0) =~= Seq::<u8>::empty());
    while i < n
        invariant
            i <= n <= bytes.len(),
            s@ == lower_hex(bytes@.take(i as int)),
        decreases n - i,
    {
        let b = bytes[i];
        let hi = b / 16;
        let lo = b % 16;
        let ch = if hi < 10 { (48 + hi) as char } else { (87 + hi) as char };
        let cl = if lo < 10 { (48 + lo) as char } else { (87 + lo) as char };
        crate::text::push_char(&mut s, ch);
        crate::text::push_char(&mut s, cl);
        assert(bytes@.take(i + 1).drop_last() =~= bytes@.take(i as int));
        assert(bytes@.take(i + 1).last() == b);
        i += 1;
    }
    s
}

/// `format!("{:x}", Sha256::digest(bytes))`: the digest in lowercase hex.
pub fn sha256_hex(bytes: &[u8]) -> (r: String)
    ensures
        r@ == sha256_hex_spec(bytes@),
{
    let d = sha256_digest(bytes);
    let r = hex_prefix(&d, d.len());
    assert(d@.take(d.len() as int) =~= d@);
    r
}

/// Items joined with commas.
pub open spec fn comma_joined(items: Seq<Seq<u8>>) -> Seq<u8>
    decreases items.len(),
{
    if items.len() == 0 {
        Seq::empty()
    } else if items.len() == 1 {
        items[0]
    } else {
        comma_joined(items.drop_last()) + seq![44u8] + items.last()
    }
}

/// A JSON array written compactly from the encodings of its items:
/// `[`, the items joined with `,`, then `]`.
pub open spec fn json_array_bytes(items: Seq<Seq<u8>>) -> Seq<u8> {
    seq![91u8] + comma_joined(items) + seq![93u8]
}

/// The compact JSON array of items `lo..hi`, each given by its own
/// compact JSON encoding.
pub fn json_array_of(items: &Vec<Vec<u8>>, lo: usize, hi: usize) -> (r: Vec<u8>)
    requires
        lo <= hi <= items.len(),
    ensures
        r@ == json_array_bytes(items@.subrange(lo as int, hi as int).map_values(|b: Vec<u8>| b@)),
{
    let ghost view = items@.map_values(|b: Vec<u8>| b@);
    let mut out: Vec<u8> = Vec::new();
    out.push(91u8);
    let mut k = lo;
    while k < hi
        invariant
            lo <= k <= hi <= items.len(),
            view == items@.map_values(|b: Vec<u8>| b@),
            out@ == seq![91u8] + comma_joined(view.subrange(lo as int, k as int)),
        decreases hi - k,
    {
        let ghost before = out@;
        if k > lo {
            out.push(44u8);
        }
        let ghost mid = out@;
        out.extend_from_slice(items[k].as_slice());
        proof {
            assert(out@ =~= mid + view[k as int]);
            let sub = view.subrange(lo as int, k + 1);
            assert(sub.drop_last() =~= view.subrange(lo as int, k as int));
            assert(sub.last() == view[k as int]);
            if k == lo {
                assert(comma_joined(view.subrange(lo as int, k as int)) =~= Seq::<u8>::empty());
                assert(comma_joined(sub) == sub[0]);
            }
        }
        k = k + 1;
    }
    out.push(93u8);
    proof {
        assert(view.subrange(lo as int, hi as int) =~= items@.subrange(lo as int, hi as int).map_values(
            |b: Vec<u8>| b@,
        ));
    }
    out
}

/// The SHA-256 (lowercase hex) of the compact JSON array of items `lo..hi`.
pub open spec fn slice_sha256_spec(items: Seq<Seq<u8>>) -> Seq<char> {
    sha256_hex_spec(json_array_bytes(items))
}

/// `source_slice_sha256` over messages given by their compact JSON
/// encodings: the hash of the JSON array of items `lo..hi`.
pub fn source_slice_sha256(items: &Vec<Vec<u8>>, lo: usize, hi: usize) -> (r: String)
    requires
        lo <= hi <= items.len(),
    ensures
        r@ == slice_sha256_spec(items@.subrange(lo as int, hi as int).map_values(|b: Vec<u8>| b@)),
{
    let bytes = json_array_of(items, lo, hi);
    sha256_hex(bytes.as_slice())
}

/// `{model}|{sha256 of the compact prompt}|heuristic|{format version}`.
pub open spec fn fingerprint_spec(model_id: Seq<char>, prompt: Seq<char>) -> Seq<char> {
    model_id + "|"@ + sha256_hex_spec(vstd::utf8::encode_utf8(prompt)) + "|heuristic|"@ + decimal_seq(
        COMPACT_LLM_FORMAT_VERSION as nat,
    )
}

pub fn fingerprint(model_id: &str, compact_prompt: &str) -> (r: String)
    ensures
        r@ == fingerprint_spec(model_id@, compact_prompt@),
{
    let mut s = model_id.to_owned();
    push_str(&mut s, "|");
    let digest = sha256_hex(compact_prompt.as_bytes());
    push_str(&mut s, digest.as_str());
    push_str(&mut s, "|heuristic|");
    push_decimal(&mut s, COMPACT_LLM_FORMAT_VERSION as u64);
    s
}

/// Trimmed text that already opens with a history-summary marker.
pub open spec fn has_summary_marker(t: Seq<char>) -> bool {
    has_prefix(t, HISTORY_SUMMARY_ZH@) || has_prefix(t, "历史摘要:"@) || has_prefix(
        t,
        "Conversation summary"@,
    ) || has_prefix(lower_seq(t), "history summary:"@)
}

/// The summary trimmed, with the Chinese history-summary marker in front
/// unless it already carries a marker; empty for a blank summary.
pub open spec fn annotate_spec(summary: Seq<char>) -> Seq<char> {
    let t = trim_seq(summary);
    if t.len() == 0 {
        Seq::empty()
    } else if has_summary_marker(t) {
        t
    } else {
        HISTORY_SUMMARY_ZH@ + t
    }
}

fn marker_present(t: &Vec<char>) -> (r: bool)
    ensures
        r == has_summary_marker(t@),
{
    starts_with_lit(t, HISTORY_SUMMARY_ZH) || starts_with_lit(t, "历史摘要:") || starts_with_lit(
        t,
        "Conversation summary",
    ) || starts_with_lit(&to_ascii_lowercase(t), "history summary:")
}

/// Prefix a summary with the fixed history-summary marker when missing.
pub fn annotate_history_summary(summary: &str) -> (r: String)
    ensures
        r@ == annotate_spec(summary@),
{
    let t = crate::text::trim_vec(&chars_of(summary));
    if t.len() == 0 {
        return String::new();
    }
    let ts = crate::text::string_from_chars(&t);
    if marker_present(&t) {
        ts
    } else {
        let mut s = HISTORY_SUMMARY_ZH.to_owned();
        push_str(&mut s, ts.as_str());
        s
    }
}

/// Whether display text is a history summary: any of the markers, with or
/// without a colon, after trimming.
pub open spec fn is_history_summary_spec(text: Seq<char>) -> bool {
    let t = trim_seq(text);
    t.len() > 0 && (has_prefix(t, "历史摘要："@) || has_prefix(t, "历史摘要:"@) || has_prefix(
        t,
        "Conversation summary:"@,
    ) || has_prefix(t, "Conversation summary"@) || has_prefix(lower_seq(t), "history summary:"@)
        || has_prefix(lower_seq(t), "history summary"@))
}

pub fn is_history_summary(text: &str) -> (r: bool)
    ensures
        r == is_history_summary_spec(text@),
{
    let t = crate::text::trim_vec(&chars_of(text));
    if t.len() == 0 {
        return false;
    }
    let lower = to_ascii_lowercase(&t);
    starts_with_lit(&t, "历史摘要：") || starts_with_lit(&t, "历史摘要:") || starts_with_lit(
        &t,
        "Conversation summary:",
    ) || starts_with_lit(&t, "Conversation summary") || starts_with_lit(&lower, "history summary:")
        || starts_with_lit(&lower, "history summary")
}


/// Annotating a summary twice gives what annotating it once gives: the marker
/// is never doubled.
pub proof fn annotate_is_idempotent(summary: Seq<char>)
    ensures
        annotate_spec(annotate_spec(summary)) == annotate_spec(summary),
{
    let t = trim_seq(summary);
    crate::text::lemma_trim_ends(summary);
    if t.len() == 0 {
        crate::text::lemma_trim_fixed(Seq::<char>::empty());
    } else if has_summary_marker(t) {
    } else {
        reveal_strlit("历史摘要：");
        let a = HISTORY_SUMMARY_ZH@ + t;
        assert(a[0] == '历');
        assert(a.last() == t.last());
        crate::text::lemma_trim_fixed(a);
        assert(a.take(HISTORY_SUMMARY_ZH@.len() as int) =~= HISTORY_SUMMARY_ZH@);
        assert(has_summary_marker(a));
    }
}


/// A chat message as the summary check reads it: whether the user sent it,
/// and the text of its text parts in order.
pub struct MessageText {
    pub from_user: bool,
    pub texts: Vec<String>,
}

/// The text parts of a message, concatenated.
pub open spec fn joined_texts(ts: Seq<String>) -> Seq<char>
    decreases ts.len(),
{
    if ts.len() == 0 {
        Seq::empty()
    } else {
        joined_texts(ts.drop_last()) + ts.last()@
    }
}

/// Text that, trimmed, is not blank and opens with a history-summary marker.
pub open spec fn is_summary_text(text: Seq<char>) -> bool {
    let t = trim_seq(text);
    t.len() > 0 && has_summary_marker(t)
}

/// Whether a message is a user message whose text is a history summary.
pub fn is_history_summary_message(message: &MessageText) -> (r: bool)
    ensures
        r == (message.from_user && is_summary_text(joined_texts(message.texts@))),
{
    if !message.from_user {
        return false;
    }
    let mut text = String::new();
    let mut i: usize = 0;
    while i < message.texts.len()
        invariant
            i <= message.texts.len(),
            text@ == joined_texts(message.texts@.take(i as int)),
        decreases message.texts.len() - i,
    {
        push_str(&mut text, message.texts[i].as_str());
        proof {
            assert(message.texts@.take(i + 1).drop_last() =~= message.texts@.take(i as int));
        }
        i = i + 1;
    }
    proof {
        assert(message.texts@.take(i as int) =~= message.texts@);
    }
    let t = crate::text::trim_vec(&chars_of(text.as_str()));
    t.len() > 0 && marker_present(&t)
}

/// A summary that is not blank, once annotated, is recognised as a history
/// summary.
pub proof fn lemma_annotated_summary_is_recognized(summary: Seq<char>)
    requires
        trim_seq(summary).len() > 0,
    ensures
        is_summary_text(annotate_spec(summary)),
{
    let t = trim_seq(summary);
    crate::text::lemma_trim_ends(summary);
    if has_summary_marker(t) {
    } else {
        reveal_strlit("历史摘要：");
        let a = HISTORY_SUMMARY_ZH@ + t;
        assert(a[0] == '历');
        assert(a.last() == t.last());
        crate::text::lemma_trim_fixed(a);
        assert(a.take(HISTORY_SUMMARY_ZH@.len() as int) =~= HISTORY_SUMMARY_ZH@);
        assert(has_summary_marker(a));
    }
}

/// Whether a compact-llm checkpoint is still being written or is in use.
#[derive(Debug, Clone, Copy, PartialEq, Eq, Structural)]
pub enum CompactLlmCheckpointStatus {
    Pending,
    Committed,
}

} // verus!
