//! Where a session's transcript lives: the group directory name derived from
//! the working directory, and the error a failed load reports.

use vstd::prelude::*;
use vstd::string::StringSliceAdditionalSpecFns;

use crate::context::compact_llm::{hex_prefix, lower_hex, sha256_digest, sha256_digest_spec};
use crate::path_text::{file_name, file_name_spec};
use crate::context::store::{
    commit_turn, copy_fact, empty_record, fact_meta, fact_view, finalize_view, part_views, AssistantPart,
    AssistantRecord, ContextStore, ExecutionFact, FactView, PartView, RecordView, TurnView,
};
use crate::context::transcript::{
    call_id_view, copy_compact, extract_native_meta, extract_spec, ostr, tool_call_id_of,
    CompactView, ModelCommit, NativeMeta, NativeMetaError, NativeMetaView, OutputLocator,
    ToolPhase,
};
use crate::json::{jview, jview_items, lemma_jview_items, vget, vget_str, JsonValue, JsonView};
use crate::text::{
    chars_of, decimal_seq, push_char, push_decimal, push_str, str_eq, string_from_chars, trim_seq,
    trim_vec,
};

verus! {

/// Longest group directory name kept as percent-encoded text.
pub const MAX_ENCODED_CWD_LEN: usize = 255;

#[derive(Debug)]
pub enum HydrateError {
    LoadFailed { session_id: String, message: String, code: &'static str },
}

impl HydrateError {
    pub fn failed(session_id: String, code: &'static str, message: String) -> (r: Self)
        ensures
            r matches HydrateError::LoadFailed { session_id: s, message: m, code: c } && s == session_id
                && m == message && c == code,
    {
        HydrateError::LoadFailed { session_id, message, code }
    }

    /// Text of the error: its message.
    pub fn message(&self) -> (r: &str)
        ensures
            match self {
                HydrateError::LoadFailed { message, .. } => r@ == message@,
            },
    {
        match self {
            HydrateError::LoadFailed { message, .. } => message.as_str(),
        }
    }
}

pub open spec fn unreserved_byte(b: u8) -> bool {
    (48 <= b <= 57) || (65 <= b <= 90) || (97 <= b <= 122) || b == 45 || b == 46 || b == 95 || b
        == 126
}

pub open spec fn upper_hex_digit(d: u8) -> char {
    if d < 10 {
        (48 + d) as char
    } else {
        (55 + d) as char
    }
}

/// `urlencoding::encode`: every byte of the UTF-8 text kept when it is an
/// ASCII letter, digit, `-`, `.`, `_` or `~`, and written `%XX` (uppercase
/// hex) otherwise.
pub open spec fn url_encode_spec(bytes: Seq<u8>) -> Seq<char>
    decreases bytes.len(),
{
    if bytes.len() == 0 {
        Seq::empty()
    } else {
        let b = bytes.last();
        url_encode_spec(bytes.drop_last()) + if unreserved_byte(b) {
            seq![b as char]
        } else {
            seq!['%', upper_hex_digit(b / 16), upper_hex_digit(b % 16)]
        }
    }
}

/// `urlencoding::encode(s).into_owned()`, which percent-encodes every byte
/// but the unreserved ones; see [`url_encode_spec`].
#[verifier::external_body]
fn url_encode(s: &str) -> (r: String)
    ensures
        r@ == url_encode_spec(s.spec_bytes()),
{
    urlencoding::encode(s).into_owned()
}

pub open spec fn slash_for_backslash(c: char) -> char {
    if c == '\\' {
        '/'
    } else {
        c
    }
}

pub open spec fn all_slashes(s: Seq<char>) -> bool {
    forall|i: int| 0 <= i < s.len() ==> #[trigger] s[i] == '/'
}

/// Trailing `/` removed.
pub open spec fn trim_trailing_slashes(s: Seq<char>) -> Seq<char>
    decreases s.len(),
{
    if s.len() > 0 && s.last() == '/' {
        trim_trailing_slashes(s.drop_last())
    } else {
        s
    }
}

/// The working directory trimmed, with `/` for `\`: empty stays empty, only
/// slashes become `/`, and trailing slashes are dropped otherwise.
pub open spec fn normalize_cwd_spec(cwd: Seq<char>) -> Seq<char> {
    let s = trim_seq(cwd).map_values(|c: char| slash_for_backslash(c));
    if s.len() == 0 {
        Seq::empty()
    } else if all_slashes(s) {
        "/"@
    } else {
        trim_trailing_slashes(s)
    }
}

pub fn normalize_session_cwd(cwd: &str) -> (r: String)
    ensures
        r@ == normalize_cwd_spec(cwd@),
{
    let t = trim_vec(&chars_of(cwd));
    let mut v: Vec<char> = Vec::new();
    let mut i: usize = 0;
    while i < t.len()
        invariant
            i <= t.len(),
            v@ == t@.take(i as int).map_values(|c: char| slash_for_backslash(c)),
        decreases t.len() - i,
    {
        v.push(if t[i] == '\\' { '/' } else { t[i] });
        assert(t@.take(i + 1).map_values(|c: char| slash_for_backslash(c)) =~= t@.take(
            i as int,
        ).map_values(|c: char| slash_for_backslash(c)).push(slash_for_backslash(t@[i as int])));
        i += 1;
    }
    assert(t@.take(t.len() as int) =~= t@);
    proof {
        reveal_strlit("/");
    }
    if v.len() == 0 {
        return String::new();
    }
    let mut all = true;
    let mut k: usize = 0;
    while k < v.len()
        invariant
            k <= v.len(),
            all == forall|j: int| 0 <= j < k ==> #[trigger] v@[j] == '/',
        decreases v.len() - k,
    {
        if v[k] != '/' {
            all = false;
        }
        k += 1;
    }
    if all {
        return "/".to_owned();
    }
    let mut end = v.len();
    assert(v@.take(end as int) =~= v@);
    while end > 0 && v[end - 1] == '/'
        invariant
            end <= v.len(),
            trim_trailing_slashes(v@) == trim_trailing_slashes(v@.take(end as int)),
        decreases end,
    {
        assert(v@.take(end as int).drop_last() =~= v@.take(end - 1));
        end -= 1;
    }
    assert(trim_trailing_slashes(v@.take(end as int)) == v@.take(end as int));
    crate::text::string_from_range(&v, 0, end)
}

pub open spec fn slug_char(c: char) -> bool {
    ('a' <= c <= 'z') || ('A' <= c <= 'Z') || ('0' <= c <= '9') || c == '-' || c == '_'
}

/// The slug characters of `s`, in order.
pub open spec fn slug_chars(s: Seq<char>) -> Seq<char>
    decreases s.len(),
{
    if s.len() == 0 {
        Seq::empty()
    } else if slug_char(s.last()) {
        slug_chars(s.drop_last()).push(s.last())
    } else {
        slug_chars(s.drop_last())
    }
}

/// `<slug>-<12 hex digits>`: the slug is the file name's letters, digits,
/// `-` and `_` (at most 32, `cwd` when none), the digits are the first six
/// bytes of the SHA-256 of the normalized directory.
pub open spec fn hashed_cwd_spec(normalized: Seq<char>) -> Seq<char> {
    let name = match file_name_spec(normalized) {
        Some(n) => n,
        None => "cwd"@,
    };
    let all = slug_chars(name);
    let slug = if all.len() <= 32 {
        all
    } else {
        all.take(32)
    };
    let slug = if slug.len() == 0 {
        "cwd"@
    } else {
        slug
    };
    slug + "-"@ + lower_hex(sha256_digest_spec(vstd::utf8::encode_utf8(normalized)).take(6))
}

pub fn hashed_session_cwd(normalized: &str) -> (r: String)
    ensures
        r@ == hashed_cwd_spec(normalized@),
{
    let digest = sha256_digest(normalized.as_bytes());
    let hash = hex_prefix(&digest, 6);
    let name = match file_name(&chars_of(normalized)) {
        Some(n) => n,
        None => chars_of("cwd"),
    };
    let mut slug: Vec<char> = Vec::new();
    let mut i: usize = 0;
    while i < name.len()
        invariant
            i <= name.len(),
            slug@ == (if slug_chars(name@.take(i as int)).len() <= 32 {
                slug_chars(name@.take(i as int))
            } else {
                slug_chars(name@.take(i as int)).take(32)
            }),
        decreases name.len() - i,
    {
        assert(name@.take(i + 1).drop_last() =~= name@.take(i as int));
        let c = name[i];
        let keep = ('a' <= c && c <= 'z') || ('A' <= c && c <= 'Z') || ('0' <= c && c <= '9')
            || c == '-' || c == '_';
        if keep && slug.len() < 32 {
            slug.push(c);
        }
        proof {
            let a = slug_chars(name@.take(i as int));
            let b = slug_chars(name@.take(i + 1));
            if keep {
                assert(b == a.push(c));
                if a.len() < 32 {
                    assert(slug@ =~= b);
                } else {
                    assert(b.take(32) =~= a.take(32));
                }
            }
        }
        i += 1;
    }
    assert(name@.take(name.len() as int) =~= name@);
    let mut out = if slug.len() == 0 {
        "cwd".to_owned()
    } else {
        string_from_chars(&slug)
    };
    push_str(&mut out, "-");
    push_str(&mut out, hash.as_str());
    out
}

/// Group directory name for a working directory: `_` when it normalizes to
/// nothing, else its percent-encoding when that is at most 255 bytes and does
/// not start with `.`, else [`hashed_cwd_spec`].
pub open spec fn encode_cwd_spec(cwd: Seq<char>) -> Seq<char> {
    let normalized = normalize_cwd_spec(cwd);
    if normalized.len() == 0 {
        "_"@
    } else {
        let encoded = url_encode_spec(vstd::utf8::encode_utf8(normalized));
        if encoded.len() <= MAX_ENCODED_CWD_LEN && !(encoded.len() > 0 && encoded[0] == '.')
            && encoded.len() > 0 {
            encoded
        } else {
            hashed_cwd_spec(normalized)
        }
    }
}

/// Percent-encode a working directory as a single sessions subdirectory name.
pub fn encode_session_cwd(cwd: &str) -> (r: String)
    ensures
        r@ == encode_cwd_spec(cwd@),
{
    let normalized = normalize_session_cwd(cwd);
    let nv = chars_of(normalized.as_str());
    if nv.len() == 0 {
        return "_".to_owned();
    }
    let encoded = url_encode(normalized.as_str());
    let ev = chars_of(encoded.as_str());
    if ev.len() <= MAX_ENCODED_CWD_LEN && !(ev.len() > 0 && ev[0] == '.') && ev.len() > 0 {
        encoded
    } else {
        hashed_session_cwd(normalized.as_str())
    }
}

/// Kind of a transcript line.
#[derive(Debug, Clone, Copy, PartialEq, Eq, Structural)]
pub enum EntryKind {
    Prompt,
    Update,
    TurnEnd,
}

/// One transcript line: when it was written, its kind and its payload.
pub struct TranscriptEntry {
    pub t: u64,
    pub k: EntryKind,
    pub p: JsonValue,
}

/// A transcript line as a value: its kind and payload.
pub open spec fn entry_view(e: TranscriptEntry) -> (EntryKind, JsonView) {
    (e.k, jview(e.p))
}

pub open spec fn entry_views(es: Seq<TranscriptEntry>) -> Seq<(EntryKind, JsonView)> {
    es.map_values(|e: TranscriptEntry| entry_view(e))
}

/// What a load has rebuilt so far: the store's turns, facts and compaction
/// record, the turn in progress, the assistant message being assembled and
/// its pending text, and the number of prompts seen.
pub struct HydState {
    pub turns: Seq<TurnView>,
    pub facts: Map<Seq<char>, FactView>,
    pub compact: Option<CompactView>,
    pub current_turn: Option<Seq<char>>,
    pub open: Option<RecordView>,
    pub open_text: Seq<char>,
    pub prompts: nat,
}

pub open spec fn initial_state() -> HydState {
    HydState {
        turns: Seq::empty(),
        facts: Map::empty(),
        compact: None,
        current_turn: None,
        open: None,
        open_text: Seq::empty(),
        prompts: 0,
    }
}

pub open spec fn record_or_empty(o: Option<RecordView>) -> RecordView {
    match o {
        Some(r) => r,
        None => empty_record(),
    }
}

/// Pending text becomes a text part of the open assistant message.
pub open spec fn flush(s: HydState) -> HydState {
    if s.open_text.len() == 0 {
        s
    } else {
        let rec = record_or_empty(s.open);
        HydState {
            open: Some(RecordView { parts: rec.parts.push(PartView::Text(s.open_text)), ..rec }),
            open_text: Seq::empty(),
            ..s
        }
    }
}

/// The open assistant message is attached to the turn in progress, if both
/// exist; it is closed either way.
pub open spec fn close_message(s: HydState) -> HydState {
    let turns = match (s.current_turn, s.open) {
        (Some(t), Some(a)) => commit_turn(s.turns, t, a),
        _ => s.turns,
    };
    HydState { turns, open: None, ..s }
}

/// Texts of the `text` members of a prompt's content items, in order.
pub open spec fn item_texts(items: Seq<JsonView>) -> Seq<Seq<char>>
    decreases items.len(),
{
    if items.len() == 0 {
        Seq::empty()
    } else {
        let rest = item_texts(items.drop_last());
        match vget_str(items.last(), "text"@) {
            Some(t) => rest.push(t),
            None => rest,
        }
    }
}

/// Texts joined by line breaks.
pub open spec fn join_lines(parts: Seq<Seq<char>>) -> Seq<char>
    decreases parts.len(),
{
    if parts.len() == 0 {
        Seq::empty()
    } else if parts.len() == 1 {
        parts[0]
    } else {
        join_lines(parts.drop_last()) + "\n"@ + parts.last()
    }
}

/// The user's text of a prompt payload: the texts of its items joined by
/// line breaks, or its own `text` member when it is not a list.
pub open spec fn prompt_text_spec(p: JsonView) -> Seq<char> {
    match p {
        JsonView::Array(items) => join_lines(item_texts(items)),
        _ => match vget_str(p, "text"@) {
            Some(t) => t,
            None => Seq::empty(),
        },
    }
}

/// `content.text` of an update.
pub open spec fn chunk_text_spec(p: JsonView) -> Option<Seq<char>> {
    match vget(p, "content"@) {
        Some(c) => vget_str(c, "text"@),
        None => None,
    }
}

pub open spec fn append_chunk(s: HydState, p: JsonView) -> HydState {
    match chunk_text_spec(p) {
        Some(t) => HydState { open_text: s.open_text + t, ..s },
        None => s,
    }
}

/// A new prompt closes the previous turn and opens the next one, numbered
/// `<session_id>:<n>`.
pub open spec fn prompt_step(s: HydState, session_id: Seq<char>, p: JsonView) -> HydState {
    let s1 = close_message(flush(s));
    let n = s1.prompts + 1;
    let turn_id = session_id + ":"@ + decimal_seq(n);
    HydState {
        turns: s1.turns.push(TurnView { turn_id, user_text: prompt_text_spec(p), assistant: None }),
        current_turn: Some(turn_id),
        prompts: n,
        ..s1
    }
}

/// Whether a tool call part with `id` is among `parts`.
pub open spec fn has_call(parts: Seq<PartView>, id: Seq<char>) -> bool {
    exists|i: int|
        0 <= i < parts.len() && (#[trigger] parts[i] matches PartView::ToolCall { id: x, .. } && x
            == id)
}

/// The open message after a call is announced: it takes the record's model
/// message id when there is one, and gains the call unless it has it.
pub open spec fn announce_call(
    open: Option<RecordView>,
    meta: NativeMetaView,
    id: Seq<char>,
    name: Seq<char>,
    raw: JsonView,
) -> RecordView {
    let a0 = record_or_empty(open);
    let a1 = if meta.model_message_id is Some {
        RecordView { model_message_id: meta.model_message_id, ..a0 }
    } else {
        a0
    };
    if has_call(a1.parts, id) {
        a1
    } else {
        RecordView { parts: a1.parts.push(PartView::ToolCall { id, name, args: raw }), ..a1 }
    }
}

/// A call announced but not started.
pub open spec fn pending_view(turn_id: Seq<char>, id: Seq<char>, name: Seq<char>, raw: JsonView) -> FactView {
    FactView {
        tool_call_id: id,
        function_name: name,
        raw_input: raw,
        phase: ToolPhase::Pending,
        outcome: None,
        executed: Some(false),
        model_presentation: None,
        truncated: false,
        output_locator: None,
        reason: None,
        turn_id,
    }
}

/// A fact with what the record says of it: the name always; phase, outcome,
/// executed flag, presentation, reason and locator where the record has
/// them; truncation only ever switched on.
pub open spec fn overlay_fact(base: FactView, meta: NativeMetaView, name: Seq<char>) -> FactView {
    FactView {
        function_name: name,
        phase: match meta.phase {
            Some(p) => p,
            None => base.phase,
        },
        outcome: if meta.outcome is Some {
            meta.outcome
        } else {
            base.outcome
        },
        executed: if meta.executed is Some {
            meta.executed
        } else {
            base.executed
        },
        model_presentation: if meta.model_presentation is Some {
            meta.model_presentation
        } else {
            base.model_presentation
        },
        reason: if meta.reason is Some {
            meta.reason
        } else {
            base.reason
        },
        truncated: if meta.truncated == Some(true) {
            true
        } else {
            base.truncated
        },
        output_locator: if meta.output_locator is Some {
            meta.output_locator
        } else {
            base.output_locator
        },
        ..base
    }
}

/// A tool call or tool call update with its record: the call needs an id
/// (from the record or the payload), a function name (from the record only)
/// and a turn (from the record or the turn in progress). Its input is the
/// record's, else the payload's `rawInput`, else null.
pub open spec fn call_step(s: HydState, p: JsonView, meta: NativeMetaView, announce: bool) -> Result<
    HydState,
    Seq<char>,
> {
    let tid = match meta.tool_call_id {
        Some(t) => Some(t),
        None => call_id_view(p),
    };
    let turn = match meta.turn_id {
        Some(t) => Some(t),
        None => s.current_turn,
    };
    if tid is None {
        Err("tool call missing id"@)
    } else if meta.function_name is None {
        Err("tool call missing function_name; refusing to infer from title"@)
    } else if turn is None {
        Err("tool call is missing a model message boundary"@)
    } else {
        let id = tid->Some_0;
        let name = meta.function_name->Some_0;
        let raw = match meta.raw_input {
            Some(x) => x,
            None => match vget(p, "rawInput"@) {
                Some(x) => x,
                None => JsonView::Null,
            },
        };
        let open = if announce {
            Some(announce_call(s.open, meta, id, name, raw))
        } else {
            s.open
        };
        let base = if s.facts.contains_key(id) {
            s.facts[id]
        } else {
            pending_view(turn->Some_0, id, name, raw)
        };
        Ok(HydState { open, facts: s.facts.insert(id, overlay_fact(base, meta, name)), ..s })
    }
}

/// A model commit marks the open message committed; it keeps a model message
/// id it has, else takes the record's, else the batch id.
pub open spec fn commit_step(s: HydState, meta: NativeMetaView) -> HydState {
    match meta.model_commit {
        Some(c) => {
            let s1 = flush(s);
            let a0 = record_or_empty(s1.open);
            let id = if a0.model_message_id is Some {
                a0.model_message_id
            } else if meta.model_message_id is Some {
                meta.model_message_id
            } else {
                Some(c.batch_id)
            };
            HydState { open: Some(RecordView { committed: true, model_message_id: id, ..a0 }), ..s1 }
        },
        None => s,
    }
}

pub open spec fn compact_step(s: HydState, meta: NativeMetaView) -> HydState {
    match meta.compact {
        Some(c) => HydState { compact: Some(c), ..s },
        None => s,
    }
}

pub open spec fn is_call_kind(kind: Option<Seq<char>>) -> bool {
    kind == Some("tool_call"@) || kind == Some("tool_call_update"@)
}

/// An update that carries a record.
pub open spec fn apply_spec(s: HydState, p: JsonView, meta: NativeMetaView) -> Result<HydState, Seq<char>> {
    let kind = vget_str(p, "sessionUpdate"@);
    let s1 = append_chunk(s, p);
    let r = if is_call_kind(kind) {
        call_step(flush(s1), p, meta, kind == Some("tool_call"@))
    } else {
        Ok(s1)
    };
    match r {
        Err(e) => Err(e),
        Ok(s2) => Ok(compact_step(commit_step(s2, meta), meta)),
    }
}

/// An update line: records that are malformed or of another version fail the
/// load, as does a tool call without a record; other updates without a
/// record only contribute assistant text.
pub open spec fn update_step(s: HydState, p: JsonView) -> Result<HydState, Seq<char>> {
    match extract_spec(p) {
        Err(NativeMetaError::UnsupportedVersion(v)) => Err(
            "unsupported codeg_native metadata version "@ + decimal_seq(v as nat),
        ),
        Err(NativeMetaError::Malformed) => Err("malformed codeg_native metadata"@),
        Ok(None) => {
            let kind = vget_str(p, "sessionUpdate"@);
            if is_call_kind(kind) {
                Err("tool call is missing required codeg_native execution metadata"@)
            } else if kind == Some("agent_message_chunk"@) {
                Ok(append_chunk(s, p))
            } else {
                Ok(s)
            }
        },
        Ok(Some(meta)) => apply_spec(s, p, meta),
    }
}

pub open spec fn step(s: HydState, session_id: Seq<char>, e: (EntryKind, JsonView)) -> Result<
    HydState,
    Seq<char>,
> {
    match e.0 {
        EntryKind::Prompt => Ok(prompt_step(s, session_id, e.1)),
        EntryKind::TurnEnd => Ok(close_message(flush(s))),
        EntryKind::Update => update_step(s, e.1),
    }
}

/// The state after the first `n` lines, or the first failure.
pub open spec fn run_prefix(session_id: Seq<char>, es: Seq<(EntryKind, JsonView)>, n: nat) -> Result<
    HydState,
    Seq<char>,
>
    decreases n,
{
    if n == 0 {
        Ok(initial_state())
    } else {
        match run_prefix(session_id, es, (n - 1) as nat) {
            Err(e) => Err(e),
            Ok(s) => step(s, session_id, es[n - 1]),
        }
    }
}

/// Every fact is stored under its own call id.
pub open spec fn keyed(facts: Map<Seq<char>, FactView>) -> bool {
    forall|k: Seq<char>| #[trigger] facts.contains_key(k) ==> facts[k].tool_call_id == k
}

/// The end of a load: pending text and the open message go to the last turn,
/// and every open fact is closed.
pub open spec fn finish(s: HydState) -> HydState {
    let s1 = close_message(flush(s));
    HydState { facts: s1.facts.map_values(|f: FactView| finalize_view(f)), ..s1 }
}

/// What a transcript loads as: the final state, or the message of the first
/// line that fails.
pub open spec fn hydrate_spec(session_id: Seq<char>, es: Seq<(EntryKind, JsonView)>) -> Result<
    HydState,
    Seq<char>,
> {
    match run_prefix(session_id, es, es.len()) {
        Err(e) => Err(e),
        Ok(s) => Ok(finish(s)),
    }
}

/// A failed load of `session_id`.
pub open spec fn load_failed(r: HydrateError, session_id: Seq<char>, message: Seq<char>) -> bool {
    r matches HydrateError::LoadFailed { session_id: s, message: m, code: c } && s@ == session_id
        && m@ == message && c@ == "session_unavailable"@
}

pub(crate) fn unavailable(session_id: &str, message: &str) -> (r: HydrateError)
    ensures
        load_failed(r, session_id@, message@),
{
    HydrateError::failed(session_id.to_owned(), "session_unavailable", message.to_owned())
}

/// The user's text of a prompt payload; see [`prompt_text_spec`].
pub fn prompt_text(payload: &JsonValue) -> (r: String)
    ensures
        r@ == prompt_text_spec(jview(*payload)),
{
    match payload {
        JsonValue::Array(items) => {
            let ghost iv = jview_items(items@);
            proof {
                lemma_jview_items(items@);
                assert(iv.take(0) =~= Seq::<JsonView>::empty());
                reveal_strlit("");
            }
            let mut out = String::new();
            let mut count: usize = 0;
            let mut i: usize = 0;
            while i < items.len()
                invariant
                    i <= items.len(),
                    iv == jview_items(items@),
                    iv.len() == items.len(),
                    forall|k: int| 0 <= k < items.len() ==> #[trigger] iv[k] == jview(items@[k]),
                    out@ == join_lines(item_texts(iv.take(i as int))),
                    count == item_texts(iv.take(i as int)).len(),
                    count <= i,
                decreases items.len() - i,
            {
                let ghost prev = item_texts(iv.take(i as int));
                assert(iv.take(i + 1).drop_last() =~= iv.take(i as int));
                assert(iv.take(i + 1).last() == iv[i as int]);
                match items[i].get_str("text") {
                    Some(t) => {
                        if count > 0 {
                            push_str(&mut out, "\n");
                        }
                        push_str(&mut out, t.as_str());
                        count = count + 1;
                        proof {
                            let now = prev.push(t@);
                            assert(item_texts(iv.take(i + 1)) == now);
                            assert(now.drop_last() =~= prev);
                            if prev.len() == 0 {
                                assert(now.len() == 1);
                                assert(join_lines(now) == now[0]);
                            }
                        }
                    },
                    None => {},
                }
                i += 1;
            }
            assert(iv.take(items.len() as int) =~= iv);
            out
        },
        _ => match payload.get_str("text") {
            Some(t) => t.clone(),
            None => {
                proof {
                    reveal_strlit("");
                }
                String::new()
            },
        },
    }
}

/// `content.text` of an update.
pub fn chunk_text(payload: &JsonValue) -> (r: Option<String>)
    ensures
        ostr(r) == chunk_text_spec(jview(*payload)),
{
    match payload.get("content") {
        Some(c) => match c.get_str("text") {
            Some(t) => Some(t.clone()),
            None => None,
        },
        None => None,
    }
}

/// A load in progress: the store being rebuilt, the turn in progress, the
/// assistant message being assembled and its pending text.
struct Hydration {
    store: ContextStore,
    current_turn: Option<String>,
    open_assistant: Option<AssistantRecord>,
    open_text: String,
    prompts: u64,
}

fn copy_text(o: &Option<String>) -> (r: Option<String>)
    ensures
        ostr(r) == ostr(*o),
{
    match o {
        Some(s) => Some(s.clone()),
        None => None,
    }
}

fn has_tool_call(parts: &Vec<AssistantPart>, id: &str) -> (r: bool)
    ensures
        r == has_call(part_views(parts@), id@),
{
    let ghost pv = part_views(parts@);
    let mut i: usize = 0;
    while i < parts.len()
        invariant
            i <= parts.len(),
            pv == part_views(parts@),
            pv.len() == parts.len(),
            forall|k: int| 0 <= k < i ==> !(#[trigger] pv[k] matches PartView::ToolCall { id: x, .. }
                && x == id@),
        decreases parts.len() - i,
    {
        match &parts[i] {
            AssistantPart::ToolCall { id: x, .. } => {
                if str_eq(x.as_str(), id) {
                    assert(pv[i as int] matches PartView::ToolCall { id: y, .. } && y == id@);
                    return true;
                }
            },
            AssistantPart::Text(_) => {},
        }
        i += 1;
    }
    false
}

/// A fact with what its record says; see [`overlay_fact`].
fn overlay(fact: ExecutionFact, meta: &NativeMeta, name: String) -> (r: ExecutionFact)
    ensures
        fact_view(r) == overlay_fact(fact_view(fact), meta@, name@),
{
    let mut fact = fact;
    fact.function_name = name;
    match meta.phase {
        Some(ph) => {
            fact.phase = ph;
        },
        None => {},
    }
    if meta.outcome.is_some() {
        fact.outcome = meta.outcome;
    }
    if meta.executed.is_some() {
        fact.executed = meta.executed;
    }
    if meta.model_presentation.is_some() {
        fact.model_presentation = copy_text(&meta.model_presentation);
    }
    match &meta.reason {
        Some(reason) => {
            fact.reason = Some(reason.clone());
        },
        None => {},
    }
    match meta.truncated {
        Some(true) => {
            fact.truncated = true;
        },
        _ => {},
    }
    match &meta.output_locator {
        Some(l) => {
            fact.output_locator = Some(OutputLocator { path: copy_text(&l.path), line: l.line });
        },
        None => {},
    }
    fact
}

impl Hydration {
    spec fn state(&self) -> HydState {
        HydState {
            turns: self.store.turns_view(),
            facts: self.store.facts_view(),
            compact: self.store.compact_view(),
            current_turn: ostr(self.current_turn),
            open: match self.open_assistant {
                Some(a) => Some(a@),
                None => None,
            },
            open_text: self.open_text@,
            prompts: self.prompts as nat,
        }
    }

    fn flush_text(&mut self)
        ensures
            final(self).state() == flush(old(self).state()),
            final(self).store.session_id_spec() == old(self).store.session_id_spec(),
            final(self).prompts == old(self).prompts,
    {
        if self.open_text.as_str().is_empty() {
            return;
        }
        let mut asst = match self.open_assistant.take() {
            Some(a) => a,
            None => AssistantRecord::default(),
        };
        let mut text = String::new();
        std::mem::swap(&mut text, &mut self.open_text);
        let ghost parts = asst.parts@;
        let ghost t = text@;
        let ghost rec = asst@;
        asst.parts.push(AssistantPart::Text(text));
        proof {
            assert(part_views(asst.parts@) =~= part_views(parts).push(PartView::Text(t)));
            assert(asst@ == RecordView { parts: rec.parts.push(PartView::Text(t)), ..rec });
        }
        self.open_assistant = Some(asst);
        proof {
            assert(self.open_text@ =~= Seq::<char>::empty());
        }
    }

    fn close_message(&mut self)
        ensures
            final(self).state() == close_message(old(self).state()),
            final(self).store.session_id_spec() == old(self).store.session_id_spec(),
            final(self).prompts == old(self).prompts,
    {
        let asst = self.open_assistant.take();
        match (&self.current_turn, asst) {
            (Some(t), Some(a)) => self.store.commit_assistant(t.as_str(), a),
            _ => {},
        }
    }

    fn append_chunk(&mut self, payload: &JsonValue)
        ensures
            final(self).state() == append_chunk(old(self).state(), jview(*payload)),
            final(self).store.session_id_spec() == old(self).store.session_id_spec(),
            final(self).prompts == old(self).prompts,
    {
        match chunk_text(payload) {
            Some(t) => push_str(&mut self.open_text, t.as_str()),
            None => {},
        }
    }

    fn prompt(&mut self, payload: &JsonValue)
        requires
            old(self).prompts < u64::MAX,
        ensures
            final(self).state() == prompt_step(
                old(self).state(),
                old(self).store.session_id_spec(),
                jview(*payload),
            ),
            final(self).store.session_id_spec() == old(self).store.session_id_spec(),
            final(self).prompts == old(self).prompts + 1,
    {
        self.flush_text();
        self.close_message();
        self.prompts = self.prompts + 1;
        let turn_id = self.store.turn_id_for_prompt(self.prompts);
        let user_text = prompt_text(payload);
        self.store.append_user(turn_id.clone(), user_text);
        self.current_turn = Some(turn_id);
    }

    /// The open message after a call is announced; see [`announce_call`].
    fn announce(&mut self, meta: &NativeMeta, id: &String, name: &String, raw: &JsonValue)
        ensures
            final(self).state() == (HydState {
                open: Some(announce_call(old(self).state().open, meta@, id@, name@, jview(*raw))),
                ..old(self).state()
            }),
            final(self).store.session_id_spec() == old(self).store.session_id_spec(),
            final(self).prompts == old(self).prompts,
    {
        let mut asst = match self.open_assistant.take() {
            Some(a) => a,
            None => AssistantRecord::default(),
        };
        if meta.model_message_id.is_some() {
            asst.model_message_id = copy_text(&meta.model_message_id);
        }
        if !has_tool_call(&asst.parts, id.as_str()) {
            let ghost parts = asst.parts@;
            let part = AssistantPart::ToolCall { id: id.clone(), name: name.clone(), args: raw.deep_copy() };
            let ghost pv = part@;
            asst.parts.push(part);
            proof {
                assert(part_views(asst.parts@) =~= part_views(parts).push(pv));
            }
        }
        self.open_assistant = Some(asst);
    }

    /// A tool call or its update with its record; see [`call_step`].
    fn record_call(&mut self, payload: &JsonValue, meta: &NativeMeta, announce: bool, session_id: &str) -> (r: Result<(), HydrateError>)
        requires
            keyed(old(self).state().facts),
        ensures
            match call_step(old(self).state(), jview(*payload), meta@, announce) {
                Ok(s) => r is Ok && final(self).state() == s && keyed(final(self).state().facts),
                Err(m) => r matches Err(e) && load_failed(e, session_id@, m),
            },
            final(self).store.session_id_spec() == old(self).store.session_id_spec(),
            final(self).prompts == old(self).prompts,
    {
        let tool_call_id: String = match &meta.tool_call_id {
            Some(t) => t.clone(),
            None => match tool_call_id_of(payload) {
                Some(t) => t.clone(),
                None => return Err(unavailable(session_id, "tool call missing id")),
            },
        };
        let function_name: String = match &meta.function_name {
            Some(n) => n.clone(),
            None => return Err(
                unavailable(session_id, "tool call missing function_name; refusing to infer from title"),
            ),
        };
        let turn_id: String = match &meta.turn_id {
            Some(t) => t.clone(),
            None => match &self.current_turn {
                Some(t) => t.clone(),
                None => return Err(
                    unavailable(session_id, "tool call is missing a model message boundary"),
                ),
            },
        };
        let raw_input: JsonValue = match &meta.raw_input {
            Some(x) => x.deep_copy(),
            None => match payload.get("rawInput") {
                Some(x) => x.deep_copy(),
                None => JsonValue::Null,
            },
        };
        if announce {
            self.announce(meta, &tool_call_id, &function_name, &raw_input);
        }
        let mut fact = match self.store.fact(tool_call_id.as_str()) {
            Some(f) => copy_fact(f),
            None => ExecutionFact::pending(turn_id, tool_call_id.clone(), function_name.clone(), raw_input),
        };
        let fact = overlay(fact, meta, function_name);
        let ghost fv = fact_view(fact);
        self.store.record_fact(fact);
        proof {
            assert(keyed(self.state().facts)) by {
                assert forall|k: Seq<char>| #[trigger] self.state().facts.contains_key(k) implies self.state().facts[k].tool_call_id == k by {
                    if k != tool_call_id@ {
                        assert(old(self).state().facts.contains_key(k));
                    }
                }
            }
        }
        Ok(())
    }

    /// A model commit; see [`commit_step`].
    fn apply_commit(&mut self, commit: &ModelCommit, model_message_id: &Option<String>)
        ensures
            final(self).state() == ({
                let s1 = flush(old(self).state());
                let a0 = record_or_empty(s1.open);
                let id = if a0.model_message_id is Some {
                    a0.model_message_id
                } else if ostr(*model_message_id) is Some {
                    ostr(*model_message_id)
                } else {
                    Some(commit.batch_id@)
                };
                HydState {
                    open: Some(RecordView { committed: true, model_message_id: id, ..a0 }),
                    ..s1
                }
            }),
            final(self).store.session_id_spec() == old(self).store.session_id_spec(),
            final(self).prompts == old(self).prompts,
    {
        self.flush_text();
        let mut asst = match self.open_assistant.take() {
            Some(a) => a,
            None => AssistantRecord::default(),
        };
        asst.committed = true;
        if asst.model_message_id.is_none() {
            asst.model_message_id = match model_message_id {
                Some(m) => Some(m.clone()),
                None => Some(commit.batch_id.clone()),
            };
        }
        self.open_assistant = Some(asst);
    }

    /// An update that carries a record; see [`apply_spec`].
    fn apply_native_update(&mut self, payload: &JsonValue, meta: NativeMeta, session_id: &str) -> (r: Result<(), HydrateError>)
        requires
            keyed(old(self).state().facts),
        ensures
            match apply_spec(old(self).state(), jview(*payload), meta@) {
                Ok(s) => r is Ok && final(self).state() == s && keyed(final(self).state().facts),
                Err(m) => r matches Err(e) && load_failed(e, session_id@, m),
            },
            final(self).store.session_id_spec() == old(self).store.session_id_spec(),
            final(self).prompts == old(self).prompts,
    {
        let kind = payload.get_str("sessionUpdate");
        self.append_chunk(payload);
        let (is_call, announce) = match kind {
            Some(k) => {
                let a = str_eq(k.as_str(), "tool_call");
                (a || str_eq(k.as_str(), "tool_call_update"), a)
            },
            None => (false, false),
        };
        if is_call {
            self.flush_text();
            match self.record_call(payload, &meta, announce, session_id) {
                Ok(()) => {},
                Err(e) => return Err(e),
            }
        }
        match &meta.model_commit {
            Some(c) => self.apply_commit(c, &meta.model_message_id),
            None => {},
        }
        match &meta.compact {
            Some(c) => self.store.set_compact(copy_compact(c)),
            None => {},
        }
        proof {
            assert(keyed(self.state().facts));
        }
        Ok(())
    }
}


/// A fact written as its record and read back as a call that the session
/// has not seen yet is the fact itself, whenever its executed flag is known.
pub proof fn lemma_fact_record_round_trip(s: HydState, p: JsonView, f: FactView, announce: bool)
    requires
        f.executed is Some,
        !s.facts.contains_key(f.tool_call_id),
    ensures
        call_step(s, p, fact_meta(f), announce) matches Ok(t) && t.facts == s.facts.insert(
            f.tool_call_id,
            f,
        ) && t.turns == s.turns,
{
    let meta = fact_meta(f);
    let base = pending_view(f.turn_id, f.tool_call_id, f.function_name, f.raw_input);
    assert(overlay_fact(base, meta, f.function_name) == f);
}

/// After a load every call has an outcome: nothing is left pending or
/// started, so nothing is replayed.
pub proof fn lemma_loaded_facts_have_outcomes(session_id: Seq<char>, es: Seq<(EntryKind, JsonView)>)
    ensures
        hydrate_spec(session_id, es) matches Ok(s) ==> forall|k: Seq<char>|
            #[trigger] s.facts.contains_key(k) ==> s.facts[k].outcome is Some,
{
}

/// Once a load fails it stays failed.
proof fn lemma_run_prefix_err(session_id: Seq<char>, es: Seq<(EntryKind, JsonView)>, n: nat, m: nat)
    requires
        n <= m,
        run_prefix(session_id, es, n) is Err,
    ensures
        run_prefix(session_id, es, m) == run_prefix(session_id, es, n),
    decreases m - n,
{
    if n < m {
        lemma_run_prefix_err(session_id, es, n, (m - 1) as nat);
    }
}

/// Rebuilds a session from its transcript lines; see [`hydrate_spec`]. Tool
/// calls are never replayed: what was not confirmed is closed as unknown or
/// cancelled.
pub fn hydrate_store(session_id: &str, entries: &Vec<TranscriptEntry>) -> (r: Result<ContextStore, HydrateError>)
    ensures
        match hydrate_spec(session_id@, entry_views(entries@)) {
            Ok(s) => r matches Ok(store) && store.session_id_spec() == session_id@
                && store.turns_view() == s.turns && store.facts_view() == s.facts
                && store.compact_view() == s.compact,
            Err(m) => r matches Err(e) && load_failed(e, session_id@, m),
        },
{
    let mut h = Hydration {
        store: ContextStore::new(session_id.to_owned()),
        current_turn: None,
        open_assistant: None,
        open_text: String::new(),
        prompts: 0,
    };
    let ghost es = entry_views(entries@);
    proof {
        reveal_strlit("");
        assert(h.state().turns =~= Seq::<TurnView>::empty());
        assert(h.state().facts =~= Map::<Seq<char>, FactView>::empty());
        assert(h.state() == initial_state());
    }
    let mut i: usize = 0;
    while i < entries.len()
        invariant
            i <= entries.len(),
            es == entry_views(entries@),
            es.len() == entries.len(),
            run_prefix(session_id@, es, i as nat) == Ok::<HydState, Seq<char>>(h.state()),
            h.store.session_id_spec() == session_id@,
            h.prompts <= i,
            keyed(h.state().facts),
        decreases entries.len() - i,
    {
        let e = &entries[i];
        assert(es[i as int] == entry_view(entries@[i as int]));
        match e.k {
            EntryKind::Prompt => {
                h.prompt(&e.p);
            },
            EntryKind::TurnEnd => {
                h.flush_text();
                h.close_message();
            },
            EntryKind::Update => {
                match extract_native_meta(&e.p) {
                    Err(NativeMetaError::UnsupportedVersion(v)) => {
                        let mut m = "unsupported codeg_native metadata version ".to_owned();
                        push_decimal(&mut m, v as u64);
                        proof {
                            lemma_run_prefix_err(session_id@, es, (i + 1) as nat, es.len());
                        }
                        return Err(HydrateError::failed(session_id.to_owned(), "session_unavailable", m));
                    },
                    Err(NativeMetaError::Malformed) => {
                        proof {
                            lemma_run_prefix_err(session_id@, es, (i + 1) as nat, es.len());
                        }
                        return Err(unavailable(session_id, "malformed codeg_native metadata"));
                    },
                    Ok(None) => {
                        let kind = e.p.get_str("sessionUpdate");
                        match kind {
                            Some(k) => {
                                if str_eq(k.as_str(), "tool_call") || str_eq(k.as_str(), "tool_call_update") {
                                    proof {
                                        lemma_run_prefix_err(session_id@, es, (i + 1) as nat, es.len());
                                    }
                                    return Err(
                                        unavailable(
                                            session_id,
                                            "tool call is missing required codeg_native execution metadata",
                                        ),
                                    );
                                }
                                if str_eq(k.as_str(), "agent_message_chunk") {
                                    h.append_chunk(&e.p);
                                }
                            },
                            None => {},
                        }
                    },
                    Ok(Some(meta)) => {
                        match h.apply_native_update(&e.p, meta, session_id) {
                            Ok(()) => {},
                            Err(err) => {
                                proof {
                                    lemma_run_prefix_err(session_id@, es, (i + 1) as nat, es.len());
                                }
                                return Err(err);
                            },
                        }
                    },
                }
            },
        }
        i += 1;
    }
    h.flush_text();
    h.close_message();
    h.store.finalize_open_facts();
    Ok(h.store)
}

} // verus!
