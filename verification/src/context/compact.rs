//! Compaction artifacts: the summary text and the context files it points
//! at.

use vstd::prelude::*;

use crate::text::{
    chars_of, contains_chars, contains_seq, count_while, count_while_rev, decimal_seq, has_prefix,
    is_ws, lemma_count_while, lemma_count_while_facts, lemma_count_while_rev_facts,
    lemma_trim_ends, lower_seq, push_char, trim_start_seq, ws_pred,
    push_decimal, push_str, starts_with_lit, string_from_chars, to_ascii_lowercase, trim_seq,
    trim_vec,
};

verus! {

/// Output cap of one compact completion.
pub const L2_MAX_TOKENS: u64 = 2048;
/// Hard cap on inner dedicated compact completions when eviction is chunked.
pub const COMPACT_MAX_TURNS: usize = 8;

pub struct CompactFile {
    pub path: String,
    pub content: String,
}

pub struct CompactArtifact {
    pub summary: String,
    pub files: Vec<CompactFile>,
}

/// Paths of `files` the summary does not mention, in order.
pub open spec fn missing_paths(summary: Seq<char>, files: Seq<CompactFile>) -> Seq<Seq<char>>
    decreases files.len(),
{
    if files.len() == 0 {
        Seq::empty()
    } else {
        let rest = missing_paths(summary, files.drop_last());
        if contains_seq(summary, files.last().path@) {
            rest
        } else {
            rest.push(files.last().path@)
        }
    }
}

/// `- <path>` lines.
pub open spec fn path_lines(paths: Seq<Seq<char>>) -> Seq<char>
    decreases paths.len(),
{
    if paths.len() == 0 {
        Seq::empty()
    } else {
        path_lines(paths.drop_last()) + "- "@ + paths.last() + "\n"@
    }
}

/// The summary unchanged when it names every file; otherwise a
/// `Context files:` list of the missing paths is appended after a blank line.
pub open spec fn listed_summary(summary: Seq<char>, files: Seq<CompactFile>) -> Seq<char> {
    let missing = missing_paths(summary, files);
    if missing.len() == 0 {
        summary
    } else {
        let s1 = if summary.len() > 0 && summary.last() != '\n' {
            summary.push('\n')
        } else {
            summary
        };
        s1 + "\nContext files:\n"@ + path_lines(missing)
    }
}

pub fn ensure_summary_lists_files(summary: &mut String, files: &Vec<CompactFile>)
    ensures
        final(summary)@ == listed_summary(old(summary)@, files@),
{
    let sv = chars_of(summary.as_str());
    let mut missing: Vec<&String> = Vec::new();
    let mut i: usize = 0;
    while i < files.len()
        invariant
            i <= files.len(),
            sv@ == summary@,
            missing@.map_values(|p: &String| p@) == missing_paths(sv@, files@.take(i as int)),
        decreases files.len() - i,
    {
        assert(files@.take(i + 1).drop_last() =~= files@.take(i as int));
        assert(files@.take(i + 1).last() == files@[i as int]);
        let pv = chars_of(files[i].path.as_str());
        if !contains_chars(&sv, &pv) {
            let ghost before = missing@;
            missing.push(&files[i].path);
            assert(missing@.map_values(|p: &String| p@) =~= before.map_values(|p: &String| p@).push(
                files@[i as int].path@,
            ));
        }
        i += 1;
    }
    assert(files@.take(files.len() as int) =~= files@);
    let ghost mv = missing@.map_values(|p: &String| p@);
    if missing.len() == 0 {
        return;
    }
    if sv.len() > 0 && sv[sv.len() - 1] != '\n' {
        push_char(summary, '\n');
    }
    push_str(summary, "\nContext files:\n");
    let ghost head = summary@;
    let mut j: usize = 0;
    while j < missing.len()
        invariant
            j <= missing.len(),
            mv == missing@.map_values(|p: &String| p@),
            summary@ == head + path_lines(mv.take(j as int)),
        decreases missing.len() - j,
    {
        assert(mv.take(j + 1).drop_last() =~= mv.take(j as int));
        assert(mv.take(j + 1).last() == missing@[j as int]@);
        push_str(summary, "- ");
        push_str(summary, missing[j].as_str());
        push_str(summary, "\n");
        j += 1;
    }
    assert(mv.take(missing.len() as int) =~= mv);
}

/// Already carries a summary heading.
pub open spec fn has_heading(t: Seq<char>) -> bool {
    has_prefix(t, "Conversation summary"@) || has_prefix(t, "历史摘要"@) || has_prefix(
        lower_seq(t),
        "history summary"@,
    )
}

/// The summary with a `Conversation summary:` heading unless its trimmed text
/// already has a heading or is blank; the text itself is kept as given.
pub open spec fn heading_spec(summary: Seq<char>) -> Seq<char> {
    let t = trim_seq(summary);
    if t.len() == 0 || has_heading(t) {
        summary
    } else {
        "Conversation summary:\n"@ + summary
    }
}

pub fn annotate_history_summary(summary: String) -> (r: String)
    ensures
        r@ == heading_spec(summary@),
{
    let t = trim_vec(&chars_of(summary.as_str()));
    if t.len() == 0 {
        return summary;
    }
    let marked = starts_with_lit(&t, "Conversation summary") || starts_with_lit(&t, "历史摘要")
        || starts_with_lit(&to_ascii_lowercase(&t), "history summary");
    if marked {
        summary
    } else {
        let mut s = "Conversation summary:\n".to_owned();
        push_str(&mut s, summary.as_str());
        s
    }
}

/// Trimming text that opens with a non-blank prefix `p`, followed by text
/// that is not blank, keeps `p` at its front.
proof fn lemma_trim_keeps_prefix(p: Seq<char>, s: Seq<char>)
    requires
        p.len() > 0,
        !is_ws(p[0]),
        trim_seq(s).len() > 0,
    ensures
        trim_seq(p + s).len() > p.len(),
        trim_seq(p + s).take(p.len() as int) == p,
{
    let a = p + s;
    lemma_count_while(a, ws_pred(), 0);
    assert(trim_start_seq(a) =~= a);
    let cw = count_while(s, ws_pred()) as int;
    lemma_count_while_facts(s, ws_pred());
    lemma_trim_ends(s);
    let st = trim_start_seq(s);
    lemma_count_while_rev_facts(st, ws_pred());
    assert(cw < s.len()) by {
        if cw >= s.len() {
            assert(st.len() == 0);
        }
    }
    assert(!is_ws(s[cw])) by {
        assert(trim_seq(s)[0] == st[0]);
        assert(st[0] == s[cw]);
    }
    let m = count_while_rev(a, ws_pred()) as int;
    lemma_count_while_rev_facts(a, ws_pred());
    assert(m < s.len()) by {
        if m >= s.len() {
            assert(a[p.len() + cw] == s[cw]);
            assert(ws_pred()(a[p.len() + cw]));
        }
    }
    assert(trim_seq(a) =~= a.take(a.len() - m));
    assert(trim_seq(a).take(p.len() as int) =~= p);
}

/// Annotating a summary twice gives what annotating it once gives: the
/// heading is never stacked. Text that, trimmed, already opens with a
/// heading (`Conversation summary`, `历史摘要`, or `history summary` in any
/// ASCII case) is kept as given, as is blank text; any other text gets the
/// `Conversation summary:` heading line in front of it, unchanged below it.
pub proof fn lemma_heading_is_idempotent(summary: Seq<char>)
    ensures
        heading_spec(heading_spec(summary)) == heading_spec(summary),
        has_prefix(trim_seq(summary), "Conversation summary"@) ==> heading_spec(summary) == summary,
        has_prefix(trim_seq(summary), "历史摘要"@) ==> heading_spec(summary) == summary,
        has_prefix(lower_seq(trim_seq(summary)), "history summary"@) ==> heading_spec(summary)
            == summary,
        trim_seq(summary).len() == 0 ==> heading_spec(summary) == summary,
        heading_spec(summary) == summary || heading_spec(summary) == "Conversation summary:\n"@
            + summary,
        trim_seq(summary).len() > 0 ==> has_prefix(
            trim_seq(heading_spec(summary)),
            "Conversation summary"@,
        ) || has_prefix(trim_seq(heading_spec(summary)), "历史摘要"@) || has_prefix(
            lower_seq(trim_seq(heading_spec(summary))),
            "history summary"@,
        ),
{
    let t = trim_seq(summary);
    if t.len() > 0 && !has_heading(t) {
        let p = "Conversation summary:\n"@;
        reveal_strlit("Conversation summary:\n");
        reveal_strlit("Conversation summary");
        assert(!is_ws(p[0]));
        lemma_trim_keeps_prefix(p, summary);
        let a = p + summary;
        let ta = trim_seq(a);
        assert(ta.take(20) =~= "Conversation summary"@) by {
            assert(ta.take(22) == p);
            assert(ta.take(20) =~= ta.take(22).take(20));
            assert(p.take(20) =~= "Conversation summary"@);
        }
        assert(has_heading(ta));
    }
}

// ----- chunking the evicted messages -----

/// Serialized-message budget per compact completion. Whole messages only.
pub const COMPACT_CHUNK_MAX_BYTES: usize = 65536;

pub open spec fn sat_usize(a: usize, b: usize) -> usize {
    if a + b <= usize::MAX {
        (a + b) as usize
    } else {
        usize::MAX
    }
}

/// Greedy chunking of the first `i` messages, given their serialized sizes:
/// the chunks closed so far, where the open chunk starts, and its bytes. A
/// message that would push a non-empty open chunk over the budget starts a
/// new one.
pub open spec fn chunk_fold(sizes: Seq<usize>, i: int) -> (Seq<(usize, usize)>, usize, usize)
    decreases i,
{
    if i <= 0 {
        (Seq::empty(), 0usize, 0usize)
    } else {
        let (cs, st, b) = chunk_fold(sizes, i - 1);
        let s = sizes[i - 1];
        if i - 1 > st && sat_usize(b, s) > COMPACT_CHUNK_MAX_BYTES {
            (cs.push((st, (i - 1) as usize)), (i - 1) as usize, s)
        } else {
            (cs, st, sat_usize(b, s))
        }
    }
}

/// The chunks of messages `lo..hi` each compact completion gets; a single
/// empty chunk when nothing was evicted.
pub open spec fn chunks_spec(sizes: Seq<usize>) -> Seq<(usize, usize)> {
    if sizes.len() == 0 {
        seq![(0usize, 0usize)]
    } else {
        let (cs, st, _b) = chunk_fold(sizes, sizes.len() as int);
        if st < sizes.len() {
            cs.push((st, sizes.len() as usize))
        } else {
            cs
        }
    }
}

/// Splits evicted messages, given by their serialized sizes, into index
/// ranges for one compact completion each.
pub fn chunk_evicted_messages(sizes: &Vec<usize>) -> (r: Vec<(usize, usize)>)
    ensures
        r@ == chunks_spec(sizes@),
{
    let mut chunks: Vec<(usize, usize)> = Vec::new();
    if sizes.len() == 0 {
        chunks.push((0, 0));
        return chunks;
    }
    let mut start: usize = 0;
    let mut bytes: usize = 0;
    let mut index: usize = 0;
    while index < sizes.len()
        invariant
            index <= sizes.len(),
            chunk_fold(sizes@, index as int) == (chunks@, start, bytes),
        decreases sizes.len() - index,
    {
        let size = sizes[index];
        if index > start && bytes.saturating_add(size) > COMPACT_CHUNK_MAX_BYTES {
            chunks.push((start, index));
            start = index;
            bytes = 0;
        }
        bytes = bytes.saturating_add(size);
        index = index + 1;
    }
    if start < sizes.len() {
        chunks.push((start, sizes.len()));
    }
    chunks
}

/// Bytes of messages `lo..hi`.
pub open spec fn bytes_sum(sizes: Seq<usize>, lo: int, hi: int) -> int
    decreases hi - lo,
{
    if hi <= lo {
        0
    } else {
        bytes_sum(sizes, lo, hi - 1) + sizes[hi - 1]
    }
}

/// Chunks laid end to end over `0..n`, none empty.
pub open spec fn tiles(cs: Seq<(usize, usize)>, n: int) -> bool {
    &&& cs.len() > 0
    &&& cs[0].0 == 0
    &&& cs.last().1 == n
    &&& forall|k: int| 0 <= k < cs.len() ==> #[trigger] cs[k].0 < cs[k].1
    &&& forall|k: int| 0 <= k < cs.len() - 1 ==> #[trigger] cs[k].1 == cs[k + 1].0
}

/// Chunks of two or more messages stay within the byte budget.
pub open spec fn within_budget(sizes: Seq<usize>, cs: Seq<(usize, usize)>) -> bool {
    forall|k: int|
        0 <= k < cs.len() && cs[k].1 - cs[k].0 >= 2 ==> bytes_sum(sizes, #[trigger] cs[k].0 as int, cs[k].1 as int)
            <= COMPACT_CHUNK_MAX_BYTES
}

proof fn lemma_chunk_fold(sizes: Seq<usize>, i: int)
    requires
        1 <= i <= sizes.len(),
        sizes.len() <= usize::MAX,
    ensures
        ({
            let (cs, st, b) = chunk_fold(sizes, i);
            &&& st < i
            &&& (cs.len() == 0 ==> st == 0)
            &&& (cs.len() > 0 ==> tiles(cs, st as int))
            &&& within_budget(sizes, cs)
            &&& (i - st == 1 ==> b == sizes[st as int])
            &&& (i - st >= 2 ==> b == bytes_sum(sizes, st as int, i) && b <= COMPACT_CHUNK_MAX_BYTES)
        }),
    decreases i,
{
    if i == 1 {
        let (cs, st, b) = chunk_fold(sizes, 0);
        assert(cs.len() == 0 && st == 0 && b == 0);
    } else {
        lemma_chunk_fold(sizes, i - 1);
        let (cs, st, b) = chunk_fold(sizes, i - 1);
        let s = sizes[i - 1];
        if i - 1 > st && sat_usize(b, s) > COMPACT_CHUNK_MAX_BYTES {
            let ncs = cs.push((st, (i - 1) as usize));
            assert(ncs.last() == (st, (i - 1) as usize));
            assert forall|k: int| 0 <= k < ncs.len() - 1 implies #[trigger] ncs[k].1 == ncs[k + 1].0 by {
                if k < cs.len() - 1 {
                    assert(ncs[k] == cs[k] && ncs[k + 1] == cs[k + 1]);
                }
            }
            assert forall|k: int| 0 <= k < ncs.len() implies #[trigger] ncs[k].0 < ncs[k].1 by {
                if k < cs.len() {
                    assert(ncs[k] == cs[k]);
                    assert(cs[k].0 < cs[k].1);
                } else {
                    assert(ncs[k] == (st, (i - 1) as usize));
                }
            }
            assert forall|k: int|
                0 <= k < ncs.len() && ncs[k].1 - ncs[k].0 >= 2 implies bytes_sum(
                sizes,
                #[trigger] ncs[k].0 as int,
                ncs[k].1 as int,
            ) <= COMPACT_CHUNK_MAX_BYTES by {
                if k < cs.len() {
                    assert(ncs[k] == cs[k]);
                    assert(bytes_sum(sizes, cs[k].0 as int, cs[k].1 as int) <= COMPACT_CHUNK_MAX_BYTES);
                } else {
                    assert(ncs[k] == (st, (i - 1) as usize));
                }
            }
        } else {
            if i - st >= 2 {
                assert(bytes_sum(sizes, st as int, i) == bytes_sum(sizes, st as int, i - 1) + s);
                if i - 1 - st == 1 {
                    assert(bytes_sum(sizes, st as int, i - 1) == bytes_sum(sizes, st as int, st as int)
                        + sizes[st as int]);
                }
            }
        }
    }
}

/// The chunks tile the evicted messages in order, whole messages only and
/// none empty, and every chunk of two or more messages fits the byte budget
/// (a single message larger than the budget gets a chunk of its own).
pub proof fn lemma_chunks_keep_whole_messages(sizes: Seq<usize>)
    requires
        0 < sizes.len() <= usize::MAX,
    ensures
        tiles(chunks_spec(sizes), sizes.len() as int),
        within_budget(sizes, chunks_spec(sizes)),
{
    let n = sizes.len() as int;
    lemma_chunk_fold(sizes, n);
    let (cs, st, b) = chunk_fold(sizes, n);
    let r = cs.push((st, n as usize));
    assert(chunks_spec(sizes) == r);
    assert forall|k: int| 0 <= k < r.len() - 1 implies #[trigger] r[k].1 == r[k + 1].0 by {
        if k < cs.len() - 1 {
            assert(r[k] == cs[k] && r[k + 1] == cs[k + 1]);
        } else {
            assert(r[k] == cs.last());
        }
    }
    assert forall|k: int| 0 <= k < r.len() implies #[trigger] r[k].0 < r[k].1 by {
        if k < cs.len() {
            assert(r[k] == cs[k]);
            assert(cs[k].0 < cs[k].1);
        } else {
            assert(r[k] == (st, n as usize));
        }
    }
    assert forall|k: int|
        0 <= k < r.len() && r[k].1 - r[k].0 >= 2 implies bytes_sum(
        sizes,
        #[trigger] r[k].0 as int,
        r[k].1 as int,
    ) <= COMPACT_CHUNK_MAX_BYTES by {
        if k < cs.len() {
            assert(r[k] == cs[k]);
            assert(bytes_sum(sizes, cs[k].0 as int, cs[k].1 as int) <= COMPACT_CHUNK_MAX_BYTES);
        } else {
            assert(r[k] == (st, n as usize));
        }
    }
}

/// The chunks for a summary, refused when they need more completions than
/// the cap allows.
pub open spec fn summary_chunks_spec(sizes: Seq<usize>) -> Result<Seq<(usize, usize)>, Seq<char>> {
    let cs = chunks_spec(sizes);
    if cs.len() > COMPACT_MAX_TURNS {
        Err(
            "compact needs "@ + decimal_seq(cs.len()) + " completions; cap is "@ + decimal_seq(
                COMPACT_MAX_TURNS as nat,
            ),
        )
    } else {
        Ok(cs)
    }
}

/// Chunks the evicted messages for summarising and enforces the cap on
/// dedicated completions.
pub fn plan_summary_chunks(sizes: &Vec<usize>) -> (r: Result<Vec<(usize, usize)>, String>)
    ensures
        match (r, summary_chunks_spec(sizes@)) {
            (Ok(a), Ok(b)) => a@ == b,
            (Err(m), Err(t)) => m@ == t,
            _ => false,
        },
{
    let chunks = chunk_evicted_messages(sizes);
    if chunks.len() > COMPACT_MAX_TURNS {
        let mut m = String::new();
        push_str(&mut m, "compact needs ");
        push_decimal(&mut m, chunks.len() as u64);
        push_str(&mut m, " completions; cap is ");
        push_decimal(&mut m, COMPACT_MAX_TURNS as u64);
        proof {
            reveal_strlit("");
        }
        return Err(m);
    }
    Ok(chunks)
}

/// Texts joined with commas.
pub open spec fn comma_joined_text(items: Seq<Seq<char>>) -> Seq<char>
    decreases items.len(),
{
    if items.len() == 0 {
        Seq::empty()
    } else if items.len() == 1 {
        items[0]
    } else {
        comma_joined_text(items.drop_last()) + ","@ + items.last()
    }
}

pub open spec fn string_views(items: Seq<String>) -> Seq<Seq<char>> {
    items.map_values(|s: String| s@)
}

/// The prompt of one compact completion: the previous summary (trimmed, when
/// not blank), then the evicted messages as one compact JSON array.
pub open spec fn prompt_body_spec(evicted: Seq<Seq<char>>, carry_over: Option<Seq<char>>) -> Seq<char> {
    let head = match carry_over {
        Some(c) => if trim_seq(c).len() > 0 {
            "Previous summary:\n"@ + trim_seq(c) + "\n\n"@
        } else {
            Seq::empty()
        },
        None => Seq::empty(),
    };
    head + "Evicted turns:\n"@ + "["@ + comma_joined_text(evicted) + "]"@
}

/// Builds the compact prompt from the evicted messages, each given by its
/// compact JSON text.
pub fn compact_prompt_body(evicted: &Vec<String>, carry_over: Option<&str>) -> (r: String)
    ensures
        r@ == prompt_body_spec(
            string_views(evicted@),
            match carry_over {
                Some(c) => Some(c@),
                None => None,
            },
        ),
{
    let mut body = String::new();
    proof {
        reveal_strlit("");
    }
    if let Some(prev) = carry_over {
        let t = trim_vec(&chars_of(prev));
        if t.len() > 0 {
            push_str(&mut body, "Previous summary:\n");
            let ts = string_from_chars(&t);
            push_str(&mut body, ts.as_str());
            push_str(&mut body, "\n\n");
        }
    }
    push_str(&mut body, "Evicted turns:\n");
    push_str(&mut body, "[");
    let ghost head = body@;
    let ghost view = string_views(evicted@);
    let mut i: usize = 0;
    while i < evicted.len()
        invariant
            i <= evicted.len(),
            view == string_views(evicted@),
            body@ == head + comma_joined_text(view.take(i as int)),
        decreases evicted.len() - i,
    {
        let ghost before = body@;
        if i > 0 {
            push_str(&mut body, ",");
        }
        push_str(&mut body, evicted[i].as_str());
        proof {
            let sub = view.take(i + 1);
            assert(sub.drop_last() =~= view.take(i as int));
            assert(sub.last() == evicted@[i as int]@);
            if i == 0 {
                assert(comma_joined_text(view.take(0)) =~= Seq::<char>::empty());
                assert(before =~= head);
            }
        }
        i = i + 1;
    }
    push_str(&mut body, "]");
    proof {
        assert(view.take(i as int) =~= view);
    }
    body
}

} // verus!
