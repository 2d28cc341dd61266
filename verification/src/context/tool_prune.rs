//! Per-tool distillation of tool results for request projection and compact
//! input. Reads are reloadable, writes collapse to a path+size ack, bash
//! output cannot be replayed.

use vstd::prelude::*;

use crate::context::store::ExecutionFact;
use crate::json::{json_get_str, JsonValue};
use crate::text::{
    chars_of, decimal_seq, eq_lit, find_chars, find_seq, has_prefix, lower_seq, push_decimal,
    push_str, starts_with_lit, str_eq, string_from_chars, subvec, to_ascii_lowercase,
};

verus! {

pub const CLEARED_TOOL_RESULT: &'static str = "[Old tool result content cleared]";
pub const LIVE_READ_KEEP_CHARS: usize = 2000;
pub const LIVE_BASH_KEEP_CHARS: usize = 2000;
pub const LIVE_DEFAULT_KEEP_CHARS: usize = 4000;
pub const LIVE_EXCERPT_CHARS: usize = 800;
pub const SUMMARIZE_KEEP_CHARS: usize = 400;
pub const SUMMARIZE_EXCERPT_CHARS: usize = 400;
pub const SUBAGENT_KEEP_CHARS: usize = 4096;
/// Longest shown prefix of a bash command.
pub const COMMAND_CLIP_CHARS: usize = 120;

#[derive(Debug, Clone, Copy, PartialEq, Eq, Structural)]
pub enum DistillKind {
    /// Protected tail of the live request history.
    Live,
    /// Evicted turns sent to the template or LLM compactor.
    Summarize,
}

/// Tools whose results are never hard-cleared.
pub open spec fn skips_hard_clear(name: Seq<char>) -> bool {
    name == "skill"@ || name == "update_plan"@
}

pub fn tool_skips_hard_clear(name: &str) -> (r: bool)
    ensures
        r == skips_hard_clear(name@),
{
    str_eq(name, "skill") || str_eq(name, "update_plan")
}

pub open spec fn keep_spec(kind: DistillKind, live: usize) -> usize {
    match kind {
        DistillKind::Live => live,
        DistillKind::Summarize => if SUMMARIZE_KEEP_CHARS <= live {
            SUMMARIZE_KEEP_CHARS
        } else {
            live
        },
    }
}

pub fn keep_chars(kind: DistillKind, live: usize) -> (r: usize)
    ensures
        r == keep_spec(kind, live),
{
    match kind {
        DistillKind::Live => live,
        DistillKind::Summarize => if SUMMARIZE_KEEP_CHARS <= live {
            SUMMARIZE_KEEP_CHARS
        } else {
            live
        },
    }
}

pub open spec fn excerpt_spec(kind: DistillKind) -> (usize, usize) {
    match kind {
        DistillKind::Live => (LIVE_EXCERPT_CHARS, LIVE_EXCERPT_CHARS),
        DistillKind::Summarize => (SUMMARIZE_EXCERPT_CHARS, SUMMARIZE_EXCERPT_CHARS),
    }
}

pub fn excerpt_sizes(kind: DistillKind) -> (r: (usize, usize))
    ensures
        r == excerpt_spec(kind),
{
    match kind {
        DistillKind::Live => (LIVE_EXCERPT_CHARS, LIVE_EXCERPT_CHARS),
        DistillKind::Summarize => (SUMMARIZE_EXCERPT_CHARS, SUMMARIZE_EXCERPT_CHARS),
    }
}

/// The first `n` characters (all of them when there are fewer).
pub open spec fn prefix_spec(t: Seq<char>, n: usize) -> Seq<char> {
    if n < t.len() {
        t.take(n as int)
    } else {
        t
    }
}

/// The last `n` characters (all of them when there are fewer).
pub open spec fn suffix_spec(t: Seq<char>, n: usize) -> Seq<char> {
    if t.len() <= n {
        t
    } else {
        t.skip(t.len() - n)
    }
}

pub fn prefix_chars(text: &Vec<char>, n: usize) -> (r: Vec<char>)
    ensures
        r@ == prefix_spec(text@, n),
{
    if n < text.len() {
        subvec(text, 0, n)
    } else {
        let r = subvec(text, 0, text.len());
        assert(r@ =~= text@);
        r
    }
}

pub fn suffix_chars(text: &Vec<char>, n: usize) -> (r: Vec<char>)
    ensures
        r@ == suffix_spec(text@, n),
{
    if text.len() <= n {
        let r = subvec(text, 0, text.len());
        assert(r@ =~= text@);
        r
    } else {
        let r = subvec(text, text.len() - n, text.len());
        assert(r@ =~= text@.skip(text.len() - n));
        r
    }
}

/// Text a tool reports after a write or an edit.
pub open spec fn write_ack_spec(text: Seq<char>) -> bool {
    has_prefix(lower_seq(text), "wrote "@) || has_prefix(lower_seq(text), "updated "@)
}

pub fn looks_like_write_ack(text: &str) -> (r: bool)
    ensures
        r == write_ack_spec(text@),
{
    let lower = to_ascii_lowercase(&chars_of(text));
    starts_with_lit(&lower, "wrote ") || starts_with_lit(&lower, "updated ")
}

/// `head` and `tail` excerpts separated by `...`, after a line break.
pub open spec fn excerpt_text(t: Seq<char>, head: usize, tail: usize) -> Seq<char> {
    "\n"@ + prefix_spec(t, head) + "\n...\n"@ + suffix_spec(t, tail)
}

fn push_excerpt(out: &mut String, t: &Vec<char>, head: usize, tail: usize)
    ensures
        final(out)@ == old(out)@ + excerpt_text(t@, head, tail),
{
    push_str(out, "\n");
    push_str(out, string_from_chars(&prefix_chars(t, head)).as_str());
    push_str(out, "\n...\n");
    push_str(out, string_from_chars(&suffix_chars(t, tail)).as_str());
}

/// Generic distillation: the text when it is short, else a count and a
/// start/end excerpt.
pub open spec fn generic_spec(name: Seq<char>, t: Seq<char>, kind: DistillKind, live: usize) -> Seq<
    char,
> {
    if t.len() <= keep_spec(kind, live) {
        t
    } else {
        name + " completed ("@ + decimal_seq(t.len()) + " chars). Start/end excerpt:"@
            + excerpt_text(t, excerpt_spec(kind).0, excerpt_spec(kind).1)
    }
}

pub fn distill_generic(name: &str, text: &str, kind: DistillKind, live_keep: usize) -> (r: String)
    ensures
        r@ == generic_spec(name@, text@, kind, live_keep),
{
    let t = chars_of(text);
    if t.len() <= keep_chars(kind, live_keep) {
        return text.to_owned();
    }
    let (head, tail) = excerpt_sizes(kind);
    let mut s = name.to_owned();
    push_str(&mut s, " completed (");
    push_decimal(&mut s, t.len() as u64);
    push_str(&mut s, " chars). Start/end excerpt:");
    push_excerpt(&mut s, &t, head, tail);
    s
}

// ----- facts -----

pub open spec fn input_str(fact: Option<ExecutionFact>, key: Seq<char>) -> Option<Seq<char>> {
    match fact {
        Some(f) => json_get_str(f.raw_input, key),
        None => None,
    }
}

pub open spec fn opt_ref(fact: Option<&ExecutionFact>) -> Option<ExecutionFact> {
    match fact {
        Some(f) => Some(*f),
        None => None,
    }
}

fn input_text<'a>(fact: Option<&'a ExecutionFact>, key: &str) -> (r: Option<&'a String>)
    ensures
        match r {
            Some(s) => input_str(opt_ref(fact), key@) == Some(s@),
            None => input_str(opt_ref(fact), key@) is None,
        },
{
    match fact {
        Some(f) => f.raw_input.get_str(key),
        None => None,
    }
}

/// Spill path recorded for the call.
pub open spec fn locator_path(fact: Option<ExecutionFact>) -> Option<Seq<char>> {
    match fact {
        Some(f) => match f.output_locator {
            Some(l) => match l.path {
                Some(p) => Some(p@),
                None => None,
            },
            None => None,
        },
        None => None,
    }
}

/// ` Recall tool_call_id ...` when the output was spilled or truncated.
pub open spec fn recover_hint_spec(fact: Option<ExecutionFact>) -> Seq<char> {
    match fact {
        None => Seq::empty(),
        Some(f) => if locator_path(fact) is Some || f.truncated {
            " Recall tool_call_id `"@ + f.tool_call_id@ + "` for the full output."@
        } else {
            Seq::empty()
        },
    }
}

pub fn recover_hint(fact: Option<&ExecutionFact>) -> (r: String)
    ensures
        r@ == recover_hint_spec(opt_ref(fact)),
{
    proof {
        reveal_strlit("");
    }
    let f = match fact {
        None => return String::new(),
        Some(f) => f,
    };
    let spilled = match &f.output_locator {
        Some(l) => l.path.is_some(),
        None => false,
    };
    if spilled || f.truncated {
        let mut s = " Recall tool_call_id `".to_owned();
        push_str(&mut s, f.tool_call_id.as_str());
        push_str(&mut s, "` for the full output.");
        s
    } else {
        String::new()
    }
}

/// The first line of `rest` as `str::lines` gives it (a `\r` before the
/// line break dropped); `rest` itself when it is empty.
pub open spec fn first_line(rest: Seq<char>) -> Seq<char> {
    let i = crate::text::count_while(rest, crate::text::not_char('\n'));
    if i < rest.len() {
        let l = rest.take(i as int);
        if l.len() > 0 && l.last() == '\r' {
            l.drop_last()
        } else {
            l
        }
    } else {
        rest
    }
}

/// Path a result is about: the spill path or the `path` input, else the
/// `# <path> (lines ...)` header of a read, else `unknown path`.
pub open spec fn tool_path_spec(fact: Option<ExecutionFact>, text: Seq<char>) -> Seq<char> {
    match locator_path(fact) {
        Some(p) => p,
        None => match input_str(fact, "path"@) {
            Some(p) => p,
            None => if has_prefix(text, "# "@) {
                header_path(text)
            } else {
                "unknown path"@
            },
        },
    }
}

fn first_line_of(rest: &Vec<char>) -> (r: Vec<char>)
    ensures
        r@ == first_line(rest@),
{
    let i = crate::text::index_of_char(rest, '\n');
    if i < rest.len() {
        let l = subvec(rest, 0, i);
        if l.len() > 0 && l[l.len() - 1] == '\r' {
            let d = subvec(&l, 0, l.len() - 1);
            assert(d@ =~= l@.drop_last());
            d
        } else {
            l
        }
    } else {
        subvec(rest, 0, rest.len())
    }
}

/// Path named by a `# <path> (lines ...)` header, or the header line.
pub open spec fn header_path(text: Seq<char>) -> Seq<char> {
    let line = first_line(text.skip(2));
    match find_seq(line, " (lines "@) {
        Some(i) => line.take(i),
        None => line,
    }
}

fn header_path_of(t: &Vec<char>) -> (r: String)
    requires
        t.len() >= 2,
    ensures
        r@ == header_path(t@),
{
    let rest = subvec(t, 2, t.len());
    assert(rest@ =~= t@.skip(2));
    let line = first_line_of(&rest);
    let pat = chars_of(" (lines ");
    match find_chars(&line, &pat) {
        Some(i) => {
            proof {
                crate::text::lemma_find_bound(line@, pat@);
            }
            let p = subvec(&line, 0, i);
            string_from_chars(&p)
        },
        None => string_from_chars(&line),
    }
}

pub fn tool_path(fact: Option<&ExecutionFact>, text: &str) -> (r: String)
    ensures
        r@ == tool_path_spec(opt_ref(fact), text@),
{
    if let Some(f) = fact {
        if let Some(l) = &f.output_locator {
            if let Some(p) = &l.path {
                return p.clone();
            }
        }
    }
    if let Some(p) = input_text(fact, "path") {
        return p.clone();
    }
    let t = chars_of(text);
    if starts_with_lit(&t, "# ") {
        proof {
            reveal_strlit("# ");
        }
        header_path_of(&t)
    } else {
        "unknown path".to_owned()
    }
}

/// Characters of the written content, else of the result text.
pub open spec fn written_chars(fact: Option<ExecutionFact>, text: Seq<char>) -> nat {
    match input_str(fact, "content"@) {
        Some(c) => c.len(),
        None => text.len(),
    }
}

pub open spec fn write_notice_spec(fact: Option<ExecutionFact>, text: Seq<char>) -> Seq<char> {
    "Wrote "@ + tool_path_spec(fact, text) + " ("@ + decimal_seq(written_chars(fact, text))
        + " chars)."@
}

pub fn write_notice(fact: Option<&ExecutionFact>, text: &str) -> (r: String)
    ensures
        r@ == write_notice_spec(opt_ref(fact), text@),
{
    let path = tool_path(fact, text);
    let chars: usize = match input_text(fact, "content") {
        Some(c) => chars_of(c.as_str()).len(),
        None => chars_of(text).len(),
    };
    let mut s = "Wrote ".to_owned();
    push_str(&mut s, path.as_str());
    push_str(&mut s, " (");
    push_decimal(&mut s, chars as u64);
    push_str(&mut s, " chars).");
    s
}

// ----- per tool -----

pub open spec fn read_spec(name: Seq<char>, fact: Option<ExecutionFact>, t: Seq<char>, kind: DistillKind) -> Seq<char> {
    if t.len() <= keep_spec(kind, LIVE_READ_KEEP_CHARS) {
        t
    } else {
        let verb = if name == "skill"@ {
            "Loaded skill"@
        } else {
            "Read"@
        };
        verb + " "@ + tool_path_spec(fact, t) + " complete ("@ + decimal_seq(t.len())
            + " chars). Start/end excerpt; re-read the file for full contents:"@ + excerpt_text(
            t,
            excerpt_spec(kind).0,
            excerpt_spec(kind).1,
        )
    }
}

fn distill_read(name: &str, fact: Option<&ExecutionFact>, text: &str, kind: DistillKind) -> (r: String)
    ensures
        r@ == read_spec(name@, opt_ref(fact), text@, kind),
{
    let t = chars_of(text);
    if t.len() <= keep_chars(kind, LIVE_READ_KEEP_CHARS) {
        return text.to_owned();
    }
    let path = tool_path(fact, text);
    let (head, tail) = excerpt_sizes(kind);
    let mut s = if str_eq(name, "skill") {
        "Loaded skill".to_owned()
    } else {
        "Read".to_owned()
    };
    push_str(&mut s, " ");
    push_str(&mut s, path.as_str());
    push_str(&mut s, " complete (");
    push_decimal(&mut s, t.len() as u64);
    push_str(&mut s, " chars). Start/end excerpt; re-read the file for full contents:");
    push_excerpt(&mut s, &t, head, tail);
    s
}

pub open spec fn write_spec(fact: Option<ExecutionFact>, t: Seq<char>) -> Seq<char> {
    if t.len() <= 400 && write_ack_spec(t) {
        t
    } else {
        write_notice_spec(fact, t)
    }
}

fn distill_write(fact: Option<&ExecutionFact>, text: &str) -> (r: String)
    ensures
        r@ == write_spec(opt_ref(fact), text@),
{
    if chars_of(text).len() <= 400 && looks_like_write_ack(text) {
        return text.to_owned();
    }
    write_notice(fact, text)
}

pub open spec fn edit_spec(fact: Option<ExecutionFact>, t: Seq<char>) -> Seq<char> {
    if t.len() <= 400 {
        t
    } else {
        "Updated "@ + tool_path_spec(fact, t) + "."@
    }
}

fn distill_edit(fact: Option<&ExecutionFact>, text: &str) -> (r: String)
    ensures
        r@ == edit_spec(opt_ref(fact), text@),
{
    if chars_of(text).len() <= 400 {
        return text.to_owned();
    }
    let mut s = "Updated ".to_owned();
    push_str(&mut s, tool_path(fact, text).as_str());
    push_str(&mut s, ".");
    s
}

/// Lines of `t` as `str::lines` yields them.
pub open spec fn lines_spec(t: Seq<char>) -> Seq<Seq<char>>
    decreases t.len(),
{
    if t.len() == 0 {
        Seq::empty()
    } else {
        let i = crate::text::count_while(t, crate::text::not_char('\n'));
        if i < t.len() {
            seq![first_line(t)] + lines_spec(t.skip(i + 1 as int))
        } else {
            seq![t]
        }
    }
}

/// First line starting with `exit_code:`.
pub open spec fn exit_line(lines: Seq<Seq<char>>) -> Option<Seq<char>>
    decreases lines.len(),
{
    if lines.len() == 0 {
        None
    } else if has_prefix(lines[0], "exit_code:"@) {
        Some(lines[0])
    } else {
        exit_line(lines.drop_first())
    }
}

/// The bash command, cut to 120 characters with `…` when longer.
pub open spec fn clipped_command(cmd: Seq<char>) -> Seq<char> {
    let c = prefix_spec(cmd, COMMAND_CLIP_CHARS);
    if c.len() < cmd.len() {
        c + "…"@
    } else {
        c
    }
}

pub open spec fn bash_spec(fact: Option<ExecutionFact>, t: Seq<char>, kind: DistillKind) -> Seq<char> {
    if t.len() <= keep_spec(kind, LIVE_BASH_KEEP_CHARS) {
        t
    } else {
        let exit = match exit_line(lines_spec(t)) {
            Some(l) => l,
            None => "bash finished"@,
        };
        let cmd_bit = match input_str(fact, "command"@) {
            Some(c) => " command `"@ + clipped_command(c) + "`"@,
            None => Seq::empty(),
        };
        exit + cmd_bit + " ("@ + decimal_seq(t.len()) + " chars). Start/end excerpt:"@
            + recover_hint_spec(fact) + excerpt_text(t, excerpt_spec(kind).0, excerpt_spec(kind).1)
    }
}

fn find_exit_line(t: &Vec<char>) -> (r: Option<Vec<char>>)
    ensures
        match r {
            Some(l) => exit_line(lines_spec(t@)) == Some(l@),
            None => exit_line(lines_spec(t@)) is None,
        },
{
    let mut rest = subvec(t, 0, t.len());
    assert(rest@ =~= t@);
    loop
        invariant
            exit_line(lines_spec(t@)) == exit_line(lines_spec(rest@)),
        decreases rest.len(),
    {
        if rest.len() == 0 {
            assert(lines_spec(rest@) =~= Seq::<Seq<char>>::empty());
            return None;
        }
        let i = crate::text::index_of_char(&rest, '\n');
        let line = first_line_of(&rest);
        let ghost ls = lines_spec(rest@);
        proof {
            if i < rest.len() {
                assert(ls == seq![first_line(rest@)] + lines_spec(rest@.skip(i + 1 as int)));
                assert(ls[0] == first_line(rest@));
                assert(ls.drop_first() =~= lines_spec(rest@.skip(i + 1 as int)));
            } else {
                assert(ls == seq![rest@]);
                assert(first_line(rest@) == rest@);
                assert(ls.drop_first() =~= Seq::<Seq<char>>::empty());
            }
        }
        if starts_with_lit(&line, "exit_code:") {
            return Some(line);
        }
        if i < rest.len() {
            let next = subvec(&rest, i + 1, rest.len());
            assert(next@ =~= rest@.skip(i + 1 as int));
            rest = next;
        } else {
            assert(exit_line(ls.drop_first()) is None);
            return None;
        }
    }
}

fn distill_bash(fact: Option<&ExecutionFact>, text: &str, kind: DistillKind) -> (r: String)
    ensures
        r@ == bash_spec(opt_ref(fact), text@, kind),
{
    proof {
        reveal_strlit("");
    }
    let t = chars_of(text);
    if t.len() <= keep_chars(kind, LIVE_BASH_KEEP_CHARS) {
        return text.to_owned();
    }
    let (head, tail) = excerpt_sizes(kind);
    let mut s = match find_exit_line(&t) {
        Some(l) => string_from_chars(&l),
        None => "bash finished".to_owned(),
    };
    if let Some(cmd) = input_text(fact, "command") {
        let cv = chars_of(cmd.as_str());
        let clipped = prefix_chars(&cv, COMMAND_CLIP_CHARS);
        push_str(&mut s, " command `");
        push_str(&mut s, string_from_chars(&clipped).as_str());
        if clipped.len() < cv.len() {
            push_str(&mut s, "…");
        }
        push_str(&mut s, "`");
    }
    push_str(&mut s, " (");
    push_decimal(&mut s, t.len() as u64);
    push_str(&mut s, " chars). Start/end excerpt:");
    push_str(&mut s, recover_hint(fact).as_str());
    push_excerpt(&mut s, &t, head, tail);
    s
}

pub open spec fn search_spec(name: Seq<char>, fact: Option<ExecutionFact>, t: Seq<char>, kind: DistillKind) -> Seq<char> {
    if t.len() <= keep_spec(kind, LIVE_DEFAULT_KEEP_CHARS) {
        t
    } else {
        let pattern = match input_str(fact, "pattern"@) {
            Some(p) => p,
            None => name,
        };
        name + " `"@ + pattern + "` completed ("@ + decimal_seq(t.len())
            + " chars). Re-run the search if needed. Start/end excerpt:"@ + excerpt_text(
            t,
            excerpt_spec(kind).0,
            excerpt_spec(kind).1,
        )
    }
}

fn distill_search(name: &str, fact: Option<&ExecutionFact>, text: &str, kind: DistillKind) -> (r: String)
    ensures
        r@ == search_spec(name@, opt_ref(fact), text@, kind),
{
    let t = chars_of(text);
    if t.len() <= keep_chars(kind, LIVE_DEFAULT_KEEP_CHARS) {
        return text.to_owned();
    }
    let (head, tail) = excerpt_sizes(kind);
    let mut s = name.to_owned();
    push_str(&mut s, " `");
    match input_text(fact, "pattern") {
        Some(p) => push_str(&mut s, p.as_str()),
        None => push_str(&mut s, name),
    }
    push_str(&mut s, "` completed (");
    push_decimal(&mut s, t.len() as u64);
    push_str(&mut s, " chars). Re-run the search if needed. Start/end excerpt:");
    push_excerpt(&mut s, &t, head, tail);
    s
}

pub open spec fn is_search_tool(name: Seq<char>) -> bool {
    name == "grep"@ || name == "glob"@ || name == "codegraph"@ || name == "lsp"@
}

/// What the model sees of a tool result.
pub open spec fn distill_spec(name: Seq<char>, fact: Option<ExecutionFact>, t: Seq<char>, kind: DistillKind) -> Seq<char> {
    if name == "read_file"@ || name == "skill"@ {
        read_spec(name, fact, t, kind)
    } else if name == "write_file"@ {
        write_spec(fact, t)
    } else if name == "edit_file"@ {
        edit_spec(fact, t)
    } else if name == "bash"@ {
        bash_spec(fact, t, kind)
    } else if is_search_tool(name) {
        search_spec(name, fact, t, kind)
    } else if name == "subagent"@ {
        generic_spec(name, t, kind, SUBAGENT_KEEP_CHARS)
    } else {
        generic_spec(name, t, kind, LIVE_DEFAULT_KEEP_CHARS)
    }
}

pub fn distill_tool_result(name: &str, fact: Option<&ExecutionFact>, text: &str, kind: DistillKind) -> (r: String)
    ensures
        r@ == distill_spec(name@, opt_ref(fact), text@, kind),
{
    if str_eq(name, "read_file") || str_eq(name, "skill") {
        distill_read(name, fact, text, kind)
    } else if str_eq(name, "write_file") {
        distill_write(fact, text)
    } else if str_eq(name, "edit_file") {
        distill_edit(fact, text)
    } else if str_eq(name, "bash") {
        distill_bash(fact, text, kind)
    } else if str_eq(name, "grep") || str_eq(name, "glob") || str_eq(name, "codegraph") || str_eq(
        name,
        "lsp",
    ) {
        distill_search(name, fact, text, kind)
    } else if str_eq(name, "subagent") {
        distill_generic(name, text, kind, SUBAGENT_KEEP_CHARS)
    } else {
        distill_generic(name, text, kind, LIVE_DEFAULT_KEEP_CHARS)
    }
}

/// What is left of an old tool result once its body is cleared: a one-line
/// note with the path or a way to get the output back.
pub open spec fn hard_clear_spec(name: Seq<char>, fact: Option<ExecutionFact>, t: Seq<char>) -> Seq<char> {
    let chars = decimal_seq(t.len());
    if skips_hard_clear(name) {
        distill_spec(name, fact, t, DistillKind::Summarize)
    } else if name == "read_file"@ {
        "Read "@ + tool_path_spec(fact, t) + " complete ("@ + chars
            + " chars). Full contents omitted; re-read the file if needed."@
    } else if name == "write_file"@ {
        write_notice_spec(fact, t)
    } else if name == "edit_file"@ {
        "Updated "@ + tool_path_spec(fact, t) + "."@
    } else if name == "bash"@ {
        "bash finished ("@ + chars + " chars captured). Output omitted."@ + recover_hint_spec(fact)
    } else if is_search_tool(name) {
        name + " completed ("@ + chars + " chars). Output omitted; re-run the search if needed."@
            + recover_hint_spec(fact)
    } else if name == "subagent"@ {
        "subagent finished ("@ + chars + " chars). Output omitted."@ + recover_hint_spec(fact)
    } else {
        CLEARED_TOOL_RESULT@ + " ("@ + name + ", "@ + chars + " chars)."@ + recover_hint_spec(fact)
    }
}

pub fn hard_clear_tool_result(name: &str, fact: Option<&ExecutionFact>, text: &str) -> (r: String)
    ensures
        r@ == hard_clear_spec(name@, opt_ref(fact), text@),
{
    if tool_skips_hard_clear(name) {
        return distill_tool_result(name, fact, text, DistillKind::Summarize);
    }
    let chars = chars_of(text).len() as u64;
    if str_eq(name, "read_file") {
        let mut s = "Read ".to_owned();
        push_str(&mut s, tool_path(fact, text).as_str());
        push_str(&mut s, " complete (");
        push_decimal(&mut s, chars);
        push_str(&mut s, " chars). Full contents omitted; re-read the file if needed.");
        s
    } else if str_eq(name, "write_file") {
        write_notice(fact, text)
    } else if str_eq(name, "edit_file") {
        let mut s = "Updated ".to_owned();
        push_str(&mut s, tool_path(fact, text).as_str());
        push_str(&mut s, ".");
        s
    } else if str_eq(name, "bash") {
        let mut s = "bash finished (".to_owned();
        push_decimal(&mut s, chars);
        push_str(&mut s, " chars captured). Output omitted.");
        push_str(&mut s, recover_hint(fact).as_str());
        s
    } else if str_eq(name, "grep") || str_eq(name, "glob") || str_eq(name, "codegraph") || str_eq(
        name,
        "lsp",
    ) {
        let mut s = name.to_owned();
        push_str(&mut s, " completed (");
        push_decimal(&mut s, chars);
        push_str(&mut s, " chars). Output omitted; re-run the search if needed.");
        push_str(&mut s, recover_hint(fact).as_str());
        s
    } else if str_eq(name, "subagent") {
        let mut s = "subagent finished (".to_owned();
        push_decimal(&mut s, chars);
        push_str(&mut s, " chars). Output omitted.");
        push_str(&mut s, recover_hint(fact).as_str());
        s
    } else {
        let mut s = CLEARED_TOOL_RESULT.to_owned();
        push_str(&mut s, " (");
        push_str(&mut s, name);
        push_str(&mut s, ", ");
        push_decimal(&mut s, chars);
        push_str(&mut s, " chars).");
        push_str(&mut s, recover_hint(fact).as_str());
        s
    }
}

/// Plans and skills are never hard-cleared: clearing one gives what
/// distilling it for a summary gives, so a plan of at most 400 characters
/// comes back whole.
pub proof fn lemma_plans_and_skills_are_never_cleared(fact: Option<ExecutionFact>, t: Seq<char>)
    ensures
        hard_clear_spec("update_plan"@, fact, t) == distill_spec(
            "update_plan"@,
            fact,
            t,
            DistillKind::Summarize,
        ),
        hard_clear_spec("skill"@, fact, t) == distill_spec("skill"@, fact, t, DistillKind::Summarize),
        t.len() <= 400 ==> hard_clear_spec("update_plan"@, fact, t) == t,
{
    reveal_strlit("update_plan");
    reveal_strlit("skill");
    reveal_strlit("read_file");
    reveal_strlit("write_file");
    reveal_strlit("edit_file");
    reveal_strlit("bash");
    reveal_strlit("grep");
    reveal_strlit("glob");
    reveal_strlit("codegraph");
    reveal_strlit("lsp");
    reveal_strlit("subagent");
    let u = "update_plan"@;
    assert(u.len() == 11);
    assert(u != "read_file"@ && u != "skill"@ && u != "write_file"@ && u != "edit_file"@) by {
        assert("read_file"@.len() == 9 && "skill"@.len() == 5 && "write_file"@.len() == 10
            && "edit_file"@.len() == 9);
    }
    assert(u != "bash"@ && u != "subagent"@ && !is_search_tool(u)) by {
        assert("bash"@.len() == 4 && "subagent"@.len() == 8 && "grep"@.len() == 4 && "glob"@.len()
            == 4 && "codegraph"@.len() == 9 && "lsp"@.len() == 3);
    }
}

} // verus!
