//! Spill oversized tool output next to the session transcript so `recall` can
//! reload it after truncation or projection prune.
//!
//! Layout: `<sessions_root>/<group>/spills/<session_id>/<call_id>.txt`. The
//! file writes are the caller's; these functions name the files.

use vstd::prelude::*;

use crate::context::compact_llm::sandbox::{path_starts_with, starts_with_spec};
use crate::context::transcript::OutputLocator;
use crate::path_text::{join_path, join_spec};
use crate::text::{decimal_seq, push_char, push_decimal, push_str};

verus! {

pub const MAX_CALL_ID_CHARS: usize = 120;

pub open spec fn is_ascii_alnum(c: char) -> bool {
    ('a' <= c <= 'z') || ('A' <= c <= 'Z') || ('0' <= c <= '9')
}

pub open spec fn safe_char(c: char) -> char {
    if is_ascii_alnum(c) || c == '_' || c == '-' || c == '.' {
        c
    } else {
        '_'
    }
}

/// At most the first 120 characters, each kept when it is ASCII alphanumeric
/// or one of `_ - .` and replaced by `_` otherwise; `unknown` when empty.
pub open spec fn sanitize_spec(id: Seq<char>) -> Seq<char> {
    let n = if id.len() <= MAX_CALL_ID_CHARS {
        id.len() as int
    } else {
        MAX_CALL_ID_CHARS as int
    };
    let out = id.take(n).map_values(|c: char| safe_char(c));
    if out.len() == 0 {
        "unknown"@
    } else {
        out
    }
}

pub fn sanitize_call_id(id: &str) -> (r: String)
    ensures
        r@ == sanitize_spec(id@),
{
    let v = crate::text::chars_of(id);
    let n: usize = if v.len() <= MAX_CALL_ID_CHARS {
        v.len()
    } else {
        MAX_CALL_ID_CHARS
    };
    let mut out = String::new();
    let mut i: usize = 0;
    while i < n
        invariant
            i <= n <= v.len(),
            out@ == v@.take(i as int).map_values(|c: char| safe_char(c)),
        decreases n - i,
    {
        let c = v[i];
        let keep = ('a' <= c && c <= 'z') || ('A' <= c && c <= 'Z') || ('0' <= c && c <= '9')
            || c == '_' || c == '-' || c == '.';
        push_char(
            &mut out,
            if keep {
                c
            } else {
                '_'
            },
        );
        assert(v@.take(i + 1).map_values(|c: char| safe_char(c)) =~= v@.take(i as int).map_values(
            |c: char| safe_char(c),
        ).push(safe_char(v@[i as int])));
        i += 1;
    }
    proof {
        reveal_strlit("");
    }
    if n == 0 {
        "unknown".to_owned()
    } else {
        out
    }
}

/// `<root>/<group>/spills/<session_id>`.
pub open spec fn spill_dir_spec(root: Seq<char>, group: Seq<char>, session_id: Seq<char>) -> Seq<
    char,
> {
    join_spec(join_spec(join_spec(root, group), "spills"@), session_id)
}

pub fn spill_dir(root: &str, group: &str, session_id: &str) -> (r: String)
    ensures
        r@ == spill_dir_spec(root@, group@, session_id@),
{
    let a = join_path(root, group);
    let b = join_path(a.as_str(), "spills");
    join_path(b.as_str(), session_id)
}

/// `<dir>/<sanitized id>.txt`.
pub open spec fn spill_file_spec(dir: Seq<char>, tool_call_id: Seq<char>) -> Seq<char> {
    join_spec(dir, sanitize_spec(tool_call_id) + ".txt"@)
}

pub fn spill_file_path(dir: &str, tool_call_id: &str) -> (r: String)
    ensures
        r@ == spill_file_spec(dir@, tool_call_id@),
{
    let mut name = sanitize_call_id(tool_call_id);
    push_str(&mut name, ".txt");
    join_path(dir, name.as_str())
}

/// Where `recall` finds a spilled output: its file, from the first line.
pub fn locator_for(dir: &str, tool_call_id: &str) -> (r: OutputLocator)
    ensures
        r.path matches Some(p) && p@ == spill_file_spec(dir@, tool_call_id@),
        r.line == Some(1u32),
{
    OutputLocator { path: Some(spill_file_path(dir, tool_call_id)), line: Some(1) }
}

pub open spec fn spill_notice_spec(tool_call_id: Seq<char>, original_chars: usize) -> Seq<char> {
    "[spilled: "@ + decimal_seq(original_chars as nat) + " chars; recall tool_call_id `"@
        + tool_call_id + "`]"@
}

/// Line shown in place of a spilled output.
pub fn spill_notice(tool_call_id: &str, original_chars: usize) -> (r: String)
    ensures
        r@ == spill_notice_spec(tool_call_id@, original_chars),
{
    let mut s = String::new();
    push_str(&mut s, "[spilled: ");
    push_decimal(&mut s, original_chars as u64);
    push_str(&mut s, " chars; recall tool_call_id `");
    push_str(&mut s, tool_call_id);
    push_str(&mut s, "`]");
    proof {
        reveal_strlit("");
    }
    s
}


/// Whether `path` lies inside the spill directory `dir`, both given in
/// canonical form: the directory's components are a prefix of the path's.
pub fn is_under_spill_dir(dir: &str, path: &str) -> (r: bool)
    ensures
        r == starts_with_spec(dir@, path@),
{
    path_starts_with(dir, path)
}

} // verus!
