//! Compact-llm sandbox rules: which relative paths a branch may write, where
//! they land under the root, and the manifest limits on what was written.
//! The file system work (symlink checks, writes) is the caller's.

use vstd::prelude::*;
use vstd::string::StringSliceAdditionalSpecFns;

use crate::context::compact_llm::{sha256_hex, sha256_hex_spec, CompactLlmError, LlmFailure};
use crate::path_text::{
    extension, extension_spec, is_slash_or_backslash, join_path, join_spec, parse_path, path_parts,
    pieces_view, split_path_text, split_spec,
};
use crate::text::{
    chars_of, contains_char, decimal_seq, eq_lit, lower_seq, push_decimal, push_str, str_eq,
    string_from_chars, to_ascii_lowercase, utf8_string,
};
use vstd::utf8::{decode_utf8, valid_utf8};

verus! {

/// A file written by the branch, with its path relative to the root.
pub struct CompactLlmFileEntry {
    pub path: String,
    pub bytes: u64,
    pub sha256: String,
    pub media_type: String,
}

/// First piece that is `~` or `..`, as the error it raises.
pub open spec fn first_bad_piece(pieces: Seq<Seq<char>>) -> Option<Seq<char>>
    decreases pieces.len(),
{
    if pieces.len() == 0 {
        None
    } else if pieces[0] == "~"@ {
        Some("~ is not allowed"@)
    } else if pieces[0] == ".."@ {
        Some(".. is not allowed"@)
    } else {
        first_bad_piece(pieces.drop_first())
    }
}

pub open spec fn is_ascii_alpha(c: char) -> bool {
    ('a' <= c <= 'z') || ('A' <= c <= 'Z')
}

/// Absolute on Unix or Windows: a leading `/` or `\`, or a drive prefix.
pub open spec fn absolute_input_spec(s: Seq<char>) -> bool {
    (s.len() > 0 && (s[0] == '/' || s[0] == '\\')) || (s.len() >= 2 && is_ascii_alpha(s[0])
        && s[1] == ':')
}

/// Why a relative path is refused, or `None` when it is accepted: empty,
/// NUL, a leading `~`, a trailing separator, absolute, a `~` or `..`
/// component (also between `\`), or no file name at all.
pub open spec fn check_relative_spec(s: Seq<char>) -> Option<Seq<char>> {
    if s.len() == 0 {
        Some("empty path"@)
    } else if s.contains('\0') {
        Some("path contains NUL"@)
    } else if s[0] == '~' {
        Some("~ is not allowed"@)
    } else if s.last() == '/' || s.last() == '\\' {
        Some("path must name a file"@)
    } else if absolute_input_spec(s) {
        Some("absolute path is not allowed"@)
    } else {
        match first_bad_piece(path_parts(s).comps) {
            Some(m) => Some(m),
            None => if path_parts(s).comps.len() == 0 {
                Some("empty path"@)
            } else {
                first_bad_piece(split_spec(s, |c: char| is_slash_or_backslash(c)))
            },
        }
    }
}

fn first_bad(pieces: &Vec<Vec<char>>) -> (r: Option<&'static str>)
    ensures
        match r {
            Some(m) => first_bad_piece(pieces_view(pieces@)) == Some(m@),
            None => first_bad_piece(pieces_view(pieces@)) is None,
        },
{
    let ghost pv = pieces_view(pieces@);
    let mut i: usize = 0;
    assert(pv.skip(0) =~= pv);
    while i < pieces.len()
        invariant
            i <= pieces.len(),
            pv == pieces_view(pieces@),
            first_bad_piece(pv) == first_bad_piece(pv.skip(i as int)),
        decreases pieces.len() - i,
    {
        assert(pv.skip(i as int)[0] == pieces@[i as int]@);
        assert(pv.skip(i as int).drop_first() =~= pv.skip(i + 1));
        if eq_lit(&pieces[i], "~") {
            return Some("~ is not allowed");
        }
        if eq_lit(&pieces[i], "..") {
            return Some(".. is not allowed");
        }
        i += 1;
    }
    None
}

pub fn is_absolute_input(relative: &str) -> (r: bool)
    ensures
        r == absolute_input_spec(relative@),
{
    let v = chars_of(relative);
    if v.len() > 0 && (v[0] == '/' || v[0] == '\\') {
        return true;
    }
    v.len() >= 2 && (('a' <= v[0] && v[0] <= 'z') || ('A' <= v[0] && v[0] <= 'Z')) && v[1] == ':'
}

fn fail(m: &str) -> (r: Result<(), CompactLlmError>)
    ensures
        r matches Err(e) && e@ == LlmFailure::Sandbox(m@),
{
    Err(CompactLlmError::sandbox(m.to_owned()))
}

/// Accepts or refuses a relative path; see [`check_relative_spec`].
pub fn check_relative(relative: &str) -> (r: Result<(), CompactLlmError>)
    ensures
        match check_relative_spec(relative@) {
            None => r is Ok,
            Some(m) => r matches Err(e) && e@ == LlmFailure::Sandbox(m),
        },
{
    let v = chars_of(relative);
    if v.len() == 0 {
        return fail("empty path");
    }
    if contains_char(&v, '\0') {
        return fail("path contains NUL");
    }
    if v[0] == '~' {
        return fail("~ is not allowed");
    }
    if v[v.len() - 1] == '/' || v[v.len() - 1] == '\\' {
        return fail("path must name a file");
    }
    if is_absolute_input(relative) {
        return fail("absolute path is not allowed");
    }
    let parts = parse_path(&v);
    if let Some(m) = first_bad(&parts.comps) {
        return fail(m);
    }
    if parts.comps.len() == 0 {
        return fail("empty path");
    }
    let pieces = split_path_text(&v, true);
    if let Some(m) = first_bad(&pieces) {
        return fail(m);
    }
    Ok(())
}

/// `root` with each component of `relative` pushed on it; `..` or an absolute
/// path is invalid.
pub open spec fn join_all(root: Seq<char>, comps: Seq<Seq<char>>) -> Seq<char>
    decreases comps.len(),
{
    if comps.len() == 0 {
        root
    } else {
        join_spec(join_all(root, comps.drop_last()), comps.last())
    }
}

pub open spec fn join_under_root_spec(root: Seq<char>, relative: Seq<char>) -> Option<Seq<char>> {
    let p = path_parts(relative);
    if p.root || p.comps.contains(".."@) {
        None
    } else {
        Some(join_all(root, p.comps))
    }
}

pub fn join_under_root(root: &str, relative: &str) -> (r: Result<String, CompactLlmError>)
    ensures
        match join_under_root_spec(root@, relative@) {
            Some(d) => r matches Ok(s) && s@ == d,
            None => r matches Err(e) && e@ == LlmFailure::Sandbox("invalid relative path"@),
        },
{
    let v = chars_of(relative);
    let parts = parse_path(&v);
    let ghost comps = pieces_view(parts.comps@);
    if parts.root {
        return Err(CompactLlmError::sandbox("invalid relative path".to_owned()));
    }
    let mut dest = root.to_owned();
    let mut i: usize = 0;
    while i < parts.comps.len()
        invariant
            i <= parts.comps.len(),
            comps == pieces_view(parts.comps@),
            comps == path_parts(relative@).comps,
            !path_parts(relative@).root,
            dest@ == join_all(root@, comps.take(i as int)),
            forall|k: int| 0 <= k < i ==> comps[k] != ".."@,
        decreases parts.comps.len() - i,
    {
        assert(comps.take(i + 1).drop_last() =~= comps.take(i as int));
        assert(comps[i as int] == parts.comps@[i as int]@);
        if eq_lit(&parts.comps[i], "..") {
            assert(comps.contains(".."@));
            return Err(CompactLlmError::sandbox("invalid relative path".to_owned()));
        }
        let name = string_from_chars(&parts.comps[i]);
        dest = join_path(dest.as_str(), name.as_str());
        i += 1;
    }
    assert(comps.take(comps.len() as int) =~= comps);
    assert(!comps.contains(".."@)) by {
        if comps.contains(".."@) {
            let k = choose|k: int| 0 <= k < comps.len() && comps[k] == ".."@;
            assert(comps[k] != ".."@);
        }
    }
    Ok(dest)
}

/// Every component `Path::components` yields, with `/` standing for the root
/// and `.` for a leading current-directory component.
pub open spec fn full_components(s: Seq<char>) -> Seq<Seq<char>> {
    let p = path_parts(s);
    (if p.root {
        seq!["/"@]
    } else {
        Seq::empty()
    }) + (if p.cur {
        seq!["."@]
    } else {
        Seq::empty()
    }) + p.comps
}

/// `dest` starts with `root` component-wise and is not `root` itself.
pub open spec fn under_root_spec(root: Seq<char>, dest: Seq<char>) -> bool {
    let a = full_components(root);
    let b = full_components(dest);
    a.len() < b.len() && b.take(a.len() as int) == a
}

pub(crate) fn full_components_of(s: &str) -> (r: Vec<Vec<char>>)
    ensures
        pieces_view(r@) == full_components(s@),
{
    let v = chars_of(s);
    let parts = parse_path(&v);
    let mut out: Vec<Vec<char>> = Vec::new();
    if parts.root {
        out.push(chars_of("/"));
    }
    if parts.cur {
        out.push(chars_of("."));
    }
    let ghost head = pieces_view(out@);
    assert(head == (if parts.root {
        seq!["/"@]
    } else {
        Seq::<Seq<char>>::empty()
    }) + (if parts.cur {
        seq!["."@]
    } else {
        Seq::<Seq<char>>::empty()
    }));
    let mut i: usize = 0;
    while i < parts.comps.len()
        invariant
            i <= parts.comps.len(),
            pieces_view(out@) == head + pieces_view(parts.comps@).take(i as int),
        decreases parts.comps.len() - i,
    {
        let ghost before = out@;
        out.push(crate::text::subvec(&parts.comps[i], 0, parts.comps[i].len()));
        assert(parts.comps@[i as int]@.subrange(0, parts.comps@[i as int]@.len() as int)
            =~= parts.comps@[i as int]@);
        assert(pieces_view(out@) =~= pieces_view(before).push(parts.comps@[i as int]@));
        assert(pieces_view(parts.comps@).take(i + 1) =~= pieces_view(parts.comps@).take(
            i as int,
        ).push(parts.comps@[i as int]@));
        i += 1;
    }
    assert(pieces_view(parts.comps@).take(parts.comps.len() as int) =~= pieces_view(
        parts.comps@,
    ));
    out
}

pub(crate) fn pieces_eq(a: &Vec<Vec<char>>, b: &Vec<Vec<char>>, n: usize) -> (r: bool)
    requires
        n <= a.len(),
        n <= b.len(),
    ensures
        r == (pieces_view(a@).take(n as int) == pieces_view(b@).take(n as int)),
{
    let mut i: usize = 0;
    while i < n
        invariant
            i <= n <= a.len(),
            n <= b.len(),
            forall|k: int| 0 <= k < i ==> a@[k]@ == b@[k]@,
        decreases n - i,
    {
        if !crate::text::chars_eq(&a[i], &b[i]) {
            assert(pieces_view(a@).take(n as int)[i as int] != pieces_view(b@).take(n as int)[i as int]);
            return false;
        }
        i += 1;
    }
    assert(pieces_view(a@).take(n as int) =~= pieces_view(b@).take(n as int));
    true
}

pub fn path_is_under_root(root: &str, dest: &str) -> (r: bool)
    ensures
        r == under_root_spec(root@, dest@),
{
    let a = full_components_of(root);
    let b = full_components_of(dest);
    if a.len() >= b.len() {
        return false;
    }
    let r = pieces_eq(&a, &b, a.len());
    assert(pieces_view(a@).take(a.len() as int) =~= pieces_view(a@));
    r
}

/// `dest` relative to `root`, its components joined by `/`.
pub open spec fn relative_spec(root: Seq<char>, dest: Seq<char>) -> Result<Seq<char>, Seq<char>> {
    let a = full_components(root);
    let b = full_components(dest);
    if !(a.len() <= b.len() && b.take(a.len() as int) == a) {
        Err("path escaped sandbox root"@)
    } else {
        let rest = b.skip(a.len() as int);
        if exists|k: int| 0 <= k < rest.len() && (rest[k] == "/"@ || rest[k] == "."@ || rest[k] == ".."@) {
            Err("invalid relative path"@)
        } else if rest.len() == 0 {
            Err("path must name a file"@)
        } else {
            Ok(join_slash(rest))
        }
    }
}

/// Pieces joined by `/`.
pub open spec fn join_slash(p: Seq<Seq<char>>) -> Seq<char>
    decreases p.len(),
{
    if p.len() == 0 {
        Seq::empty()
    } else if p.len() == 1 {
        p[0]
    } else {
        join_slash(p.drop_last()) + "/"@ + p.last()
    }
}

pub fn relative_to_root(root: &str, dest: &str) -> (r: Result<String, CompactLlmError>)
    ensures
        match relative_spec(root@, dest@) {
            Ok(s) => r matches Ok(t) && t@ == s,
            Err(m) => r matches Err(e) && e@ == LlmFailure::Sandbox(m),
        },
{
    let a = full_components_of(root);
    let b = full_components_of(dest);
    let ghost av = pieces_view(a@);
    let ghost bv = pieces_view(b@);
    assert(av.take(a.len() as int) =~= av);
    if a.len() > b.len() || !pieces_eq(&a, &b, a.len()) {
        return Err(CompactLlmError::sandbox("path escaped sandbox root".to_owned()));
    }
    let ghost rest = bv.skip(a.len() as int);
    let mut i: usize = a.len();
    let mut out = String::new();
    while i < b.len()
        invariant
            a.len() <= i <= b.len(),
            bv == pieces_view(b@),
            av == pieces_view(a@),
            av == full_components(root@),
            bv == full_components(dest@),
            a.len() <= b.len(),
            bv.take(a.len() as int) == av,
            rest == bv.skip(a.len() as int),
            forall|k: int| 0 <= k < i - a.len() ==> !(rest[k] == "/"@ || rest[k] == "."@ || rest[k] == ".."@),
            out@ == join_slash(rest.take(i - a.len())),
        decreases b.len() - i,
    {
        assert(rest[i - a.len()] == b@[i as int]@);
        if eq_lit(&b[i], "/") || eq_lit(&b[i], ".") || eq_lit(&b[i], "..") {
            assert(exists|k: int| 0 <= k < rest.len() && (rest[k] == "/"@ || rest[k] == "."@ || rest[k] == ".."@)) by {
                assert(rest[i - a.len()] == b@[i as int]@);
            }
            return Err(CompactLlmError::sandbox("invalid relative path".to_owned()));
        }
        let piece = string_from_chars(&b[i]);
        if i > a.len() {
            push_str(&mut out, "/");
        }
        push_str(&mut out, piece.as_str());
        proof {
            reveal_strlit("");
            let t = rest.take(i + 1 - a.len());
            assert(t.drop_last() =~= rest.take(i - a.len()));
            assert(t.last() == b@[i as int]@);
            if i == a.len() {
                assert(t.len() == 1);
            }
        }
        i += 1;
    }
    assert(rest.take(b.len() - a.len()) =~= rest);
    if b.len() == a.len() {
        return Err(CompactLlmError::sandbox("path must name a file".to_owned()));
    }
    Ok(out)
}

/// `text/markdown` for a `.md` file (any case), `text/plain` otherwise.
pub open spec fn media_type_spec(rel: Seq<char>) -> Seq<char> {
    match extension_spec(rel) {
        Some(e) => if lower_seq(e) == "md"@ {
            "text/markdown"@
        } else {
            "text/plain"@
        },
        None => "text/plain"@,
    }
}

pub fn media_type_for(rel: &str) -> (r: String)
    ensures
        r@ == media_type_spec(rel@),
{
    match extension(&chars_of(rel)) {
        Some(e) => if eq_lit(&to_ascii_lowercase(&e), "md") {
            "text/markdown".to_owned()
        } else {
            "text/plain".to_owned()
        },
        None => "text/plain".to_owned(),
    }
}

/// Manifest entry for `content` written at `rel`.
pub fn entry_for(rel: String, content: &str) -> (r: CompactLlmFileEntry)
    ensures
        r.path == rel,
        r.bytes == content.spec_bytes().len(),
        r.sha256@ == sha256_hex_spec(content.spec_bytes()),
        r.media_type@ == media_type_spec(rel@),
{
    let bytes = content.as_bytes();
    let media_type = media_type_for(rel.as_str());
    CompactLlmFileEntry {
        path: rel,
        bytes: bytes.len() as u64,
        sha256: sha256_hex(bytes),
        media_type,
    }
}

// ----- manifest -----

pub open spec fn total_bytes(entries: Seq<CompactLlmFileEntry>) -> int
    decreases entries.len(),
{
    if entries.len() == 0 {
        0
    } else {
        total_bytes(entries.drop_last()) + entries.last().bytes
    }
}

pub open spec fn index_of_path(entries: Seq<CompactLlmFileEntry>, path: Seq<char>) -> Option<int> {
    if exists|i: int| 0 <= i < entries.len() && #[trigger] entries[i].path@ == path {
        Some(choose|i: int| 0 <= i < entries.len() && #[trigger] entries[i].path@ == path)
    } else {
        None
    }
}

/// Limits copied from the configuration when the sandbox is made.
#[derive(Debug, Clone, Copy, PartialEq, Eq, Structural)]
pub struct SandboxLimits {
    pub max_file_bytes: u64,
    pub max_file_count: usize,
    pub max_total_bytes: u64,
}

/// Every written file is within the per-file cap, there are no more files
/// than allowed, each path once, and their sizes sum within the total cap.
pub open spec fn within_limits(limits: SandboxLimits, entries: Seq<CompactLlmFileEntry>) -> bool {
    &&& entries.len() <= limits.max_file_count
    &&& total_bytes(entries) <= limits.max_total_bytes
    &&& forall|i: int| 0 <= i < entries.len() ==> #[trigger] entries[i].bytes <= limits.max_file_bytes
    &&& forall|i: int, j: int|
        0 <= i < entries.len() && 0 <= j < entries.len() && i != j ==> #[trigger] entries[i].path@
            != #[trigger] entries[j].path@
}

/// Why a write of `entry` is refused, or `None` when it fits.
pub open spec fn accept_spec(
    limits: SandboxLimits,
    entries: Seq<CompactLlmFileEntry>,
    entry: CompactLlmFileEntry,
) -> Option<Seq<char>> {
    let existing = index_of_path(entries, entry.path@);
    let old_bytes: int = match existing {
        Some(i) => entries[i].bytes as int,
        None => 0,
    };
    let new_total = if total_bytes(entries) - old_bytes + entry.bytes <= u64::MAX {
        total_bytes(entries) - old_bytes + entry.bytes
    } else {
        u64::MAX as int
    };
    if entry.bytes > limits.max_file_bytes {
        Some("file exceeds max_file_bytes ("@ + decimal_seq(entry.bytes as nat) + " > "@
            + decimal_seq(limits.max_file_bytes as nat) + ")"@)
    } else if existing is None && entries.len() >= limits.max_file_count {
        Some("file count exceeds max_file_count ("@ + decimal_seq(limits.max_file_count as nat)
            + ")"@)
    } else if new_total > limits.max_total_bytes {
        Some("total bytes would exceed max_total_bytes ("@ + decimal_seq(new_total as nat) + " > "@
            + decimal_seq(limits.max_total_bytes as nat) + ")"@)
    } else {
        None
    }
}

/// Manifest after recording `entry`: it replaces the entry with the same path
/// or is appended.
pub open spec fn record_spec(entries: Seq<CompactLlmFileEntry>, entry: CompactLlmFileEntry) -> Seq<
    CompactLlmFileEntry,
> {
    match index_of_path(entries, entry.path@) {
        Some(i) => entries.update(i, entry),
        None => entries.push(entry),
    }
}

/// What the sandbox has written so far, kept within its limits.
pub struct SandboxManifest {
    limits: SandboxLimits,
    written: Vec<CompactLlmFileEntry>,
}

impl SandboxManifest {
    #[verifier::type_invariant]
    closed spec fn inv(self) -> bool {
        &&& within_limits(self.limits, self.written@)
    }

    pub closed spec fn limits_spec(self) -> SandboxLimits {
        self.limits
    }

    pub closed spec fn entries_spec(self) -> Seq<CompactLlmFileEntry> {
        self.written@
    }

    /// An empty manifest under `limits`.
    pub fn new(limits: SandboxLimits) -> (r: Self)
        ensures
            r.limits_spec() == limits,
            r.entries_spec() == Seq::<CompactLlmFileEntry>::empty(),
    {
        SandboxManifest { limits, written: Vec::new() }
    }

    /// The manifest always stays within its limits.
    pub fn limits_hold(&self) -> (r: bool)
        ensures
            r,
            within_limits(self.limits_spec(), self.entries_spec()),
    {
        proof {
            use_type_invariant(self);
        }
        true
    }

    fn find_path(&self, path: &String) -> (r: Option<usize>)
        ensures
            match r {
                Some(i) => i < self.written.len() && index_of_path(self.written@, path@) == Some(
                    i as int,
                ),
                None => index_of_path(self.written@, path@) is None,
            },
    {
        proof {
            use_type_invariant(self);
        }
        let mut i: usize = 0;
        while i < self.written.len()
            invariant
                i <= self.written.len(),
                within_limits(self.limits, self.written@),
                forall|k: int| 0 <= k < i ==> #[trigger] self.written@[k].path@ != path@,
            decreases self.written.len() - i,
        {
            if crate::text::str_eq(self.written[i].path.as_str(), path.as_str()) {
                proof {
                    let j = choose|j: int|
                        0 <= j < self.written@.len() && #[trigger] self.written@[j].path@ == path@;
                    if j != i {
                        assert(self.written@[j].path@ != self.written@[i as int].path@);
                    }
                }
                return Some(i);
            }
            i += 1;
        }
        None
    }

    fn total(&self) -> (r: u64)
        ensures
            r == total_bytes(self.written@),
    {
        proof {
            use_type_invariant(self);
        }
        proof {
            lemma_total_prefix(self.written@);
        }
        let mut t: u64 = 0;
        let mut i: usize = 0;
        assert(self.written@.take(0) =~= Seq::<CompactLlmFileEntry>::empty());
        while i < self.written.len()
            invariant
                i <= self.written.len(),
                t == total_bytes(self.written@.take(i as int)),
                total_bytes(self.written@) <= u64::MAX,
                forall|k: int| 0 <= k <= self.written.len() ==> #[trigger] total_bytes(self.written@.take(k)) <= total_bytes(self.written@),
            decreases self.written.len() - i,
        {
            assert(self.written@.take(i + 1).drop_last() =~= self.written@.take(i as int));
            assert(self.written@.take(i + 1).last() == self.written@[i as int]);
            assert(total_bytes(self.written@.take(i + 1)) <= total_bytes(self.written@));
            t = t + self.written[i].bytes;
            i += 1;
        }
        assert(self.written@.take(self.written.len() as int) =~= self.written@);
        t
    }

    /// Refuses a write over a limit, with the reason; see [`accept_spec`].
    pub fn check_write(&self, entry: &CompactLlmFileEntry) -> (r: Result<(), CompactLlmError>)
        ensures
            match accept_spec(self.limits_spec(), self.entries_spec(), *entry) {
                None => r is Ok,
                Some(m) => r matches Err(e) && e@ == LlmFailure::Sandbox(m),
            },
    {
        proof {
            use_type_invariant(self);
            lemma_total_prefix(self.written@);
        }
        let existing = self.find_path(&entry.path);
        let old_bytes: u64 = match existing {
            Some(i) => self.written[i].bytes,
            None => 0,
        };
        if entry.bytes > self.limits.max_file_bytes {
            let mut m = String::new();
            push_str(&mut m, "file exceeds max_file_bytes (");
            push_decimal(&mut m, entry.bytes);
            push_str(&mut m, " > ");
            push_decimal(&mut m, self.limits.max_file_bytes);
            push_str(&mut m, ")");
            proof {
                reveal_strlit("");
            }
            return Err(CompactLlmError::sandbox(m));
        }
        if existing.is_none() && self.written.len() >= self.limits.max_file_count {
            let mut m = String::new();
            push_str(&mut m, "file count exceeds max_file_count (");
            push_decimal(&mut m, self.limits.max_file_count as u64);
            push_str(&mut m, ")");
            proof {
                reveal_strlit("");
            }
            return Err(CompactLlmError::sandbox(m));
        }
        let total = self.total();
        proof {
            if let Some(i) = existing {
                lemma_total_entry(self.written@, i as int);
            }
        }
        let new_total = total.saturating_sub(old_bytes).saturating_add(entry.bytes);
        if new_total > self.limits.max_total_bytes {
            let mut m = String::new();
            push_str(&mut m, "total bytes would exceed max_total_bytes (");
            push_decimal(&mut m, new_total);
            push_str(&mut m, " > ");
            push_decimal(&mut m, self.limits.max_total_bytes);
            push_str(&mut m, ")");
            proof {
                reveal_strlit("");
            }
            return Err(CompactLlmError::sandbox(m));
        }
        Ok(())
    }

    /// Whether the manifest's byte total after recording `entry` still fits a
    /// `u64`. Only a total cap of `u64::MAX` lets an accepted write go past
    /// it: the check saturates there, and the running total would overflow.
    pub fn record_fits(&self, entry: &CompactLlmFileEntry) -> (r: bool)
        ensures
            r == (total_bytes(record_spec(self.entries_spec(), *entry)) <= u64::MAX),
    {
        proof {
            use_type_invariant(self);
            lemma_total_nonneg(self.written@);
        }
        let existing = self.find_path(&entry.path);
        let total = self.total();
        match existing {
            Some(i) => {
                proof {
                    lemma_total_entry(self.written@, i as int);
                    lemma_total_update(self.written@, i as int, *entry);
                }
                entry.bytes <= u64::MAX - (total - self.written[i].bytes)
            },
            None => {
                proof {
                    let after = self.written@.push(*entry);
                    assert(after.drop_last() =~= self.written@);
                }
                entry.bytes <= u64::MAX - total
            },
        }
    }

    /// Records an accepted write; the manifest stays within its limits. The
    /// byte total must still fit a `u64` (see [`Self::record_fits`]).
    pub fn record(&mut self, entry: CompactLlmFileEntry)
        requires
            accept_spec(old(self).limits_spec(), old(self).entries_spec(), entry) is None,
            total_bytes(record_spec(old(self).entries_spec(), entry)) <= u64::MAX,
        ensures
            final(self).entries_spec() == record_spec(old(self).entries_spec(), entry),
            final(self).limits_spec() == old(self).limits_spec(),
    {
        proof {
            use_type_invariant(&*self);
        }
        let existing = self.find_path(&entry.path);
        let ghost before = self.written@;
        let mut written: Vec<CompactLlmFileEntry> = Vec::new();
        std::mem::swap(&mut written, &mut self.written);
        match existing {
            Some(i) => {
                proof {
                    lemma_total_update(before, i as int, entry);
                }
                written.set(i, entry);
                proof {
                    assert(written@ == before.update(i as int, entry));
                    assert(total_bytes(written@) <= self.limits.max_total_bytes);
                    assert forall|k: int| 0 <= k < written@.len() implies #[trigger] written@[k].bytes
                        <= self.limits.max_file_bytes by {
                        if k != i {
                            assert(written@[k] == before[k]);
                        }
                    }
                    assert forall|a: int, b: int|
                        0 <= a < written@.len() && 0 <= b < written@.len() && a != b implies #[trigger] written@[a].path@
                            != #[trigger] written@[b].path@ by {
                        if a != i && b != i {
                            assert(before[a].path@ != before[b].path@);
                        } else if a == i {
                            assert(before[i as int].path@ == entry.path@);
                            assert(before[b].path@ != before[i as int].path@);
                        } else {
                            assert(before[i as int].path@ == entry.path@);
                            assert(before[a].path@ != before[i as int].path@);
                        }
                    }
                }
            },
            None => {
                written.push(entry);
                proof {
                    assert(written@.drop_last() =~= before);
                    assert(total_bytes(written@) == total_bytes(before) + entry.bytes);
                    assert(total_bytes(written@) <= self.limits.max_total_bytes);
                    assert forall|k: int| 0 <= k < written@.len() implies #[trigger] written@[k].bytes
                        <= self.limits.max_file_bytes by {
                        if k < before.len() {
                            assert(written@[k] == before[k]);
                        }
                    }
                    assert forall|a: int, b: int|
                        0 <= a < written@.len() && 0 <= b < written@.len() && a != b implies #[trigger] written@[a].path@
                            != #[trigger] written@[b].path@ by {
                        if a < before.len() && b < before.len() {
                            assert(before[a].path@ != before[b].path@);
                        } else if a == before.len() {
                            assert(!(before[b].path@ == entry.path@));
                        } else {
                            assert(!(before[a].path@ == entry.path@));
                        }
                    }
                }
            },
        }
        self.written = written;
    }

    /// The manifest entries, in the order they were first written.
    pub fn manifest(&self) -> (r: &Vec<CompactLlmFileEntry>)
        ensures
            r@ == self.entries_spec(),
    {
        &self.written
    }
}

proof fn lemma_total_prefix(e: Seq<CompactLlmFileEntry>)
    ensures
        forall|k: int| 0 <= k <= e.len() ==> #[trigger] total_bytes(e.take(k)) <= total_bytes(e),
    decreases e.len(),
{
    if e.len() > 0 {
        lemma_total_prefix(e.drop_last());
        assert forall|k: int| 0 <= k <= e.len() implies #[trigger] total_bytes(e.take(k)) <= total_bytes(e) by {
            if k == e.len() {
                assert(e.take(k) =~= e);
            } else {
                assert(e.take(k) =~= e.drop_last().take(k));
            }
        }
    }
}

proof fn lemma_total_nonneg(e: Seq<CompactLlmFileEntry>)
    ensures
        total_bytes(e) >= 0,
    decreases e.len(),
{
    if e.len() > 0 {
        lemma_total_nonneg(e.drop_last());
    }
}

proof fn lemma_total_entry(e: Seq<CompactLlmFileEntry>, i: int)
    requires
        0 <= i < e.len(),
    ensures
        e[i].bytes <= total_bytes(e),
    decreases e.len(),
{
    lemma_total_nonneg(e.drop_last());
    if i < e.len() - 1 {
        lemma_total_entry(e.drop_last(), i);
        assert(e.drop_last()[i] == e[i]);
    }
}

proof fn lemma_total_update(e: Seq<CompactLlmFileEntry>, i: int, x: CompactLlmFileEntry)
    requires
        0 <= i < e.len(),
    ensures
        total_bytes(e.update(i, x)) == total_bytes(e) - e[i].bytes + x.bytes,
    decreases e.len(),
{
    if i < e.len() - 1 {
        lemma_total_update(e.drop_last(), i, x);
        assert(e.update(i, x).drop_last() =~= e.drop_last().update(i, x));
    } else {
        assert(e.update(i, x).drop_last() =~= e.drop_last());
    }
}


/// `r` is the sandbox failure with message `m`.
pub open spec fn sandbox_failure<T>(r: Result<T, CompactLlmError>, m: Seq<char>) -> bool {
    r matches Err(e) && e@ == LlmFailure::Sandbox(m)
}

/// Checks a written file read back from disk: valid UTF-8, the size and the
/// SHA-256 its manifest entry records; the text on success.
pub fn verify_read_back(entry: &CompactLlmFileEntry, raw: Vec<u8>) -> (r: Result<String, CompactLlmError>)
    ensures
        !valid_utf8(raw@) ==> sandbox_failure(r, entry.path@ + " is not valid UTF-8"@),
        valid_utf8(raw@) && raw@.len() != entry.bytes ==> sandbox_failure(
            r,
            "size mismatch for "@ + entry.path@ + ": disk "@ + decimal_seq(raw@.len())
                + ", manifest "@ + decimal_seq(entry.bytes as nat),
        ),
        valid_utf8(raw@) && raw@.len() == entry.bytes && sha256_hex_spec(raw@) != entry.sha256@
            ==> sandbox_failure(r, "sha256 mismatch for "@ + entry.path@),
        valid_utf8(raw@) && raw@.len() == entry.bytes && sha256_hex_spec(raw@) == entry.sha256@ ==> (
        r matches Ok(s) && s@ == decode_utf8(raw@)),
{
    let n = raw.len() as u64;
    let digest = sha256_hex(raw.as_slice());
    let body = match utf8_string(raw) {
        Some(b) => b,
        None => {
            let mut m = entry.path.clone();
            push_str(&mut m, " is not valid UTF-8");
            return Err(CompactLlmError::sandbox(m));
        },
    };
    if n != entry.bytes {
        let mut m = "size mismatch for ".to_owned();
        push_str(&mut m, entry.path.as_str());
        push_str(&mut m, ": disk ");
        push_decimal(&mut m, n);
        push_str(&mut m, ", manifest ");
        push_decimal(&mut m, entry.bytes);
        return Err(CompactLlmError::sandbox(m));
    }
    if !str_eq(digest.as_str(), entry.sha256.as_str()) {
        let mut m = "sha256 mismatch for ".to_owned();
        push_str(&mut m, entry.path.as_str());
        return Err(CompactLlmError::sandbox(m));
    }
    Ok(body)
}


/// `dest` starts with `root` component-wise (or is `root`).
pub open spec fn starts_with_spec(root: Seq<char>, dest: Seq<char>) -> bool {
    let a = full_components(root);
    let b = full_components(dest);
    a.len() <= b.len() && b.take(a.len() as int) == a
}

/// `Path::starts_with`: whether `dest` lies at or below `root`.
pub fn path_starts_with(root: &str, dest: &str) -> (r: bool)
    ensures
        r == starts_with_spec(root@, dest@),
{
    let a = full_components_of(root);
    let b = full_components_of(dest);
    if a.len() > b.len() {
        return false;
    }
    let r = pieces_eq(&a, &b, a.len());
    assert(pieces_view(a@).take(a.len() as int) =~= pieces_view(a@));
    r
}

} // verus!
