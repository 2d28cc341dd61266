//! Names the compact-llm checkpoint store accepts: compaction ids,
//! attachment paths and checkpoint files.

use vstd::prelude::*;

use crate::context::compact_llm::sandbox::CompactLlmFileEntry;
use crate::context::compact_llm::{
    sha256_hex, sha256_hex_spec, CompactLlmError, LlmFailure, COMPACT_LLM_MAX_FILE_BYTES,
    COMPACT_LLM_MAX_FILE_COUNT, COMPACT_LLM_MAX_TOTAL_BYTES,
};
use vstd::utf8::{decode_utf8, valid_utf8};
use crate::path_text::{extension, extension_spec, file_name, file_name_spec, parse_path, path_parts, PathParts};
use crate::text::{
    chars_of, contains_char, decimal_seq, ends_with_lit, eq_lit, has_suffix, push_decimal, push_str,
    str_eq, utf8_string,
};

verus! {

pub const PENDING_SUFFIX: &'static str = ".pending";
pub const INDEX_FILE: &'static str = "index.json";

/// Why a compaction id is refused, or `None`: it must be one non-hidden
/// path component without a reserved suffix.
pub open spec fn id_error(id: Seq<char>) -> Option<Seq<char>> {
    if id.len() == 0 || id.contains('\0') || id[0] == '.' {
        Some("compaction id must be a single non-hidden path component"@)
    } else if has_suffix(id, PENDING_SUFFIX@) || has_suffix(id, ".json"@) {
        Some("compaction id "@ + id + " uses a reserved suffix"@)
    } else {
        let p = path_parts(id);
        if !p.root && !p.cur && p.comps == seq![id] {
            None
        } else {
            Some("compaction id "@ + id + " must be a single relative path component"@)
        }
    }
}

pub fn validate_id(id: &str) -> (r: Result<(), CompactLlmError>)
    ensures
        match id_error(id@) {
            None => r is Ok,
            Some(m) => r matches Err(e) && e@ == LlmFailure::Checkpoint(m),
        },
{
    let v = chars_of(id);
    if v.len() == 0 || contains_char(&v, '\0') || v[0] == '.' {
        return Err(
            CompactLlmError::checkpoint(
                "compaction id must be a single non-hidden path component".to_owned(),
            ),
        );
    }
    if ends_with_lit(&v, PENDING_SUFFIX) || ends_with_lit(&v, ".json") {
        let mut m = "compaction id ".to_owned();
        push_str(&mut m, id);
        push_str(&mut m, " uses a reserved suffix");
        return Err(CompactLlmError::checkpoint(m));
    }
    let p = parse_path(&v);
    let single = !p.root && !p.cur && p.comps.len() == 1 && crate::text::chars_eq(&p.comps[0], &v);
    assert(single == (!path_parts(id@).root && !path_parts(id@).cur && path_parts(id@).comps
        =~= seq![id@])) by {
        if p.comps.len() == 1 {
            assert(path_parts(id@).comps[0] == p.comps@[0]@);
        }
    }
    if single {
        Ok(())
    } else {
        let mut m = "compaction id ".to_owned();
        push_str(&mut m, id);
        push_str(&mut m, " must be a single relative path component");
        Err(CompactLlmError::checkpoint(m))
    }
}

/// Why an attachment path is refused, or `None`: it must be non-empty,
/// without NUL, relative, and made of plain names only.
pub open spec fn rel_path_error(rel: Seq<char>) -> Option<Seq<char>> {
    let p = path_parts(rel);
    if rel.len() == 0 {
        Some("attachment path must be non-empty"@)
    } else if rel.contains('\0') {
        Some("attachment path contains NUL: "@ + rel)
    } else if p.root {
        Some("attachment path must be relative: "@ + rel)
    } else if p.cur || p.comps.contains(".."@) || p.comps.len() == 0 {
        Some("illegal attachment path "@ + rel)
    } else {
        None
    }
}

pub fn validate_rel_path(rel: &str) -> (r: Result<(), CompactLlmError>)
    ensures
        match rel_path_error(rel@) {
            None => r is Ok,
            Some(m) => r matches Err(e) && e@ == LlmFailure::Checkpoint(m),
        },
{
    let v = chars_of(rel);
    if v.len() == 0 {
        return Err(CompactLlmError::checkpoint("attachment path must be non-empty".to_owned()));
    }
    if contains_char(&v, '\0') {
        let mut m = "attachment path contains NUL: ".to_owned();
        push_str(&mut m, rel);
        return Err(CompactLlmError::checkpoint(m));
    }
    let p = parse_path(&v);
    if p.root {
        let mut m = "attachment path must be relative: ".to_owned();
        push_str(&mut m, rel);
        return Err(CompactLlmError::checkpoint(m));
    }
    let ghost comps = crate::path_text::pieces_view(p.comps@);
    let mut bad = p.cur || p.comps.len() == 0;
    let mut i: usize = 0;
    while i < p.comps.len()
        invariant
            i <= p.comps.len(),
            comps == crate::path_text::pieces_view(p.comps@),
            bad == (p.cur || p.comps.len() == 0 || exists|k: int| 0 <= k < i && comps[k] == ".."@),
        decreases p.comps.len() - i,
    {
        assert(comps[i as int] == p.comps@[i as int]@);
        if eq_lit(&p.comps[i], "..") {
            bad = true;
        }
        i += 1;
    }
    assert(comps.contains(".."@) == exists|k: int| 0 <= k < p.comps.len() && comps[k] == ".."@);
    if bad {
        let mut m = "illegal attachment path ".to_owned();
        push_str(&mut m, rel);
        return Err(CompactLlmError::checkpoint(m));
    }
    Ok(())
}

/// A checkpoint file: a `.json` file that is neither hidden nor the index.
pub open spec fn checkpoint_json_spec(path: Seq<char>) -> bool {
    extension_spec(path) == Some("json"@) && match file_name_spec(path) {
        Some(name) => !(name.len() > 0 && name[0] == '.') && name != INDEX_FILE@,
        None => false,
    }
}

pub fn is_checkpoint_json(path: &str) -> (r: bool)
    ensures
        r == checkpoint_json_spec(path@),
{
    let v = chars_of(path);
    let ext_ok = match extension(&v) {
        Some(e) => eq_lit(&e, "json"),
        None => false,
    };
    if !ext_ok {
        return false;
    }
    match file_name(&v) {
        Some(name) => !(name.len() > 0 && name[0] == '.') && !eq_lit(&name, INDEX_FILE),
        None => false,
    }
}


/// Why the first `n` attachments of a manifest are refused, or `None`: a
/// path listed twice, or a file over the size limit.
pub open spec fn entries_error(files: Seq<CompactLlmFileEntry>, n: int) -> Option<Seq<char>>
    decreases n,
{
    if n <= 0 {
        None
    } else {
        match entries_error(files, n - 1) {
            Some(m) => Some(m),
            None => {
                let e = files[n - 1];
                if exists|j: int| 0 <= j < n - 1 && #[trigger] files[j].path@ == e.path@ {
                    Some("duplicate attachment path "@ + e.path@)
                } else if e.bytes > COMPACT_LLM_MAX_FILE_BYTES {
                    Some(
                        "attachment "@ + e.path@ + " exceeds max "@ + decimal_seq(
                            COMPACT_LLM_MAX_FILE_BYTES as nat,
                        ) + " bytes"@,
                    )
                } else {
                    None
                }
            },
        }
    }
}

/// Total size of the first `n` attachments.
pub open spec fn total_bytes(files: Seq<CompactLlmFileEntry>, n: int) -> int
    decreases n,
{
    if n <= 0 {
        0
    } else {
        total_bytes(files, n - 1) + files[n - 1].bytes
    }
}

/// Why a checkpoint's attachment manifest is refused, or `None`: too many
/// files, then the first duplicate or oversized file, then a total over the
/// limit.
pub open spec fn manifest_error(files: Seq<CompactLlmFileEntry>) -> Option<Seq<char>> {
    if files.len() > COMPACT_LLM_MAX_FILE_COUNT {
        Some(
            "attachment count "@ + decimal_seq(files.len()) + " exceeds max "@ + decimal_seq(
                COMPACT_LLM_MAX_FILE_COUNT as nat,
            ),
        )
    } else if entries_error(files, files.len() as int) is Some {
        entries_error(files, files.len() as int)
    } else if total_bytes(files, files.len() as int) > COMPACT_LLM_MAX_TOTAL_BYTES {
        Some(
            "attachment total "@ + decimal_seq(total_bytes(files, files.len() as int) as nat)
                + " exceeds max "@ + decimal_seq(COMPACT_LLM_MAX_TOTAL_BYTES as nat) + " bytes"@,
        )
    } else {
        None
    }
}

/// Checks a checkpoint's attachment list before any file is read; see
/// [`manifest_error`].
pub fn check_attachment_manifest(files: &Vec<CompactLlmFileEntry>) -> (r: Result<(), CompactLlmError>)
    ensures
        match manifest_error(files@) {
            None => r is Ok,
            Some(m) => r matches Err(e) && e@ == LlmFailure::Checkpoint(m),
        },
{
    if files.len() > COMPACT_LLM_MAX_FILE_COUNT {
        let mut m = "attachment count ".to_owned();
        push_decimal(&mut m, files.len() as u64);
        push_str(&mut m, " exceeds max ");
        push_decimal(&mut m, COMPACT_LLM_MAX_FILE_COUNT as u64);
        return Err(CompactLlmError::checkpoint(m));
    }
    let mut total: u64 = 0;
    let mut i: usize = 0;
    while i < files.len()
        invariant
            i <= files.len() <= COMPACT_LLM_MAX_FILE_COUNT,
            entries_error(files@, i as int) is None,
            total == total_bytes(files@, i as int),
            total <= i * COMPACT_LLM_MAX_FILE_BYTES,
        decreases files.len() - i,
    {
        let e = &files[i];
        let mut j: usize = 0;
        while j < i
            invariant
                j <= i < files.len(),
                *e == files@[i as int],
                files.len() <= COMPACT_LLM_MAX_FILE_COUNT,
                entries_error(files@, i as int) is None,
                forall|k: int| 0 <= k < j ==> files@[k].path@ != files@[i as int].path@,
            decreases i - j,
        {
            if str_eq(files[j].path.as_str(), e.path.as_str()) {
                let mut m = "duplicate attachment path ".to_owned();
                push_str(&mut m, e.path.as_str());
                proof {
                    assert(files@[j as int].path@ == files@[i as int].path@);
                    assert(exists|k: int| 0 <= k < i && #[trigger] files@[k].path@ == files@[i as int].path@);
                    assert(entries_error(files@, i + 1) == Some("duplicate attachment path "@ + e.path@));
                    lemma_entries_error_stays(files@, i + 1, files.len() as int);
                }
                return Err(CompactLlmError::checkpoint(m));
            }
            j += 1;
        }
        if e.bytes > COMPACT_LLM_MAX_FILE_BYTES {
            let mut m = "attachment ".to_owned();
            push_str(&mut m, e.path.as_str());
            push_str(&mut m, " exceeds max ");
            push_decimal(&mut m, COMPACT_LLM_MAX_FILE_BYTES);
            push_str(&mut m, " bytes");
            proof {
                lemma_entries_error_stays(files@, i + 1, files.len() as int);
            }
            return Err(CompactLlmError::checkpoint(m));
        }
        proof {
            assert(i * COMPACT_LLM_MAX_FILE_BYTES + COMPACT_LLM_MAX_FILE_BYTES == (i + 1)
                * COMPACT_LLM_MAX_FILE_BYTES) by (nonlinear_arith);
            assert((i + 1) * COMPACT_LLM_MAX_FILE_BYTES <= 16 * 262144) by (nonlinear_arith)
                requires
                    i + 1 <= 16,
            ;
        }
        total = total + e.bytes;
        i += 1;
    }
    if total > COMPACT_LLM_MAX_TOTAL_BYTES {
        let mut m = "attachment total ".to_owned();
        push_decimal(&mut m, total);
        push_str(&mut m, " exceeds max ");
        push_decimal(&mut m, COMPACT_LLM_MAX_TOTAL_BYTES);
        push_str(&mut m, " bytes");
        return Err(CompactLlmError::checkpoint(m));
    }
    Ok(())
}

/// A failure found in the first `n` entries is the failure of any longer
/// prefix.
proof fn lemma_entries_error_stays(files: Seq<CompactLlmFileEntry>, n: int, m: int)
    requires
        0 <= n <= m,
        entries_error(files, n) is Some,
    ensures
        entries_error(files, m) == entries_error(files, n),
    decreases m - n,
{
    if n < m {
        lemma_entries_error_stays(files, n, m - 1);
    }
}

/// `r` is the checkpoint failure with message `m`.
pub open spec fn checkpoint_err<T>(r: Result<T, CompactLlmError>, m: Seq<char>) -> bool {
    r matches Err(e) && e@ == LlmFailure::Checkpoint(m)
}

/// Checks what `stat` reported of an attachment: not a symlink, a regular
/// file, and the size the manifest records.
pub fn check_attachment_meta(entry: &CompactLlmFileEntry, is_symlink: bool, is_file: bool, len: u64) -> (r: Result<(), CompactLlmError>)
    ensures
        is_symlink ==> checkpoint_err(r, 
            "attachment path is a symlink: "@ + entry.path@,
        ),
        !is_symlink && !is_file ==> checkpoint_err(r, 
            "attachment is not a file: "@ + entry.path@,
        ),
        !is_symlink && is_file && len != entry.bytes ==> checkpoint_err(r, 
            "attachment "@ + entry.path@ + " size "@ + decimal_seq(len as nat)
                + " does not match manifest "@ + decimal_seq(entry.bytes as nat),
        ),
        !is_symlink && is_file && len == entry.bytes ==> r is Ok,
{
    if is_symlink {
        let mut m = "attachment path is a symlink: ".to_owned();
        push_str(&mut m, entry.path.as_str());
        return Err(CompactLlmError::checkpoint(m));
    }
    if !is_file {
        let mut m = "attachment is not a file: ".to_owned();
        push_str(&mut m, entry.path.as_str());
        return Err(CompactLlmError::checkpoint(m));
    }
    if len != entry.bytes {
        return Err(CompactLlmError::checkpoint(size_mismatch(entry, len)));
    }
    Ok(())
}

fn size_mismatch(entry: &CompactLlmFileEntry, len: u64) -> (r: String)
    ensures
        r@ == "attachment "@ + entry.path@ + " size "@ + decimal_seq(len as nat)
            + " does not match manifest "@ + decimal_seq(entry.bytes as nat),
{
    let mut m = "attachment ".to_owned();
    push_str(&mut m, entry.path.as_str());
    push_str(&mut m, " size ");
    push_decimal(&mut m, len);
    push_str(&mut m, " does not match manifest ");
    push_decimal(&mut m, entry.bytes);
    m
}

/// Checks the bytes read for an attachment: the recorded size, the recorded
/// SHA-256, and valid UTF-8; the text on success.
pub fn check_attachment_bytes(entry: &CompactLlmFileEntry, bytes: Vec<u8>) -> (r: Result<String, CompactLlmError>)
    ensures
        bytes@.len() != entry.bytes ==> checkpoint_err(r, 
            "attachment "@ + entry.path@ + " size "@ + decimal_seq(bytes@.len())
                + " does not match manifest "@ + decimal_seq(entry.bytes as nat),
        ),
        bytes@.len() == entry.bytes && sha256_hex_spec(bytes@) != entry.sha256@ ==> checkpoint_err(r, "attachment "@ + entry.path@ + " sha256 mismatch"@),
        bytes@.len() == entry.bytes && sha256_hex_spec(bytes@) == entry.sha256@ && !valid_utf8(
            bytes@,
        ) ==> checkpoint_err(r, 
            "attachment "@ + entry.path@ + " is not UTF-8"@,
        ),
        bytes@.len() == entry.bytes && sha256_hex_spec(bytes@) == entry.sha256@ && valid_utf8(bytes@)
            ==> (r matches Ok(s) && s@ == decode_utf8(bytes@)),
{
    if bytes.len() as u64 != entry.bytes {
        return Err(CompactLlmError::checkpoint(size_mismatch(entry, bytes.len() as u64)));
    }
    let digest = sha256_hex(bytes.as_slice());
    if !str_eq(digest.as_str(), entry.sha256.as_str()) {
        let mut m = "attachment ".to_owned();
        push_str(&mut m, entry.path.as_str());
        push_str(&mut m, " sha256 mismatch");
        return Err(CompactLlmError::checkpoint(m));
    }
    match utf8_string(bytes) {
        Some(body) => Ok(body),
        None => {
            let mut m = "attachment ".to_owned();
            push_str(&mut m, entry.path.as_str());
            push_str(&mut m, " is not UTF-8");
            Err(CompactLlmError::checkpoint(m))
        },
    }
}

/// Whether a parsed checkpoint file is taken: its id names the file, it is
/// the one asked for (when one is), and it is a valid compaction id.
pub open spec fn accepted_spec(id: Seq<char>, stem: Seq<char>, expected: Option<Seq<char>>) -> bool {
    &&& id == stem
    &&& match expected {
        Some(e) => id == e,
        None => true,
    }
    &&& id_error(id) is None
}

/// The checks a checkpoint file passes after it parsed; a file that fails
/// one is skipped.
pub fn checkpoint_file_accepted(id: &str, stem: &str, expected: Option<&str>) -> (r: bool)
    ensures
        r == accepted_spec(
            id@,
            stem@,
            match expected {
                Some(e) => Some(e@),
                None => None,
            },
        ),
{
    if !str_eq(id, stem) {
        return false;
    }
    if let Some(e) = expected {
        if !str_eq(id, e) {
            return false;
        }
    }
    validate_id(id).is_ok()
}

// ----- recovery of the store's directories and expansion of summaries -----

pub open spec fn listed_text(ids: Seq<String>, id: Seq<char>) -> bool {
    exists|i: int| 0 <= i < ids.len() && #[trigger] ids[i]@ == id
}

/// A directory under `compactions/` that recovery removes: an unfinished
/// `.pending` one, or one no committed checkpoint owns.
pub open spec fn orphan_spec(name: Seq<char>, committed: Seq<String>) -> bool {
    has_suffix(name, PENDING_SUFFIX@) || !listed_text(committed, name)
}

pub fn is_orphan_dir(name: &str, committed: &Vec<String>) -> (r: bool)
    ensures
        r == orphan_spec(name@, committed@),
{
    if ends_with_lit(&chars_of(name), PENDING_SUFFIX) {
        return true;
    }
    let mut i: usize = 0;
    while i < committed.len()
        invariant
            i <= committed.len(),
            !has_suffix(name@, PENDING_SUFFIX@),
            forall|k: int| 0 <= k < i ==> committed@[k]@ != name@,
        decreases committed.len() - i,
    {
        if str_eq(committed[i].as_str(), name) {
            assert(committed@[i as int]@ == name@);
            return false;
        }
        i = i + 1;
    }
    true
}

/// What recovery does with the attachment directories of a committed
/// checkpoint.
#[derive(Debug, Clone, Copy, PartialEq, Eq, Structural)]
pub enum FilesDirAction {
    /// Nothing is left pending.
    Keep,
    /// The committed directory exists: drop the leftover pending one.
    RemovePending,
    /// The rename of the pending directory to the committed one was cut
    /// short: finish it.
    RenamePending,
}

pub fn committed_files_action(pending_exists: bool, committed_exists: bool) -> (r: FilesDirAction)
    ensures
        !pending_exists ==> r == FilesDirAction::Keep,
        pending_exists && committed_exists ==> r == FilesDirAction::RemovePending,
        pending_exists && !committed_exists ==> r == FilesDirAction::RenamePending,
{
    if !pending_exists {
        FilesDirAction::Keep
    } else if committed_exists {
        FilesDirAction::RemovePending
    } else {
        FilesDirAction::RenamePending
    }
}

/// The text part an attachment adds to an expanded summary.
pub open spec fn file_part_spec(path: Seq<char>, body: Seq<char>) -> Seq<char> {
    "## file: "@ + path + "\n"@ + body
}

/// The text parts an expanded summary gains: one per attachment, with its
/// verified body, in manifest order.
pub fn file_parts(entries: &Vec<CompactLlmFileEntry>, bodies: &Vec<String>) -> (r: Vec<String>)
    requires
        entries.len() == bodies.len(),
    ensures
        r.len() == entries.len(),
        forall|k: int| 0 <= k < r.len() ==> #[trigger] r@[k]@ == file_part_spec(entries@[k].path@, bodies@[k]@),
{
    let mut out: Vec<String> = Vec::new();
    let mut i: usize = 0;
    while i < entries.len()
        invariant
            i <= entries.len(),
            entries.len() == bodies.len(),
            out.len() == i,
            forall|k: int| 0 <= k < i ==> #[trigger] out@[k]@ == file_part_spec(entries@[k].path@, bodies@[k]@),
        decreases entries.len() - i,
    {
        let mut part = "## file: ".to_owned();
        push_str(&mut part, entries[i].path.as_str());
        push_str(&mut part, "\n");
        push_str(&mut part, bodies[i].as_str());
        out.push(part);
        i = i + 1;
    }
    out
}

} // verus!
