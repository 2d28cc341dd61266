//! Which language servers a workspace calls for: a manifest file at the root,
//! or a file with one of the server's extensions. The walk over the tree is
//! the caller's; these functions decide what each observation means.

use vstd::prelude::*;

use crate::code_intel::config::{
    strings_view, strs_view, CustomLspServer, CustomView, PresetLsp, PresetView,
};
use crate::context::compact_llm::sandbox::{full_components, full_components_of, pieces_eq};
use crate::path_text::{extension, extension_spec, join_path, join_spec, opt_chars, pieces_view};
use crate::text::{chars_of, has_prefix, lower_seq, push_char, push_str, str_eq, string_from_chars, to_ascii_lowercase};

verus! {

/// Files looked at before the walk gives up.
pub const DETECT_MAX_FILES: usize = 5000;

pub struct DetectedLanguage {
    pub server_id: String,
    pub via_manifest: bool,
    pub via_extension: bool,
}

impl View for DetectedLanguage {
    type V = (Seq<char>, bool, bool);

    open spec fn view(&self) -> (Seq<char>, bool, bool) {
        (self.server_id@, self.via_manifest, self.via_extension)
    }
}

/// One server being looked for.
pub struct Candidate {
    pub server_id: String,
    pub manifests: Vec<String>,
    pub extensions: Vec<String>,
    pub via_manifest: bool,
    pub via_extension: bool,
}

pub struct CandidateView {
    pub server_id: Seq<char>,
    pub manifests: Seq<Seq<char>>,
    pub extensions: Seq<Seq<char>>,
    pub via_manifest: bool,
    pub via_extension: bool,
}

impl View for Candidate {
    type V = CandidateView;

    open spec fn view(&self) -> CandidateView {
        CandidateView {
            server_id: self.server_id@,
            manifests: strings_view(self.manifests@),
            extensions: strings_view(self.extensions@),
            via_manifest: self.via_manifest,
            via_extension: self.via_extension,
        }
    }
}

pub open spec fn candidates_view(c: Seq<Candidate>) -> Seq<CandidateView> {
    c.map_values(|x: Candidate| x@)
}

/// An extension as matched: ASCII-lowercased, with a leading `.`.
pub open spec fn normalized_ext(ext: Seq<char>) -> Seq<char> {
    let lower = lower_seq(ext);
    if has_prefix(lower, "."@) {
        lower
    } else {
        seq!['.'] + lower
    }
}

pub open spec fn normalized_exts(exts: Seq<Seq<char>>) -> Seq<Seq<char>> {
    exts.map_values(|e: Seq<char>| normalized_ext(e))
}

pub open spec fn preset_candidate(p: PresetView) -> CandidateView {
    CandidateView {
        server_id: p.id,
        manifests: p.manifests,
        extensions: normalized_exts(p.extensions),
        via_manifest: false,
        via_extension: false,
    }
}

pub open spec fn custom_candidate(c: CustomView) -> CandidateView {
    CandidateView {
        server_id: c.id,
        manifests: c.manifests,
        extensions: normalized_exts(c.extensions),
        via_manifest: false,
        via_extension: false,
    }
}

/// Presets first, then custom servers, none found yet.
pub open spec fn candidates_spec(presets: Seq<PresetView>, custom: Seq<CustomView>) -> Seq<
    CandidateView,
> {
    presets.map_values(|p: PresetView| preset_candidate(p)) + custom.map_values(
        |c: CustomView| custom_candidate(c),
    )
}

/// `ext` lowercased, with a leading `.` added when it has none.
pub fn normalize_ext(ext: &str) -> (r: String)
    ensures
        r@ == normalized_ext(ext@),
{
    let lower = to_ascii_lowercase(&chars_of(ext));
    if lower.len() > 0 && lower[0] == '.' {
        assert(has_prefix(lower@, "."@)) by {
            reveal_strlit(".");
            assert(lower@.take(1) =~= "."@);
        }
        string_from_chars(&lower)
    } else {
        assert(!has_prefix(lower@, "."@)) by {
            reveal_strlit(".");
            if lower@.len() >= 1 {
                assert(lower@.take(1)[0] == lower@[0]);
            }
        }
        let mut s = String::new();
        push_char(&mut s, '.');
        let t = string_from_chars(&lower);
        push_str(&mut s, t.as_str());
        assert(s@ =~= seq!['.'] + lower@);
        s
    }
}

/// Normalized forms of `exts`, in order.
pub fn normalize_extensions(exts: &Vec<String>) -> (r: Vec<String>)
    ensures
        strings_view(r@) == normalized_exts(strings_view(exts@)),
{
    let mut out: Vec<String> = Vec::new();
    let mut i: usize = 0;
    while i < exts.len()
        invariant
            i <= exts.len(),
            strings_view(out@) == normalized_exts(strings_view(exts@.take(i as int))),
        decreases exts.len() - i,
    {
        let ghost before = out@;
        out.push(normalize_ext(exts[i].as_str()));
        assert(strings_view(exts@.take(i + 1)) =~= strings_view(exts@.take(i as int)).push(
            exts@[i as int]@,
        ));
        assert(strings_view(out@) =~= strings_view(before).push(normalized_ext(exts@[i as int]@)));
        assert(normalized_exts(strings_view(exts@.take(i + 1))) =~= normalized_exts(
            strings_view(exts@.take(i as int)),
        ).push(normalized_ext(exts@[i as int]@)));
        i += 1;
    }
    assert(exts@.take(exts.len() as int) =~= exts@);
    out
}

fn owned_strs(v: &Vec<&'static str>) -> (r: Vec<String>)
    ensures
        strings_view(r@) == strs_view(v@),
{
    let mut out: Vec<String> = Vec::new();
    let mut i: usize = 0;
    while i < v.len()
        invariant
            i <= v.len(),
            strings_view(out@) == strs_view(v@.take(i as int)),
        decreases v.len() - i,
    {
        let ghost before = out@;
        out.push(v[i].to_owned());
        assert(strings_view(out@) =~= strings_view(before).push(v@[i as int]@));
        assert(strs_view(v@.take(i + 1)) =~= strs_view(v@.take(i as int)).push(v@[i as int]@));
        i += 1;
    }
    assert(v@.take(v.len() as int) =~= v@);
    out
}

fn clone_strings(v: &Vec<String>) -> (r: Vec<String>)
    ensures
        strings_view(r@) == strings_view(v@),
{
    let mut out: Vec<String> = Vec::new();
    let mut i: usize = 0;
    while i < v.len()
        invariant
            i <= v.len(),
            strings_view(out@) == strings_view(v@.take(i as int)),
        decreases v.len() - i,
    {
        let ghost before = out@;
        out.push(v[i].clone());
        assert(strings_view(out@) =~= strings_view(before).push(v@[i as int]@));
        assert(strings_view(v@.take(i + 1)) =~= strings_view(v@.take(i as int)).push(
            v@[i as int]@,
        ));
        i += 1;
    }
    assert(v@.take(v.len() as int) =~= v@);
    out
}

/// One candidate per preset, then one per custom server, none found yet.
pub fn build_candidates(presets: &Vec<PresetLsp>, custom: &Vec<CustomLspServer>) -> (r: Vec<
    Candidate,
>)
    ensures
        candidates_view(r@) == candidates_spec(
            presets@.map_values(|p: PresetLsp| p@),
            custom@.map_values(|c: CustomLspServer| c@),
        ),
{
    let ghost ps = presets@.map_values(|p: PresetLsp| p@);
    let ghost cs = custom@.map_values(|c: CustomLspServer| c@);
    let mut out: Vec<Candidate> = Vec::new();
    let mut i: usize = 0;
    while i < presets.len()
        invariant
            i <= presets.len(),
            ps == presets@.map_values(|p: PresetLsp| p@),
            candidates_view(out@) == ps.take(i as int).map_values(
                |p: PresetView| preset_candidate(p),
            ),
        decreases presets.len() - i,
    {
        let p = &presets[i];
        let exts = owned_strs(&p.extensions);
        let c = Candidate {
            server_id: p.id.to_owned(),
            manifests: owned_strs(&p.manifests),
            extensions: normalize_extensions(&exts),
            via_manifest: false,
            via_extension: false,
        };
        let ghost before = out@;
        out.push(c);
        assert(candidates_view(out@) =~= candidates_view(before).push(
            preset_candidate(ps[i as int]),
        ));
        assert(ps.take(i + 1).map_values(|p: PresetView| preset_candidate(p)) =~= ps.take(
            i as int,
        ).map_values(|p: PresetView| preset_candidate(p)).push(preset_candidate(ps[i as int])));
        i += 1;
    }
    assert(ps.take(presets.len() as int) =~= ps);
    let ghost first = candidates_view(out@);
    let mut j: usize = 0;
    while j < custom.len()
        invariant
            j <= custom.len(),
            cs == custom@.map_values(|c: CustomLspServer| c@),
            candidates_view(out@) == first + cs.take(j as int).map_values(
                |c: CustomView| custom_candidate(c),
            ),
        decreases custom.len() - j,
    {
        let s = &custom[j];
        let c = Candidate {
            server_id: s.id.clone(),
            manifests: clone_strings(&s.manifests),
            extensions: normalize_extensions(&s.extensions),
            via_manifest: false,
            via_extension: false,
        };
        let ghost before = out@;
        out.push(c);
        assert(candidates_view(out@) =~= candidates_view(before).push(
            custom_candidate(cs[j as int]),
        ));
        assert(cs.take(j + 1).map_values(|c: CustomView| custom_candidate(c)) =~= cs.take(
            j as int,
        ).map_values(|c: CustomView| custom_candidate(c)).push(custom_candidate(cs[j as int])));
        j += 1;
    }
    assert(cs.take(custom.len() as int) =~= cs);
    out
}

/// Every candidate was found by a manifest: no walk is needed.
pub fn all_via_manifest(candidates: &Vec<Candidate>) -> (r: bool)
    ensures
        r == forall|i: int| 0 <= i < candidates.len() ==> #[trigger] candidates@[i].via_manifest,
{
    let mut i: usize = 0;
    while i < candidates.len()
        invariant
            i <= candidates.len(),
            forall|k: int| 0 <= k < i ==> #[trigger] candidates@[k].via_manifest,
        decreases candidates.len() - i,
    {
        if !candidates[i].via_manifest {
            return false;
        }
        i += 1;
    }
    true
}

pub open spec fn found(c: CandidateView) -> bool {
    c.via_manifest || c.via_extension
}

/// Every candidate was found one way or the other: the walk can stop.
pub fn all_found(candidates: &Vec<Candidate>) -> (r: bool)
    ensures
        r == forall|i: int| 0 <= i < candidates.len() ==> #[trigger] found(candidates@[i]@),
{
    let mut i: usize = 0;
    while i < candidates.len()
        invariant
            i <= candidates.len(),
            forall|k: int| 0 <= k < i ==> #[trigger] found(candidates@[k]@),
        decreases candidates.len() - i,
    {
        if !(candidates[i].via_manifest || candidates[i].via_extension) {
            assert(!found(candidates@[i as int]@));
            return false;
        }
        i += 1;
    }
    true
}

/// Records that candidate `i` has one of its manifests at the root.
pub fn mark_manifest(candidates: &mut Vec<Candidate>, i: usize)
    requires
        i < old(candidates).len(),
    ensures
        candidates_view(final(candidates)@) == candidates_view(old(candidates)@).update(
            i as int,
            CandidateView { via_manifest: true, ..old(candidates)@[i as int]@ },
        ),
{
    let ghost before = candidates_view(candidates@);
    let mut c = candidates.remove(i);
    c.via_manifest = true;
    candidates.insert(i, c);
    assert(candidates_view(candidates@) =~= before.update(
        i as int,
        CandidateView { via_manifest: true, ..before[i as int] },
    ));
}

/// A candidate takes a walked file: it is not found yet, the file's
/// extension is one of its own, and the file may be read.
pub open spec fn takes_file(c: CandidateView, ext: Seq<char>, readable: bool) -> bool {
    !found(c) && c.extensions.contains(ext) && readable
}

pub open spec fn observe_spec(c: CandidateView, ext: Seq<char>, readable: bool) -> CandidateView {
    if takes_file(c, ext, readable) {
        CandidateView { via_extension: true, ..c }
    } else {
        c
    }
}

fn has_string(v: &Vec<String>, s: &str) -> (r: bool)
    ensures
        r == strings_view(v@).contains(s@),
{
    let mut i: usize = 0;
    while i < v.len()
        invariant
            i <= v.len(),
            forall|k: int| 0 <= k < i ==> #[trigger] v@[k]@ != s@,
        decreases v.len() - i,
    {
        if str_eq(v[i].as_str(), s) {
            assert(strings_view(v@)[i as int] == s@);
            return true;
        }
        i += 1;
    }
    assert forall|k: int| 0 <= k < strings_view(v@).len() implies strings_view(v@)[k] != s@ by {
        assert(strings_view(v@)[k] == v@[k]@);
    }
    false
}

/// One walked file (not a manifest path) with extension `ext` (normalized)
/// and whether it may be read: every candidate that takes it is found by
/// extension.
pub fn observe_file(candidates: &mut Vec<Candidate>, ext: &str, readable: bool)
    ensures
        candidates_view(final(candidates)@) == candidates_view(old(candidates)@).map_values(
            |c: CandidateView| observe_spec(c, ext@, readable),
        ),
{
    let ghost start = candidates_view(candidates@);
    let mut i: usize = 0;
    while i < candidates.len()
        invariant
            i <= candidates.len(),
            start.len() == candidates.len(),
            forall|k: int|
                0 <= k < i ==> #[trigger] candidates_view(candidates@)[k] == observe_spec(
                    start[k],
                    ext@,
                    readable,
                ),
            forall|k: int|
                i <= k < candidates.len() ==> #[trigger] candidates_view(candidates@)[k]
                    == start[k],
        decreases candidates.len() - i,
    {
        let hit = !(candidates[i].via_manifest || candidates[i].via_extension) && readable
            && has_string(&candidates[i].extensions, ext);
        if hit {
            let ghost before = candidates_view(candidates@);
            let mut c = candidates.remove(i);
            c.via_extension = true;
            candidates.insert(i, c);
            assert(candidates_view(candidates@) =~= before.update(
                i as int,
                CandidateView { via_extension: true, ..before[i as int] },
            ));
        }
        i += 1;
    }
    assert(candidates_view(candidates@) =~= start.map_values(
        |c: CandidateView| observe_spec(c, ext@, readable),
    ));
}

/// Extension of a walked file as matched: `.` and the lowercased extension.
pub open spec fn file_ext_spec(path: Seq<char>) -> Option<Seq<char>> {
    match extension_spec(path) {
        Some(e) => Some(seq!['.'] + lower_seq(e)),
        None => None,
    }
}

pub fn file_extension(path: &str) -> (r: Option<String>)
    ensures
        match r {
            Some(s) => file_ext_spec(path@) == Some(s@),
            None => file_ext_spec(path@) is None,
        },
{
    match extension(&chars_of(path)) {
        None => None,
        Some(e) => {
            let lower = to_ascii_lowercase(&e);
            let mut s = String::new();
            push_char(&mut s, '.');
            let t = string_from_chars(&lower);
            push_str(&mut s, t.as_str());
            assert(s@ =~= seq!['.'] + lower@);
            Some(s)
        },
    }
}

/// Whether the walk goes on after `visited` files have been looked at: it
/// stops once the count passes [`DETECT_MAX_FILES`].
pub fn within_walk_budget(visited: usize) -> (r: bool)
    ensures
        r == (visited <= DETECT_MAX_FILES),
{
    visited <= DETECT_MAX_FILES
}

pub open spec fn finish_spec(c: Seq<CandidateView>) -> Seq<(Seq<char>, bool, bool)>
    decreases c.len(),
{
    if c.len() == 0 {
        Seq::empty()
    } else {
        let rest = finish_spec(c.drop_last());
        if found(c.last()) {
            rest.push((c.last().server_id, c.last().via_manifest, c.last().via_extension))
        } else {
            rest
        }
    }
}

/// The found candidates, in order.
pub fn finish(candidates: Vec<Candidate>) -> (r: Vec<DetectedLanguage>)
    ensures
        r@.map_values(|d: DetectedLanguage| d@) == finish_spec(candidates_view(candidates@)),
{
    let ghost cv = candidates_view(candidates@);
    let mut out: Vec<DetectedLanguage> = Vec::new();
    let mut i: usize = 0;
    while i < candidates.len()
        invariant
            i <= candidates.len(),
            cv == candidates_view(candidates@),
            out@.map_values(|d: DetectedLanguage| d@) == finish_spec(cv.take(i as int)),
        decreases candidates.len() - i,
    {
        assert(cv.take(i + 1).drop_last() =~= cv.take(i as int));
        assert(cv.take(i + 1).last() == candidates@[i as int]@);
        let c = &candidates[i];
        if c.via_manifest || c.via_extension {
            let ghost before = out@;
            out.push(
                DetectedLanguage {
                    server_id: c.server_id.clone(),
                    via_manifest: c.via_manifest,
                    via_extension: c.via_extension,
                },
            );
            assert(out@.map_values(|d: DetectedLanguage| d@) =~= before.map_values(
                |d: DetectedLanguage| d@,
            ).push((c.server_id@, c.via_manifest, c.via_extension)));
        }
        i += 1;
    }
    assert(cv.take(candidates.len() as int) =~= cv);
    out
}


/// Whether `path` names the same place as `a` (component by component, as
/// `Path` equality compares).
pub open spec fn same_path(a: Seq<char>, path: Seq<char>) -> bool {
    full_components(a) == full_components(path)
}

/// Whether `path` is one of the candidates' manifest files under `root`;
/// such a file was already counted and is not an extension hit.
pub open spec fn manifest_path_spec(root: Seq<char>, c: Seq<CandidateView>, path: Seq<char>) -> bool {
    exists|i: int, j: int|
        0 <= i < c.len() && 0 <= j < c[i].manifests.len() && same_path(
            join_spec(root, #[trigger] c[i].manifests[j]),
            path,
        )
}

pub fn is_manifest_path(root: &str, candidates: &Vec<Candidate>, path: &str) -> (r: bool)
    ensures
        r == manifest_path_spec(root@, candidates_view(candidates@), path@),
{
    let target = full_components_of(path);
    let ghost cv = candidates_view(candidates@);
    let mut i: usize = 0;
    while i < candidates.len()
        invariant
            i <= candidates.len(),
            cv == candidates_view(candidates@),
            pieces_view(target@) == full_components(path@),
            forall|a: int, b: int|
                0 <= a < i && 0 <= b < cv[a].manifests.len() ==> !same_path(
                    join_spec(root@, #[trigger] cv[a].manifests[b]),
                    path@,
                ),
        decreases candidates.len() - i,
    {
        let ms = &candidates[i].manifests;
        let mut j: usize = 0;
        while j < ms.len()
            invariant
                i < candidates.len(),
                j <= ms.len(),
                *ms == candidates@[i as int].manifests,
                cv == candidates_view(candidates@),
                pieces_view(target@) == full_components(path@),
                forall|b: int| 0 <= b < j ==> !same_path(
                    join_spec(root@, #[trigger] cv[i as int].manifests[b]),
                    path@,
                ),
            decreases ms.len() - j,
        {
            let joined = join_path(root, ms[j].as_str());
            let comps = full_components_of(joined.as_str());
            let same = comps.len() == target.len() && pieces_eq(&comps, &target, comps.len());
            proof {
                assert(cv[i as int].manifests[j as int] == ms@[j as int]@);
                assert(pieces_view(comps@).take(comps.len() as int) =~= pieces_view(comps@));
                assert(pieces_view(target@).take(comps.len() as int) =~= pieces_view(target@)
                    || comps.len() != target.len());
            }
            if same {
                assert(same_path(join_spec(root@, cv[i as int].manifests[j as int]), path@));
                return true;
            }
            j += 1;
        }
        i += 1;
    }
    false
}


/// What the walk does after a file.
#[derive(Debug, PartialEq, Eq, Structural)]
pub enum DetectAction {
    /// Go on to the next file.
    Continue,
    /// Stop walking: the file budget is spent or every server is found.
    Stop,
}

/// One file of the walk (not a directory, not the root), the `visited`-th
/// looked at, with whether it may be read. Past the file budget the walk
/// stops and nothing changes; a manifest path or a file without an
/// extension changes nothing; any other file is observed, and the walk stops
/// once every candidate is found.
pub fn detect_step(
    candidates: &mut Vec<Candidate>,
    root: &str,
    visited: usize,
    path: &str,
    readable: bool,
) -> (r: DetectAction)
    ensures
        visited > DETECT_MAX_FILES ==> r == DetectAction::Stop && candidates_view(final(candidates)@)
            == candidates_view(old(candidates)@),
        visited <= DETECT_MAX_FILES && (manifest_path_spec(
            root@,
            candidates_view(old(candidates)@),
            path@,
        ) || file_ext_spec(path@) is None) ==> r == DetectAction::Continue && candidates_view(
            final(candidates)@,
        ) == candidates_view(old(candidates)@),
        visited <= DETECT_MAX_FILES && !manifest_path_spec(
            root@,
            candidates_view(old(candidates)@),
            path@,
        ) && file_ext_spec(path@) is Some ==> {
            let ext = file_ext_spec(path@)->0;
            &&& candidates_view(final(candidates)@) == candidates_view(old(candidates)@).map_values(
                |c: CandidateView| observe_spec(c, ext, readable),
            )
            &&& (r == DetectAction::Stop) == forall|i: int|
                0 <= i < final(candidates).len() ==> #[trigger] found(final(candidates)@[i]@)
        },
{
    if !within_walk_budget(visited) {
        return DetectAction::Stop;
    }
    if is_manifest_path(root, candidates, path) {
        return DetectAction::Continue;
    }
    match file_extension(path) {
        None => DetectAction::Continue,
        Some(ext) => {
            observe_file(candidates, ext.as_str(), readable);
            if all_found(candidates) {
                DetectAction::Stop
            } else {
                DetectAction::Continue
            }
        },
    }
}

} // verus!
