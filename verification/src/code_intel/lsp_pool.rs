//! Language-server selection for a workspace: which servers to start, which
//! one serves a file, the LSP language id of a file, and how to launch a
//! server. Spawning and talking to the servers is the caller's.

use vstd::prelude::*;

use crate::code_intel::config::{
    preset_lsp_servers, preset_table, strings_view, strs_view, CodeIntelConfig, ConfigView,
    CustomLspServer, CustomView, PresetLsp, PresetView,
};
use crate::code_intel::detect::{normalize_ext, normalized_ext, DetectedLanguage};
use crate::native_config::opt_str_view;
use crate::path_text::{extension, extension_spec};
use crate::text::{
    any_whitespace, chars_of, contains_char, decimal_seq, eq_lit, is_ws, lower_seq, push_decimal,
    push_str, str_eq, string_from_chars, to_ascii_lowercase, trim_seq, trim_vec,
};

verus! {

pub const NO_SERVER_MESSAGE: &'static str = "no language server eligible for this file; fall back to grep";

/// Ids offered for starting: presets in order, then custom servers.
pub open spec fn offered_ids(custom: Seq<CustomView>) -> Seq<Seq<char>> {
    preset_table().map_values(|p: PresetView| p.id) + custom.map_values(|c: CustomView| c.id)
}

/// Ids to probe: offered, checked and detected, each once, in offer order.
pub open spec fn probe_ids(
    ids: Seq<Seq<char>>,
    checked: Seq<Seq<char>>,
    detected: Seq<Seq<char>>,
) -> Seq<Seq<char>>
    decreases ids.len(),
{
    if ids.len() == 0 {
        Seq::empty()
    } else {
        let rest = probe_ids(ids.drop_last(), checked, detected);
        let id = ids.last();
        if checked.contains(id) && detected.contains(id) && !rest.contains(id) {
            rest.push(id)
        } else {
            rest
        }
    }
}

pub open spec fn detected_ids(d: Seq<DetectedLanguage>) -> Seq<Seq<char>> {
    d.map_values(|x: DetectedLanguage| x.server_id@)
}

/// What [`servers_to_start`] probes: nothing unless code intelligence and
/// auto-attach are both on.
pub open spec fn start_candidates(cfg: ConfigView, detected: Seq<DetectedLanguage>) -> Seq<
    Seq<char>,
> {
    if !cfg.enabled || !cfg.auto_attach {
        Seq::empty()
    } else {
        probe_ids(offered_ids(cfg.custom), cfg.checked, detected_ids(detected))
    }
}

/// The ids whose answer is `true`.
pub open spec fn keep_by(ids: Seq<Seq<char>>, answers: Seq<bool>) -> Seq<Seq<char>>
    decreases ids.len(),
{
    if ids.len() == 0 || answers.len() == 0 {
        Seq::empty()
    } else {
        let rest = keep_by(ids.drop_last(), answers.drop_last());
        if answers.last() {
            rest.push(ids.last())
        } else {
            rest
        }
    }
}

fn contains_str_seq(v: &Vec<String>, s: &str) -> (r: bool)
    ensures
        r == strings_view(v@).contains(s@),
{
    let mut i: usize = 0;
    while i < v.len()
        invariant
            i <= v.len(),
            forall|k: int| 0 <= k < i ==> #[trigger] v@[k]@ != s@,
        decreases v.len() - i,
    {
        if str_eq(v[i].as_str(), s) {
            assert(strings_view(v@)[i as int] == s@);
            return true;
        }
        i += 1;
    }
    assert forall|k: int| 0 <= k < strings_view(v@).len() implies strings_view(v@)[k] != s@ by {
        assert(strings_view(v@)[k] == v@[k]@);
    }
    false
}

fn detected_has(d: &Vec<DetectedLanguage>, s: &str) -> (r: bool)
    ensures
        r == detected_ids(d@).contains(s@),
{
    let mut i: usize = 0;
    while i < d.len()
        invariant
            i <= d.len(),
            forall|k: int| 0 <= k < i ==> #[trigger] d@[k].server_id@ != s@,
        decreases d.len() - i,
    {
        if str_eq(d[i].server_id.as_str(), s) {
            assert(detected_ids(d@)[i as int] == s@);
            return true;
        }
        i += 1;
    }
    assert forall|k: int| 0 <= k < detected_ids(d@).len() implies detected_ids(d@)[k] != s@ by {
        assert(detected_ids(d@)[k] == d@[k].server_id@);
    }
    false
}

fn offered(cfg: &CodeIntelConfig) -> (r: Vec<String>)
    ensures
        strings_view(r@) == offered_ids(cfg@.custom),
{
    let presets = preset_lsp_servers();
    let mut out: Vec<String> = Vec::new();
    let mut i: usize = 0;
    let ghost pt = preset_table().map_values(|p: PresetView| p.id);
    while i < presets.len()
        invariant
            i <= presets.len(),
            presets@.map_values(|p: PresetLsp| p@) == preset_table(),
            pt == preset_table().map_values(|p: PresetView| p.id),
            strings_view(out@) == pt.take(i as int),
        decreases presets.len() - i,
    {
        let ghost before = out@;
        out.push(presets[i].id.to_owned());
        assert(pt[i as int] == presets@[i as int]@.id);
        assert(strings_view(out@) =~= strings_view(before).push(pt[i as int]));
        assert(pt.take(i + 1) =~= pt.take(i as int).push(pt[i as int]));
        i += 1;
    }
    assert(pt.take(presets.len() as int) =~= pt);
    let ghost ct = cfg@.custom.map_values(|c: CustomView| c.id);
    let mut j: usize = 0;
    while j < cfg.lsp.custom.len()
        invariant
            j <= cfg.lsp.custom.len(),
            ct == cfg@.custom.map_values(|c: CustomView| c.id),
            strings_view(out@) == pt + ct.take(j as int),
        decreases cfg.lsp.custom.len() - j,
    {
        let ghost before = out@;
        out.push(cfg.lsp.custom[j].id.clone());
        assert(ct[j as int] == cfg.lsp.custom@[j as int].id@);
        assert(strings_view(out@) =~= strings_view(before).push(ct[j as int]));
        assert(ct.take(j + 1) =~= ct.take(j as int).push(ct[j as int]));
        j += 1;
    }
    assert(ct.take(cfg.lsp.custom.len() as int) =~= ct);
    out
}

/// The ids [`servers_to_start`] probes; see [`start_candidates`].
pub fn start_candidate_ids(cfg: &CodeIntelConfig, detected: &Vec<DetectedLanguage>) -> (r: Vec<
    String,
>)
    ensures
        strings_view(r@) == start_candidates(cfg@, detected@),
{
    if !cfg.enabled || !cfg.lsp.auto_attach {
        let r: Vec<String> = Vec::new();
        assert(strings_view(r@) =~= Seq::<Seq<char>>::empty());
        return r;
    }
    let ids = offered(cfg);
    let ghost iv = strings_view(ids@);
    let mut out: Vec<String> = Vec::new();
    let mut i: usize = 0;
    while i < ids.len()
        invariant
            i <= ids.len(),
            iv == strings_view(ids@),
            strings_view(out@) == probe_ids(
                iv.take(i as int),
                cfg@.checked,
                detected_ids(detected@),
            ),
        decreases ids.len() - i,
    {
        assert(iv.take(i + 1).drop_last() =~= iv.take(i as int));
        assert(iv.take(i + 1).last() == ids@[i as int]@);
        let id = ids[i].as_str();
        if contains_str_seq(&cfg.lsp.checked, id) && detected_has(detected, id)
            && !contains_str_seq(&out, id) {
            let ghost before = out@;
            out.push(ids[i].clone());
            assert(strings_view(out@) =~= strings_view(before).push(ids@[i as int]@));
        }
        i += 1;
    }
    assert(iv.take(ids.len() as int) =~= iv);
    out
}

/// `f` answered `b` when asked about `id`.
pub open spec fn answered<F: Fn(&str) -> bool>(f: F, id: Seq<char>, b: bool) -> bool {
    exists|s: &str| s@ == id && #[trigger] f.ensures((s,), b)
}

/// Language servers to start for this workspace: each id that is offered,
/// checked and detected (once, presets first) and for which `on_path`
/// answers `true`. Nothing when code intelligence or auto-attach is off.
pub fn servers_to_start<F: Fn(&str) -> bool>(
    cfg: &CodeIntelConfig,
    detected: &Vec<DetectedLanguage>,
    on_path: &F,
) -> (r: Vec<String>)
    requires
        forall|s: &str| on_path.requires((s,)),
    ensures
        exists|answers: Seq<bool>|
            {
                &&& answers.len() == start_candidates(cfg@, detected@).len()
                &&& forall|k: int|
                    0 <= k < answers.len() ==> #[trigger] answered(
                        *on_path,
                        start_candidates(cfg@, detected@)[k],
                        answers[k],
                    )
                &&& strings_view(r@) == keep_by(start_candidates(cfg@, detected@), answers)
            },
{
    let cands = start_candidate_ids(cfg, detected);
    let ghost cv = strings_view(cands@);
    let ghost mut answers: Seq<bool> = Seq::empty();
    let mut out: Vec<String> = Vec::new();
    let mut i: usize = 0;
    while i < cands.len()
        invariant
            i <= cands.len(),
            cv == strings_view(cands@),
            forall|s: &str| on_path.requires((s,)),
            answers.len() == i,
            forall|k: int| 0 <= k < i ==> #[trigger] answered(*on_path, cv[k], answers[k]),
            strings_view(out@) == keep_by(cv.take(i as int), answers),
        decreases cands.len() - i,
    {
        let s = cands[i].as_str();
        let b = on_path(s);
        let ghost before = out@;
        let ghost prev = answers;
        proof {
            answers = answers.push(b);
            assert(answers.drop_last() =~= prev);
            assert(cv.take(i + 1).drop_last() =~= cv.take(i as int));
            assert(answers.drop_last() =~= answers.take(i as int));
            assert(cv[i as int] == s@);
            assert(answered(*on_path, cv[i as int], b));
        }
        if b {
            out.push(cands[i].clone());
            assert(strings_view(out@) =~= strings_view(before).push(cv[i as int]));
        }
        i += 1;
    }
    assert(cv.take(cands.len() as int) =~= cv);
    out
}

/// LSP language id for a file extension (lowercased, without the dot).
pub open spec fn language_of_ext(e: Seq<char>) -> Option<Seq<char>> {
    if e == "rs"@ {
        Some("rust"@)
    } else if e == "go"@ {
        Some("go"@)
    } else if e == "py"@ {
        Some("python"@)
    } else if e == "js"@ || e == "jsx"@ || e == "mjs"@ || e == "cjs"@ {
        Some("javascript"@)
    } else if e == "ts"@ || e == "tsx"@ || e == "mts"@ || e == "cts"@ {
        Some("typescript"@)
    } else if e == "cpp"@ || e == "hpp"@ || e == "cc"@ || e == "cxx"@ || e == "hxx"@ || e
        == "hh"@ {
        Some("cpp"@)
    } else if e == "c"@ || e == "h"@ {
        Some("c"@)
    } else if e == "lua"@ {
        Some("lua"@)
    } else if e == "sh"@ || e == "bash"@ {
        Some("shell"@)
    } else if e == "yaml"@ || e == "yml"@ {
        Some("yaml"@)
    } else if e == "kt"@ || e == "kts"@ {
        Some("kotlin"@)
    } else if e == "zig"@ {
        Some("zig"@)
    } else if e == "toml"@ {
        Some("toml"@)
    } else {
        None
    }
}

pub open spec fn language_from_path(path: Option<Seq<char>>) -> Option<Seq<char>> {
    match path {
        None => None,
        Some(p) => match extension_spec(p) {
            Some(e) => language_of_ext(lower_seq(e)),
            None => None,
        },
    }
}

pub fn language_id_from_extension(path: Option<&str>) -> (r: Option<&'static str>)
    ensures
        match r {
            Some(s) => language_from_path(opt_str_view(path)) == Some(s@),
            None => language_from_path(opt_str_view(path)) is None,
        },
{
    let p = match path {
        Some(p) => p,
        None => return None,
    };
    let e = match extension(&chars_of(p)) {
        Some(e) => to_ascii_lowercase(&e),
        None => return None,
    };
    if eq_lit(&e, "rs") {
        Some("rust")
    } else if eq_lit(&e, "go") {
        Some("go")
    } else if eq_lit(&e, "py") {
        Some("python")
    } else if eq_lit(&e, "js") || eq_lit(&e, "jsx") || eq_lit(&e, "mjs") || eq_lit(&e, "cjs") {
        Some("javascript")
    } else if eq_lit(&e, "ts") || eq_lit(&e, "tsx") || eq_lit(&e, "mts") || eq_lit(&e, "cts") {
        Some("typescript")
    } else if eq_lit(&e, "cpp") || eq_lit(&e, "hpp") || eq_lit(&e, "cc") || eq_lit(&e, "cxx")
        || eq_lit(&e, "hxx") || eq_lit(&e, "hh") {
        Some("cpp")
    } else if eq_lit(&e, "c") || eq_lit(&e, "h") {
        Some("c")
    } else if eq_lit(&e, "lua") {
        Some("lua")
    } else if eq_lit(&e, "sh") || eq_lit(&e, "bash") {
        Some("shell")
    } else if eq_lit(&e, "yaml") || eq_lit(&e, "yml") {
        Some("yaml")
    } else if eq_lit(&e, "kt") || eq_lit(&e, "kts") {
        Some("kotlin")
    } else if eq_lit(&e, "zig") {
        Some("zig")
    } else if eq_lit(&e, "toml") {
        Some("toml")
    } else {
        None
    }
}

/// First custom server with id `id`.
pub open spec fn find_custom(custom: Seq<CustomView>, id: Seq<char>) -> Option<CustomView>
    decreases custom.len(),
{
    if custom.len() == 0 {
        None
    } else if custom[0].id == id {
        Some(custom[0])
    } else {
        find_custom(custom.drop_first(), id)
    }
}

/// First preset with id `id`.
pub open spec fn find_preset(t: Seq<PresetView>, id: Seq<char>) -> Option<PresetView>
    decreases t.len(),
{
    if t.len() == 0 {
        None
    } else if t[0].id == id {
        Some(t[0])
    } else {
        find_preset(t.drop_first(), id)
    }
}

/// Language id of a preset server.
pub open spec fn preset_language(id: Seq<char>) -> Option<Seq<char>> {
    if id == "clangd"@ {
        Some("cpp"@)
    } else if id == "typescript"@ {
        Some("typescript"@)
    } else if id == "rust-analyzer"@ {
        Some("rust"@)
    } else if id == "gopls"@ {
        Some("go"@)
    } else if id == "pyright"@ {
        Some("python"@)
    } else if id == "lua-ls"@ {
        Some("lua"@)
    } else if id == "bash-ls"@ {
        Some("shell"@)
    } else if id == "yaml-ls"@ {
        Some("yaml"@)
    } else if id == "kotlin-ls"@ {
        Some("kotlin"@)
    } else if id == "zls"@ {
        Some("zig"@)
    } else if id == "taplo"@ {
        Some("toml"@)
    } else {
        None
    }
}

/// A custom server's language as an LSP id: its trimmed, lowercased label
/// when that is one word without `/`, else `plaintext`.
pub open spec fn custom_language(label: Seq<char>) -> Seq<char> {
    let l = trim_seq(label);
    if l.len() == 0 || l.contains('/') || (exists|j: int| 0 <= j < l.len() && is_ws(#[trigger] l[j])) {
        "plaintext"@
    } else {
        lower_seq(l)
    }
}

pub open spec fn fallback_language(server_id: Seq<char>, cfg: ConfigView) -> Seq<char> {
    match preset_language(server_id) {
        Some(l) => l,
        None => match find_custom(cfg.custom, server_id) {
            Some(c) => custom_language(c.language),
            None => "plaintext"@,
        },
    }
}

fn find_custom_index(custom: &Vec<CustomLspServer>, id: &str) -> (r: Option<usize>)
    ensures
        match r {
            Some(i) => i < custom.len() && find_custom(
                custom@.map_values(|c: CustomLspServer| c@),
                id@,
            ) == Some(custom@[i as int]@),
            None => find_custom(custom@.map_values(|c: CustomLspServer| c@), id@) is None,
        },
{
    let ghost cs = custom@.map_values(|c: CustomLspServer| c@);
    let mut i: usize = 0;
    assert(cs.skip(0) =~= cs);
    while i < custom.len()
        invariant
            i <= custom.len(),
            cs == custom@.map_values(|c: CustomLspServer| c@),
            find_custom(cs, id@) == find_custom(cs.skip(i as int), id@),
        decreases custom.len() - i,
    {
        assert(cs.skip(i as int)[0] == custom@[i as int]@);
        assert(cs.skip(i as int).drop_first() =~= cs.skip(i + 1));
        if str_eq(custom[i].id.as_str(), id) {
            return Some(i);
        }
        i += 1;
    }
    None
}

fn find_preset_index(presets: &Vec<PresetLsp>, id: &str) -> (r: Option<usize>)
    ensures
        match r {
            Some(i) => i < presets.len() && find_preset(
                presets@.map_values(|p: PresetLsp| p@),
                id@,
            ) == Some(presets@[i as int]@),
            None => find_preset(presets@.map_values(|p: PresetLsp| p@), id@) is None,
        },
{
    let ghost ps = presets@.map_values(|p: PresetLsp| p@);
    let mut i: usize = 0;
    assert(ps.skip(0) =~= ps);
    while i < presets.len()
        invariant
            i <= presets.len(),
            ps == presets@.map_values(|p: PresetLsp| p@),
            find_preset(ps, id@) == find_preset(ps.skip(i as int), id@),
        decreases presets.len() - i,
    {
        assert(ps.skip(i as int)[0] == presets@[i as int]@);
        assert(ps.skip(i as int).drop_first() =~= ps.skip(i + 1));
        if str_eq(presets[i].id, id) {
            return Some(i);
        }
        i += 1;
    }
    None
}

fn custom_language_of(label: &str) -> (r: String)
    ensures
        r@ == custom_language(label@),
{
    let l = trim_vec(&chars_of(label));
    if l.len() == 0 || contains_char(&l, '/') || any_whitespace(&l) {
        "plaintext".to_owned()
    } else {
        string_from_chars(&to_ascii_lowercase(&l))
    }
}

pub fn language_id_fallback(server_id: &str, cfg: &CodeIntelConfig) -> (r: String)
    ensures
        r@ == fallback_language(server_id@, cfg@),
{
    let known = if str_eq(server_id, "clangd") {
        Some("cpp")
    } else if str_eq(server_id, "typescript") {
        Some("typescript")
    } else if str_eq(server_id, "rust-analyzer") {
        Some("rust")
    } else if str_eq(server_id, "gopls") {
        Some("go")
    } else if str_eq(server_id, "pyright") {
        Some("python")
    } else if str_eq(server_id, "lua-ls") {
        Some("lua")
    } else if str_eq(server_id, "bash-ls") {
        Some("shell")
    } else if str_eq(server_id, "yaml-ls") {
        Some("yaml")
    } else if str_eq(server_id, "kotlin-ls") {
        Some("kotlin")
    } else if str_eq(server_id, "zls") {
        Some("zig")
    } else if str_eq(server_id, "taplo") {
        Some("toml")
    } else {
        None
    };
    match known {
        Some(l) => l.to_owned(),
        None => match find_custom_index(&cfg.lsp.custom, server_id) {
            Some(i) => custom_language_of(cfg.lsp.custom[i].language.as_str()),
            None => "plaintext".to_owned(),
        },
    }
}

/// Language id of a file: from its extension, else from the server.
pub fn language_id_for_file(path: Option<&str>, server_id: &str, cfg: &CodeIntelConfig) -> (r:
    String)
    ensures
        r@ == match language_from_path(opt_str_view(path)) {
            Some(l) => l,
            None => fallback_language(server_id@, cfg@),
        },
{
    match language_id_from_extension(path) {
        Some(id) => id.to_owned(),
        None => language_id_fallback(server_id, cfg),
    }
}

/// Command and arguments that launch a server: a preset's binary, else the
/// first custom server with that id.
pub open spec fn launch_spec(cfg: ConfigView, id: Seq<char>) -> Option<(Seq<char>, Seq<Seq<char>>)> {
    match find_preset(preset_table(), id) {
        Some(p) => Some((p.binary, p.args)),
        None => match find_custom(cfg.custom, id) {
            Some(c) => Some((c.command, c.args)),
            None => None,
        },
    }
}

fn owned_args(v: &Vec<&'static str>) -> (r: Vec<String>)
    ensures
        strings_view(r@) == strs_view(v@),
{
    let mut out: Vec<String> = Vec::new();
    let mut i: usize = 0;
    while i < v.len()
        invariant
            i <= v.len(),
            strings_view(out@) == strs_view(v@.take(i as int)),
        decreases v.len() - i,
    {
        let ghost before = out@;
        out.push(v[i].to_owned());
        assert(strings_view(out@) =~= strings_view(before).push(v@[i as int]@));
        assert(strs_view(v@.take(i + 1)) =~= strs_view(v@.take(i as int)).push(v@[i as int]@));
        i += 1;
    }
    assert(v@.take(v.len() as int) =~= v@);
    out
}

fn copy_strings(v: &Vec<String>) -> (r: Vec<String>)
    ensures
        strings_view(r@) == strings_view(v@),
{
    let mut out: Vec<String> = Vec::new();
    let mut i: usize = 0;
    while i < v.len()
        invariant
            i <= v.len(),
            strings_view(out@) == strings_view(v@.take(i as int)),
        decreases v.len() - i,
    {
        let ghost before = out@;
        out.push(v[i].clone());
        assert(strings_view(out@) =~= strings_view(before).push(v@[i as int]@));
        assert(strings_view(v@.take(i + 1)) =~= strings_view(v@.take(i as int)).push(
            v@[i as int]@,
        ));
        i += 1;
    }
    assert(v@.take(v.len() as int) =~= v@);
    out
}

pub fn command_and_args(cfg: &CodeIntelConfig, id: &str) -> (r: Option<(String, Vec<String>)>)
    ensures
        match r {
            Some((c, a)) => launch_spec(cfg@, id@) == Some((c@, strings_view(a@))),
            None => launch_spec(cfg@, id@) is None,
        },
{
    let presets = preset_lsp_servers();
    match find_preset_index(&presets, id) {
        Some(i) => Some((presets[i].binary.to_owned(), owned_args(&presets[i].args))),
        None => match find_custom_index(&cfg.lsp.custom, id) {
            Some(j) => Some(
                (cfg.lsp.custom[j].command.clone(), copy_strings(&cfg.lsp.custom[j].args)),
            ),
            None => None,
        },
    }
}

/// Some extension of `list`, normalized, is `ext`.
pub open spec fn ext_listed(list: Seq<Seq<char>>, ext: Seq<char>) -> bool {
    exists|k: int| 0 <= k < list.len() && normalized_ext(#[trigger] list[k]) == ext
}

/// A server serves a file when the file's extension (lowercased, with `.`)
/// is one of the server's normalized extensions.
pub open spec fn matches_file_spec(cfg: ConfigView, server_id: Seq<char>, path: Seq<char>) -> bool {
    match extension_spec(path) {
        None => false,
        Some(e) => {
            let ext = seq!['.'] + lower_seq(e);
            let exts = match find_preset(preset_table(), server_id) {
                Some(p) => Some(p.extensions),
                None => match find_custom(cfg.custom, server_id) {
                    Some(c) => Some(c.extensions),
                    None => None,
                },
            };
            match exts {
                Some(list) => ext_listed(list, ext),
                None => false,
            }
        },
    }
}

fn any_normalized_eq(list: &Vec<String>, ext: &Vec<char>) -> (r: bool)
    ensures
        r == exists|k: int|
            0 <= k < list.len() && normalized_ext(#[trigger] strings_view(list@)[k]) == ext@,
{
    let mut i: usize = 0;
    while i < list.len()
        invariant
            i <= list.len(),
            forall|k: int| 0 <= k < i ==> normalized_ext(#[trigger] strings_view(list@)[k]) != ext@,
        decreases list.len() - i,
    {
        let n = normalize_ext(list[i].as_str());
        let nc = chars_of(n.as_str());
        if crate::text::chars_eq(&nc, ext) {
            assert(normalized_ext(strings_view(list@)[i as int]) == ext@);
            return true;
        }
        assert(strings_view(list@)[i as int] == list@[i as int]@);
        i += 1;
    }
    false
}

pub fn server_matches_file(cfg: &CodeIntelConfig, server_id: &str, path: &str) -> (r: bool)
    ensures
        r == matches_file_spec(cfg@, server_id@, path@),
{
    let e = match extension(&chars_of(path)) {
        Some(e) => e,
        None => return false,
    };
    let lower = to_ascii_lowercase(&e);
    let mut ext: Vec<char> = Vec::new();
    ext.push('.');
    let mut k: usize = 0;
    while k < lower.len()
        invariant
            k <= lower.len(),
            ext@ == seq!['.'] + lower@.take(k as int),
        decreases lower.len() - k,
    {
        ext.push(lower[k]);
        assert(lower@.take(k + 1) =~= lower@.take(k as int).push(lower@[k as int]));
        k += 1;
    }
    assert(lower@.take(lower.len() as int) =~= lower@);
    assert(ext@ == seq!['.'] + lower_seq(e@));
    let presets = preset_lsp_servers();
    match find_preset_index(&presets, server_id) {
        Some(i) => {
            let list = owned_args(&presets[i].extensions);
            let r = any_normalized_eq(&list, &ext);
            assert(strings_view(list@) == presets@[i as int]@.extensions);
            assert(extension_spec(path@) == Some(e@));
            assert(find_preset(preset_table(), server_id@) == Some(presets@[i as int]@));
            proof {
                let pe = presets@[i as int]@.extensions;
                let lv = strings_view(list@);
                assert(pe == lv);
                if r {
                    let k = choose|k: int|
                        0 <= k < list.len() && normalized_ext(#[trigger] lv[k]) == ext@;
                    assert(normalized_ext(pe[k]) == seq!['.'] + lower_seq(e@));
                } else {
                    assert forall|k: int| 0 <= k < pe.len() implies normalized_ext(
                        #[trigger] pe[k],
                    ) != seq!['.'] + lower_seq(e@) by {
                        assert(lv[k] == pe[k]);
                    }
                }
            }
            r
        },
        None => match find_custom_index(&cfg.lsp.custom, server_id) {
            Some(j) => {
                let r = any_normalized_eq(&cfg.lsp.custom[j].extensions, &ext);
                proof {
                    let pe = cfg@.custom[j as int].extensions;
                    let lv = strings_view(cfg.lsp.custom@[j as int].extensions@);
                    assert(pe == lv);
                    if r {
                        let k = choose|k: int|
                            0 <= k < lv.len() && normalized_ext(#[trigger] lv[k]) == ext@;
                        assert(normalized_ext(pe[k]) == seq!['.'] + lower_seq(e@));
                    } else {
                        assert forall|k: int| 0 <= k < pe.len() implies normalized_ext(
                            #[trigger] pe[k],
                        ) != seq!['.'] + lower_seq(e@) by {
                            assert(lv[k] == pe[k]);
                        }
                    }
                }
                r
            },
            None => false,
        },
    }
}

/// The server for a request: the requested id (trimmed) when given, else the
/// first eligible server that serves `path`, else (without a path) the first
/// eligible server.
pub open spec fn pick_spec(
    cfg: ConfigView,
    eligible: Seq<Seq<char>>,
    path: Option<Seq<char>>,
    requested: Option<Seq<char>>,
) -> Result<Seq<char>, Seq<char>> {
    match crate::native_config::trimmed_opt(requested) {
        Some(id) => Ok(id),
        None => match path {
            Some(p) => match first_matching(cfg, eligible, p) {
                Some(id) => Ok(id),
                None => Err(NO_SERVER_MESSAGE@),
            },
            None => if eligible.len() > 0 {
                Ok(eligible[0])
            } else {
                Err(NO_SERVER_MESSAGE@)
            },
        },
    }
}

pub open spec fn first_matching(cfg: ConfigView, ids: Seq<Seq<char>>, path: Seq<char>) -> Option<
    Seq<char>,
>
    decreases ids.len(),
{
    if ids.len() == 0 {
        None
    } else if matches_file_spec(cfg, ids[0], path) {
        Some(ids[0])
    } else {
        first_matching(cfg, ids.drop_first(), path)
    }
}

/// Picks the server for a request among `eligible` (from
/// [`servers_to_start`]); see [`pick_spec`].
pub fn pick_server(
    cfg: &CodeIntelConfig,
    eligible: &Vec<String>,
    path: Option<&str>,
    requested: Option<&str>,
) -> (r: Result<String, String>)
    ensures
        match r {
            Ok(id) => pick_spec(cfg@, strings_view(eligible@), opt_str_view(path), opt_str_view(requested)) == Ok::<Seq<char>, Seq<char>>(id@),
            Err(e) => pick_spec(cfg@, strings_view(eligible@), opt_str_view(path), opt_str_view(requested)) == Err::<Seq<char>, Seq<char>>(e@),
        },
{
    if let Some(id) = crate::native_config::trimmed_optional(requested) {
        return Ok(id);
    }
    let ghost ev = strings_view(eligible@);
    match path {
        Some(p) => {
            let mut i: usize = 0;
            assert(ev.skip(0) =~= ev);
            while i < eligible.len()
                invariant
                    i <= eligible.len(),
                    ev == strings_view(eligible@),
                    first_matching(cfg@, ev, p@) == first_matching(cfg@, ev.skip(i as int), p@),
                    crate::native_config::trimmed_opt(opt_str_view(requested)) is None,
                    path == Some(p),
                decreases eligible.len() - i,
            {
                assert(ev.skip(i as int)[0] == eligible@[i as int]@);
                assert(ev.skip(i as int).drop_first() =~= ev.skip(i + 1));
                if server_matches_file(cfg, eligible[i].as_str(), p) {
                    return Ok(eligible[i].clone());
                }
                i += 1;
            }
            Err(NO_SERVER_MESSAGE.to_owned())
        },
        None => {
            if eligible.len() > 0 {
                assert(ev[0] == eligible@[0]@);
                Ok(eligible[0].clone())
            } else {
                Err(NO_SERVER_MESSAGE.to_owned())
            }
        },
    }
}

// ----- admitting a server start -----

/// How many servers may run at once: the configured limit, at least one.
pub open spec fn cap_spec(max_concurrent: u32) -> nat {
    if max_concurrent >= 1 {
        max_concurrent as nat
    } else {
        1
    }
}

pub open spec fn listed_id(ids: Seq<String>, id: Seq<char>) -> bool {
    exists|i: int| 0 <= i < ids.len() && #[trigger] ids[i]@ == id
}

pub open spec fn limit_message(max_concurrent: u32) -> Seq<char> {
    "LSP concurrency limit ("@ + decimal_seq(cap_spec(max_concurrent)) + ") reached"@
}

fn has_id(ids: &Vec<String>, id: &str) -> (r: bool)
    ensures
        r == listed_id(ids@, id@),
{
    let mut i: usize = 0;
    while i < ids.len()
        invariant
            i <= ids.len(),
            forall|k: int| 0 <= k < i ==> ids@[k]@ != id@,
        decreases ids.len() - i,
    {
        if str_eq(ids[i].as_str(), id) {
            assert(ids@[i as int]@ == id@);
            return true;
        }
        i = i + 1;
    }
    false
}

fn limit_text(max_concurrent: u32) -> (r: String)
    ensures
        r@ == limit_message(max_concurrent),
{
    let cap: u32 = if max_concurrent >= 1 {
        max_concurrent
    } else {
        1
    };
    let mut m = "LSP concurrency limit (".to_owned();
    push_decimal(&mut m, cap as u64);
    push_str(&mut m, ") reached");
    m
}

/// Whether a server may be spawned, decided before spawning: `Ok(true)`
/// when it already runs, `Ok(false)` when it is to be spawned, else why not.
pub open spec fn admit_spec(
    eligible: Seq<String>,
    server_id: Seq<char>,
    cancelled: bool,
    running: Seq<String>,
    epoch_seen: u64,
    epoch_now: u64,
    max_concurrent: u32,
) -> Result<bool, Seq<char>> {
    if !listed_id(eligible, server_id) {
        Err("server not eligible"@)
    } else if cancelled {
        Err("lsp cancelled"@)
    } else if listed_id(running, server_id) {
        Ok(true)
    } else if epoch_now != epoch_seen {
        Err("lsp cancelled"@)
    } else if running.len() >= cap_spec(max_concurrent) {
        Err(limit_message(max_concurrent))
    } else {
        Ok(false)
    }
}

pub fn admit_server_start(
    eligible: &Vec<String>,
    server_id: &str,
    cancelled: bool,
    running: &Vec<String>,
    epoch_seen: u64,
    epoch_now: u64,
    max_concurrent: u32,
) -> (r: Result<bool, String>)
    ensures
        match (r, admit_spec(eligible@, server_id@, cancelled, running@, epoch_seen, epoch_now, max_concurrent)) {
            (Ok(a), Ok(b)) => a == b,
            (Err(m), Err(t)) => m@ == t,
            _ => false,
        },
{
    if !has_id(eligible, server_id) {
        return Err("server not eligible".to_owned());
    }
    if cancelled {
        return Err("lsp cancelled".to_owned());
    }
    if has_id(running, server_id) {
        return Ok(true);
    }
    if epoch_now != epoch_seen {
        return Err("lsp cancelled".to_owned());
    }
    let cap: usize = if max_concurrent >= 1 {
        max_concurrent as usize
    } else {
        1
    };
    if running.len() >= cap {
        return Err(limit_text(max_concurrent));
    }
    Ok(false)
}

/// What becomes of a server that was spawned and initialised.
#[derive(Debug, PartialEq, Eq)]
pub enum SpawnedServer {
    /// Keep it among the running servers.
    Keep,
    /// Another start of the same server won: shut this one down.
    Duplicate,
    /// Shut it down and fail with this message.
    Reject(String),
}

/// A spawned server is kept unless the same server already runs (then it is
/// a duplicate), the pool was reset or cancelled meanwhile, or the pool is
/// full.
pub open spec fn spawned_ok(
    r: SpawnedServer,
    running: Seq<String>,
    server_id: Seq<char>,
    epoch_seen: u64,
    epoch_now: u64,
    cancelled: bool,
    max_concurrent: u32,
) -> bool {
    if listed_id(running, server_id) {
        r == SpawnedServer::Duplicate
    } else if epoch_now != epoch_seen || cancelled {
        r matches SpawnedServer::Reject(m) && m@ == "lsp cancelled"@
    } else if running.len() >= cap_spec(max_concurrent) {
        r matches SpawnedServer::Reject(m) && m@ == limit_message(max_concurrent)
    } else {
        r == SpawnedServer::Keep
    }
}

pub fn settle_spawned_server(
    running: &Vec<String>,
    server_id: &str,
    epoch_seen: u64,
    epoch_now: u64,
    cancelled: bool,
    max_concurrent: u32,
) -> (r: SpawnedServer)
    ensures
        spawned_ok(r, running@, server_id@, epoch_seen, epoch_now, cancelled, max_concurrent),
{
    if has_id(running, server_id) {
        return SpawnedServer::Duplicate;
    }
    if epoch_now != epoch_seen || cancelled {
        return SpawnedServer::Reject("lsp cancelled".to_owned());
    }
    let cap: usize = if max_concurrent >= 1 {
        max_concurrent as usize
    } else {
        1
    };
    if running.len() >= cap {
        return SpawnedServer::Reject(limit_text(max_concurrent));
    }
    SpawnedServer::Keep
}

/// The pool never holds more servers than its cap, nor two of one id: a
/// spawned server is only kept when it is not running and there is room.
pub proof fn lemma_kept_server_fits(
    r: SpawnedServer,
    running: Seq<String>,
    server_id: Seq<char>,
    epoch_seen: u64,
    epoch_now: u64,
    cancelled: bool,
    max_concurrent: u32,
)
    requires
        spawned_ok(r, running, server_id, epoch_seen, epoch_now, cancelled, max_concurrent),
        r == SpawnedServer::Keep,
    ensures
        running.len() + 1 <= cap_spec(max_concurrent),
        !listed_id(running, server_id),
        epoch_now == epoch_seen && !cancelled,
{
}

} // verus!
