//! Project code-intelligence settings and the built-in language servers.

use vstd::prelude::*;

use crate::native_config::opt_string_view;

verus! {

pub const CODE_INTEL_FILE_NAME: &'static str = "code-intel.json";

/// Lowest and highest number of language servers run at once.
pub const MIN_CONCURRENT: u32 = 1;
pub const MAX_CONCURRENT: u32 = 8;

pub struct CodeIntelConfig {
    pub enabled: bool,
    pub codegraph: CodegraphSettings,
    pub lsp: LspSettings,
}

pub struct CodegraphSettings {
    pub enabled: bool,
    pub binary_path: Option<String>,
}

pub struct LspSettings {
    pub auto_attach: bool,
    pub max_concurrent: u32,
    pub checked: Vec<String>,
    pub custom: Vec<CustomLspServer>,
}

pub struct CustomLspServer {
    pub id: String,
    pub language: String,
    pub command: String,
    pub args: Vec<String>,
    pub extensions: Vec<String>,
    pub manifests: Vec<String>,
}

/// A built-in language server.
pub struct PresetLsp {
    pub id: &'static str,
    pub language: &'static str,
    pub binary: &'static str,
    pub args: Vec<&'static str>,
    pub manifests: Vec<&'static str>,
    pub extensions: Vec<&'static str>,
    pub default_checked: bool,
}

pub struct CustomView {
    pub id: Seq<char>,
    pub language: Seq<char>,
    pub command: Seq<char>,
    pub args: Seq<Seq<char>>,
    pub extensions: Seq<Seq<char>>,
    pub manifests: Seq<Seq<char>>,
}

#[verifier::ext_equal]
pub struct PresetView {
    pub id: Seq<char>,
    pub language: Seq<char>,
    pub binary: Seq<char>,
    pub args: Seq<Seq<char>>,
    pub manifests: Seq<Seq<char>>,
    pub extensions: Seq<Seq<char>>,
    pub default_checked: bool,
}

pub struct ConfigView {
    pub enabled: bool,
    pub codegraph_enabled: bool,
    pub binary_path: Option<Seq<char>>,
    pub auto_attach: bool,
    pub max_concurrent: u32,
    pub checked: Seq<Seq<char>>,
    pub custom: Seq<CustomView>,
}

pub open spec fn strings_view(v: Seq<String>) -> Seq<Seq<char>> {
    v.map_values(|s: String| s@)
}

pub open spec fn strs_view(v: Seq<&'static str>) -> Seq<Seq<char>> {
    v.map_values(|s: &'static str| s@)
}

impl View for CustomLspServer {
    type V = CustomView;

    open spec fn view(&self) -> CustomView {
        CustomView {
            id: self.id@,
            language: self.language@,
            command: self.command@,
            args: strings_view(self.args@),
            extensions: strings_view(self.extensions@),
            manifests: strings_view(self.manifests@),
        }
    }
}

impl View for PresetLsp {
    type V = PresetView;

    open spec fn view(&self) -> PresetView {
        PresetView {
            id: self.id@,
            language: self.language@,
            binary: self.binary@,
            args: strs_view(self.args@),
            manifests: strs_view(self.manifests@),
            extensions: strs_view(self.extensions@),
            default_checked: self.default_checked,
        }
    }
}

impl View for CodeIntelConfig {
    type V = ConfigView;

    open spec fn view(&self) -> ConfigView {
        ConfigView {
            enabled: self.enabled,
            codegraph_enabled: self.codegraph.enabled,
            binary_path: opt_string_view(self.codegraph.binary_path),
            auto_attach: self.lsp.auto_attach,
            max_concurrent: self.lsp.max_concurrent,
            checked: strings_view(self.lsp.checked@),
            custom: self.lsp.custom@.map_values(|c: CustomLspServer| c@),
        }
    }
}

/// The built-in language servers, in the order they are offered.
pub open spec fn preset_table() -> Seq<PresetView> {
    seq![
        PresetView {
            id: "rust-analyzer"@,
            language: "Rust"@,
            binary: "rust-analyzer"@,
            args: Seq::empty(),
            manifests: seq!["Cargo.toml"@, "rust-toolchain.toml"@],
            extensions: seq![".rs"@],
            default_checked: true,
        },
        PresetView {
            id: "gopls"@,
            language: "Go"@,
            binary: "gopls"@,
            args: Seq::empty(),
            manifests: seq!["go.mod"@, "go.work"@],
            extensions: seq![".go"@],
            default_checked: true,
        },
        PresetView {
            id: "pyright"@,
            language: "Python"@,
            binary: "pyright-langserver"@,
            args: seq!["--stdio"@],
            manifests: seq!["pyproject.toml"@, "setup.py"@, "requirements.txt"@],
            extensions: seq![".py"@],
            default_checked: true,
        },
        PresetView {
            id: "typescript"@,
            language: "TypeScript / JavaScript"@,
            binary: "typescript-language-server"@,
            args: seq!["--stdio"@],
            manifests: seq!["tsconfig.json"@, "jsconfig.json"@, "package.json"@],
            extensions: seq![".ts"@, ".tsx"@, ".js"@, ".jsx"@, ".mts"@, ".cts"@],
            default_checked: true,
        },
        PresetView {
            id: "clangd"@,
            language: "C / C++"@,
            binary: "clangd"@,
            args: Seq::empty(),
            manifests: seq!["CMakeLists.txt"@, "compile_commands.json"@],
            extensions: seq![".c"@, ".h"@, ".cpp"@, ".hpp"@, ".cc"@, ".cxx"@],
            default_checked: true,
        },
        PresetView {
            id: "lua-ls"@,
            language: "Lua"@,
            binary: "lua-language-server"@,
            args: Seq::empty(),
            manifests: seq![".luarc.json"@],
            extensions: seq![".lua"@],
            default_checked: false,
        },
        PresetView {
            id: "bash-ls"@,
            language: "Shell"@,
            binary: "bash-language-server"@,
            args: seq!["start"@],
            manifests: Seq::empty(),
            extensions: seq![".sh"@, ".bash"@],
            default_checked: false,
        },
        PresetView {
            id: "yaml-ls"@,
            language: "YAML"@,
            binary: "yaml-language-server"@,
            args: seq!["--stdio"@],
            manifests: Seq::empty(),
            extensions: seq![".yaml"@, ".yml"@],
            default_checked: false,
        },
        PresetView {
            id: "kotlin-ls"@,
            language: "Kotlin"@,
            binary: "kotlin-language-server"@,
            args: Seq::empty(),
            manifests: seq!["build.gradle.kts"@],
            extensions: seq![".kt"@, ".kts"@],
            default_checked: false,
        },
        PresetView {
            id: "zls"@,
            language: "Zig"@,
            binary: "zls"@,
            args: Seq::empty(),
            manifests: seq!["build.zig"@],
            extensions: seq![".zig"@],
            default_checked: false,
        },
        PresetView {
            id: "taplo"@,
            language: "TOML"@,
            binary: "taplo"@,
            args: seq!["lsp"@, "stdio"@],
            manifests: Seq::empty(),
            extensions: seq![".toml"@],
            default_checked: false,
        },
    ]
}

pub open spec fn presets_view(v: Seq<PresetLsp>) -> Seq<PresetView> {
    v.map_values(|p: PresetLsp| p@)
}

/// Ids of the presets checked by default, in order.
pub open spec fn default_checked_ids(t: Seq<PresetView>) -> Seq<Seq<char>>
    decreases t.len(),
{
    if t.len() == 0 {
        Seq::empty()
    } else {
        let rest = default_checked_ids(t.drop_last());
        if t.last().default_checked {
            rest.push(t.last().id)
        } else {
            rest
        }
    }
}

pub open spec fn default_config_view() -> ConfigView {
    ConfigView {
        enabled: false,
        codegraph_enabled: true,
        binary_path: None,
        auto_attach: true,
        max_concurrent: 2,
        checked: default_checked_ids(preset_table()),
        custom: Seq::empty(),
    }
}

pub fn default_true() -> (r: bool)
    ensures
        r,
{
    true
}

pub fn default_max_concurrent() -> (r: u32)
    ensures
        r == 2,
{
    2
}

#[verifier::rlimit(40)]
pub fn preset_lsp_servers() -> (r: Vec<PresetLsp>)
    ensures
        presets_view(r@) == preset_table(),
{
    let mut v: Vec<PresetLsp> = Vec::new();
    v.push(
        PresetLsp {
            id: "rust-analyzer",
            language: "Rust",
            binary: "rust-analyzer",
            args: Vec::new(),
            manifests: vec!["Cargo.toml", "rust-toolchain.toml"],
            extensions: vec![".rs"],
            default_checked: true,
        },
    );
    v.push(
        PresetLsp {
            id: "gopls",
            language: "Go",
            binary: "gopls",
            args: Vec::new(),
            manifests: vec!["go.mod", "go.work"],
            extensions: vec![".go"],
            default_checked: true,
        },
    );
    v.push(
        PresetLsp {
            id: "pyright",
            language: "Python",
            binary: "pyright-langserver",
            args: vec!["--stdio"],
            manifests: vec!["pyproject.toml", "setup.py", "requirements.txt"],
            extensions: vec![".py"],
            default_checked: true,
        },
    );
    v.push(
        PresetLsp {
            id: "typescript",
            language: "TypeScript / JavaScript",
            binary: "typescript-language-server",
            args: vec!["--stdio"],
            manifests: vec!["tsconfig.json", "jsconfig.json", "package.json"],
            extensions: vec![".ts", ".tsx", ".js", ".jsx", ".mts", ".cts"],
            default_checked: true,
        },
    );
    v.push(
        PresetLsp {
            id: "clangd",
            language: "C / C++",
            binary: "clangd",
            args: Vec::new(),
            manifests: vec!["CMakeLists.txt", "compile_commands.json"],
            extensions: vec![".c", ".h", ".cpp", ".hpp", ".cc", ".cxx"],
            default_checked: true,
        },
    );
    v.push(
        PresetLsp {
            id: "lua-ls",
            language: "Lua",
            binary: "lua-language-server",
            args: Vec::new(),
            manifests: vec![".luarc.json"],
            extensions: vec![".lua"],
            default_checked: false,
        },
    );
    v.push(
        PresetLsp {
            id: "bash-ls",
            language: "Shell",
            binary: "bash-language-server",
            args: vec!["start"],
            manifests: Vec::new(),
            extensions: vec![".sh", ".bash"],
            default_checked: false,
        },
    );
    v.push(
        PresetLsp {
            id: "yaml-ls",
            language: "YAML",
            binary: "yaml-language-server",
            args: vec!["--stdio"],
            manifests: Vec::new(),
            extensions: vec![".yaml", ".yml"],
            default_checked: false,
        },
    );
    v.push(
        PresetLsp {
            id: "kotlin-ls",
            language: "Kotlin",
            binary: "kotlin-language-server",
            args: Vec::new(),
            manifests: vec!["build.gradle.kts"],
            extensions: vec![".kt", ".kts"],
            default_checked: false,
        },
    );
    v.push(
        PresetLsp {
            id: "zls",
            language: "Zig",
            binary: "zls",
            args: Vec::new(),
            manifests: vec!["build.zig"],
            extensions: vec![".zig"],
            default_checked: false,
        },
    );
    v.push(
        PresetLsp {
            id: "taplo",
            language: "TOML",
            binary: "taplo",
            args: vec!["lsp", "stdio"],
            manifests: Vec::new(),
            extensions: vec![".toml"],
            default_checked: false,
        },
    );
    proof {
        reveal_strlit("");
    }
    assert(presets_view(v@) =~~= preset_table());
    v
}

/// Ids of the presets checked by default.
pub fn default_checked_servers() -> (r: Vec<String>)
    ensures
        strings_view(r@) == default_checked_ids(preset_table()),
{
    let presets = preset_lsp_servers();
    let mut out: Vec<String> = Vec::new();
    let mut i: usize = 0;
    let ghost t = preset_table();
    while i < presets.len()
        invariant
            i <= presets.len(),
            presets_view(presets@) == t,
            strings_view(out@) == default_checked_ids(t.take(i as int)),
        decreases presets.len() - i,
    {
        assert(t.take(i + 1).drop_last() =~= t.take(i as int));
        assert(t.take(i + 1).last() == presets@[i as int]@);
        if presets[i].default_checked {
            let ghost before = out@;
            out.push(presets[i].id.to_owned());
            assert(strings_view(out@) =~= strings_view(before).push(presets@[i as int].id@));
        }
        i += 1;
    }
    assert(t.take(presets.len() as int) =~= t);
    out
}

impl CodegraphSettings {
    pub fn default_settings() -> (r: Self)
        ensures
            r.enabled,
            r.binary_path is None,
    {
        CodegraphSettings { enabled: default_true(), binary_path: None }
    }
}

impl LspSettings {
    pub fn default_settings() -> (r: Self)
        ensures
            r.auto_attach,
            r.max_concurrent == 2,
            strings_view(r.checked@) == default_checked_ids(preset_table()),
            r.custom@.len() == 0,
    {
        LspSettings {
            auto_attach: default_true(),
            max_concurrent: default_max_concurrent(),
            checked: default_checked_servers(),
            custom: Vec::new(),
        }
    }
}

/// Code intelligence off, CodeGraph and LSP auto-attach on once enabled, two
/// concurrent servers, and the default-checked presets.
pub fn default_config() -> (r: CodeIntelConfig)
    ensures
        r@ == default_config_view(),
{
    let r = CodeIntelConfig {
        enabled: false,
        codegraph: CodegraphSettings::default_settings(),
        lsp: LspSettings::default_settings(),
    };
    assert(r@.custom =~= Seq::<CustomView>::empty());
    r
}

/// `max_concurrent` as a loaded file may give it, brought into `1..=8`.
pub open spec fn clamp_concurrent(n: u32) -> u32 {
    if n < MIN_CONCURRENT {
        MIN_CONCURRENT
    } else if n > MAX_CONCURRENT {
        MAX_CONCURRENT
    } else {
        n
    }
}

/// A configuration read from disk, with `max_concurrent` clamped to `1..=8`;
/// everything else is kept.
pub fn sanitize_loaded_config(config: CodeIntelConfig) -> (r: CodeIntelConfig)
    ensures
        r@ == (ConfigView { max_concurrent: clamp_concurrent(config@.max_concurrent), ..config@ }),
{
    let mut config = config;
    let n = config.lsp.max_concurrent;
    config.lsp.max_concurrent = if n < MIN_CONCURRENT {
        MIN_CONCURRENT
    } else if n > MAX_CONCURRENT {
        MAX_CONCURRENT
    } else {
        n
    };
    config
}

} // verus!
