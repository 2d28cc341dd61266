//! Catalog of MCP tools the project code-intel adapter advertises.
//!
//! Agents see these names — not language-server binaries. Host processes
//! (rust-analyzer, gopls, `codegraph serve --mcp`) stay behind the supervisor.

use vstd::prelude::*;

use crate::code_intel::config::{CodeIntelConfig, ConfigView};
use crate::text::str_eq;

verus! {

pub const MCP_SERVER_NAME: &'static str = "codeg-code-intel";

pub struct McpToolSpec {
    pub name: &'static str,
    pub group: &'static str,
    pub description: &'static str,
}

pub struct CodeIntelMcpToolStatus {
    pub name: String,
    pub group: String,
    pub description: String,
    pub advertised: bool,
}

pub struct ToolView {
    pub name: Seq<char>,
    pub group: Seq<char>,
    pub description: Seq<char>,
}

impl View for McpToolSpec {
    type V = ToolView;

    open spec fn view(&self) -> ToolView {
        ToolView { name: self.name@, group: self.group@, description: self.description@ }
    }
}

impl View for CodeIntelMcpToolStatus {
    type V = (ToolView, bool);

    open spec fn view(&self) -> (ToolView, bool) {
        (
            ToolView { name: self.name@, group: self.group@, description: self.description@ },
            self.advertised,
        )
    }
}

pub open spec fn tool(name: Seq<char>, group: Seq<char>, description: Seq<char>) -> ToolView {
    ToolView { name, group, description }
}

/// The LSP tools, in the order they are listed.
pub open spec fn lsp_tools_spec() -> Seq<ToolView> {
    seq![
        tool("goToDefinition"@, "lsp"@, "Jump to the definition of a symbol (textDocument/definition)."@),
        tool("findReferences"@, "lsp"@, "Find references to a symbol (textDocument/references)."@),
        tool("hover"@, "lsp"@, "Hover information for a position (textDocument/hover)."@),
        tool("documentSymbol"@, "lsp"@, "List symbols in a file (textDocument/documentSymbol)."@),
        tool("workspaceSymbol"@, "lsp"@, "Search workspace symbols (workspace/symbol)."@),
        tool("diagnostics"@, "lsp"@, "Cached diagnostics for a file (publishDiagnostics)."@),
        tool("servers"@, "lsp"@, "Eligible and running language servers for this workspace."@),
    ]
}

pub open spec fn codegraph_tools_spec() -> Seq<ToolView> {
    seq![
        tool(
            "codegraph_explore"@,
            "codegraph"@,
            "Official CodeGraph explore: structure, paths, and impact for a query."@,
        ),
    ]
}

pub open spec fn tools_view(v: Seq<McpToolSpec>) -> Seq<ToolView> {
    v.map_values(|t: McpToolSpec| t@)
}

pub fn lsp_mcp_tools() -> (r: Vec<McpToolSpec>)
    ensures
        tools_view(r@) == lsp_tools_spec(),
{
    let r = vec![
        McpToolSpec {
            name: "goToDefinition",
            group: "lsp",
            description: "Jump to the definition of a symbol (textDocument/definition).",
        },
        McpToolSpec {
            name: "findReferences",
            group: "lsp",
            description: "Find references to a symbol (textDocument/references).",
        },
        McpToolSpec {
            name: "hover",
            group: "lsp",
            description: "Hover information for a position (textDocument/hover).",
        },
        McpToolSpec {
            name: "documentSymbol",
            group: "lsp",
            description: "List symbols in a file (textDocument/documentSymbol).",
        },
        McpToolSpec {
            name: "workspaceSymbol",
            group: "lsp",
            description: "Search workspace symbols (workspace/symbol).",
        },
        McpToolSpec {
            name: "diagnostics",
            group: "lsp",
            description: "Cached diagnostics for a file (publishDiagnostics).",
        },
        McpToolSpec {
            name: "servers",
            group: "lsp",
            description: "Eligible and running language servers for this workspace.",
        },
    ];
    assert(tools_view(r@) =~= lsp_tools_spec());
    r
}

pub fn codegraph_mcp_tools() -> (r: Vec<McpToolSpec>)
    ensures
        tools_view(r@) == codegraph_tools_spec(),
{
    let r = vec![
        McpToolSpec {
            name: "codegraph_explore",
            group: "codegraph",
            description: "Official CodeGraph explore: structure, paths, and impact for a query.",
        },
    ];
    assert(tools_view(r@) =~= codegraph_tools_spec());
    r
}

/// Every tool, LSP tools first; an LSP tool is advertised when code
/// intelligence and auto-attach are on, the CodeGraph tool when code
/// intelligence and CodeGraph are on.
pub open spec fn advertised_spec(cfg: ConfigView) -> Seq<(ToolView, bool)> {
    let lsp_on = cfg.enabled && cfg.auto_attach;
    let graph_on = cfg.enabled && cfg.codegraph_enabled;
    (lsp_tools_spec() + codegraph_tools_spec()).map_values(
        |t: ToolView| (t, if t.group == "lsp"@ {
            lsp_on
        } else {
            graph_on
        }),
    )
}

pub fn advertised_mcp_tools(cfg: &CodeIntelConfig) -> (r: Vec<CodeIntelMcpToolStatus>)
    ensures
        r@.map_values(|s: CodeIntelMcpToolStatus| s@) == advertised_spec(cfg@),
{
    let lsp_on = cfg.enabled && cfg.lsp.auto_attach;
    let graph_on = cfg.enabled && cfg.codegraph.enabled;
    let mut all = lsp_mcp_tools();
    let mut more = codegraph_mcp_tools();
    all.append(&mut more);
    let ghost tv = tools_view(all@);
    assert(tv =~= lsp_tools_spec() + codegraph_tools_spec());
    let mut out: Vec<CodeIntelMcpToolStatus> = Vec::new();
    let mut i: usize = 0;
    while i < all.len()
        invariant
            i <= all.len(),
            tv == tools_view(all@),
            lsp_on == (cfg.enabled && cfg.lsp.auto_attach),
            graph_on == (cfg.enabled && cfg.codegraph.enabled),
            out@.map_values(|s: CodeIntelMcpToolStatus| s@) == tv.take(i as int).map_values(
                |t: ToolView| (t, if t.group == "lsp"@ {
                    lsp_on
                } else {
                    graph_on
                }),
            ),
        decreases all.len() - i,
    {
        let t = &all[i];
        let advertised = if str_eq(t.group, "lsp") {
            lsp_on
        } else {
            graph_on
        };
        let ghost before = out@;
        out.push(
            CodeIntelMcpToolStatus {
                name: t.name.to_owned(),
                group: t.group.to_owned(),
                description: t.description.to_owned(),
                advertised,
            },
        );
        assert(out@.map_values(|s: CodeIntelMcpToolStatus| s@) =~= before.map_values(
            |s: CodeIntelMcpToolStatus| s@,
        ).push((tv[i as int], advertised)));
        assert(tv.take(i + 1) =~= tv.take(i as int).push(tv[i as int]));
        i += 1;
    }
    assert(tv.take(all.len() as int) =~= tv);
    out
}

/// Names an LSP tool answers to, canonical or alias.
pub open spec fn is_lsp_tool_name(name: Seq<char>) -> bool {
    name == "goToDefinition"@ || name == "definition"@ || name == "findReferences"@ || name
        == "references"@ || name == "hover"@ || name == "documentSymbol"@ || name
        == "document_symbol"@ || name == "workspaceSymbol"@ || name == "workspace_symbol"@ || name
        == "diagnostics"@ || name == "servers"@
}

pub fn lsp_tool_aliases(name: &str) -> (r: bool)
    ensures
        r == is_lsp_tool_name(name@),
{
    str_eq(name, "goToDefinition") || str_eq(name, "definition") || str_eq(name, "findReferences")
        || str_eq(name, "references") || str_eq(name, "hover") || str_eq(name, "documentSymbol")
        || str_eq(name, "document_symbol") || str_eq(name, "workspaceSymbol") || str_eq(
        name,
        "workspace_symbol",
    ) || str_eq(name, "diagnostics") || str_eq(name, "servers")
}

/// Canonical name for an alias; other names are returned unchanged.
pub open spec fn canonical_lsp_name(name: Seq<char>) -> Seq<char> {
    if name == "definition"@ {
        "goToDefinition"@
    } else if name == "references"@ {
        "findReferences"@
    } else if name == "document_symbol"@ {
        "documentSymbol"@
    } else if name == "workspace_symbol"@ {
        "workspaceSymbol"@
    } else {
        name
    }
}

pub fn normalize_lsp_name(name: &str) -> (r: &str)
    ensures
        r@ == canonical_lsp_name(name@),
{
    if str_eq(name, "definition") {
        "goToDefinition"
    } else if str_eq(name, "references") {
        "findReferences"
    } else if str_eq(name, "document_symbol") {
        "documentSymbol"
    } else if str_eq(name, "workspace_symbol") {
        "workspaceSymbol"
    } else {
        name
    }
}

/// `ids` joined by `, `.
pub open spec fn join_ids(ids: Seq<Seq<char>>) -> Seq<char>
    decreases ids.len(),
{
    if ids.len() == 0 {
        Seq::empty()
    } else if ids.len() == 1 {
        ids[0]
    } else {
        join_ids(ids.drop_last()) + ", "@ + ids.last()
    }
}

/// `(none)` for no ids, else the ids joined by `, `.
pub open spec fn format_ids_spec(ids: Seq<Seq<char>>) -> Seq<char> {
    if ids.len() == 0 {
        "(none)"@
    } else {
        join_ids(ids)
    }
}

pub fn format_ids(ids: &Vec<String>) -> (r: String)
    ensures
        r@ == format_ids_spec(ids@.map_values(|s: String| s@)),
{
    let ghost iv = ids@.map_values(|s: String| s@);
    if ids.len() == 0 {
        return "(none)".to_owned();
    }
    let mut out = ids[0].clone();
    let mut i: usize = 1;
    assert(iv.take(1).drop_last() =~= Seq::<Seq<char>>::empty());
    while i < ids.len()
        invariant
            1 <= i <= ids.len(),
            iv == ids@.map_values(|s: String| s@),
            out@ == join_ids(iv.take(i as int)),
        decreases ids.len() - i,
    {
        crate::text::push_str(&mut out, ", ");
        crate::text::push_str(&mut out, ids[i].as_str());
        assert(iv.take(i + 1).drop_last() =~= iv.take(i as int));
        i += 1;
    }
    assert(iv.take(ids.len() as int) =~= iv);
    out
}

} // verus!
