//! What an LSP MCP tool call asks of the language servers: the call read
//! from its name and arguments before any server is touched.

use vstd::prelude::*;

use crate::code_intel::mcp_tools::{canonical_lsp_name, normalize_lsp_name};
use crate::json::{jview, vget, vget_str, JsonValue, JsonView};
use crate::path_text::{join_path, join_spec};
use crate::text::{chars_of, str_eq, string_from_chars, trim_seq, trim_vec};

verus! {

/// The file request an LSP tool makes.
#[derive(Debug, Clone, Copy, PartialEq, Eq, Structural)]
pub enum LspOp {
    GoToDefinition,
    FindReferences,
    Hover,
    DocumentSymbol,
    Diagnostics,
    /// A name the facade does not serve; refused once the file is open.
    Unsupported,
}

/// An LSP tool call, read from its name and arguments.
#[derive(Debug, PartialEq, Eq)]
pub enum LspCall {
    /// List running and eligible servers.
    Servers,
    /// Search symbols across the workspace.
    WorkspaceSymbol { path: Option<String>, query: String, server: Option<String> },
    /// A request on one file, at a 0-based line and column.
    File { op: LspOp, path: String, server: Option<String>, line: u32, character: u32 },
}

pub enum LspCallView {
    Servers,
    WorkspaceSymbol { path: Option<Seq<char>>, query: Seq<char>, server: Option<Seq<char>> },
    File { op: LspOp, path: Seq<char>, server: Option<Seq<char>>, line: u32, character: u32 },
}

pub open spec fn ostring(o: Option<String>) -> Option<Seq<char>> {
    match o {
        Some(s) => Some(s@),
        None => None,
    }
}

impl View for LspCall {
    type V = LspCallView;

    open spec fn view(&self) -> LspCallView {
        match self {
            LspCall::Servers => LspCallView::Servers,
            LspCall::WorkspaceSymbol { path, query, server } => LspCallView::WorkspaceSymbol {
                path: ostring(*path),
                query: query@,
                server: ostring(*server),
            },
            LspCall::File { op, path, server, line, character } => LspCallView::File {
                op: *op,
                path: path@,
                server: ostring(*server),
                line: *line,
                character: *character,
            },
        }
    }
}

/// The trimmed text, when it is not blank.
pub open spec fn nonblank(o: Option<Seq<char>>) -> Option<Seq<char>> {
    match o {
        Some(s) => if trim_seq(s).len() > 0 {
            Some(trim_seq(s))
        } else {
            None
        },
        None => None,
    }
}

pub open spec fn op_of(name: Seq<char>) -> LspOp {
    if name == "goToDefinition"@ {
        LspOp::GoToDefinition
    } else if name == "findReferences"@ {
        LspOp::FindReferences
    } else if name == "hover"@ {
        LspOp::Hover
    } else if name == "documentSymbol"@ {
        LspOp::DocumentSymbol
    } else if name == "diagnostics"@ {
        LspOp::Diagnostics
    } else {
        LspOp::Unsupported
    }
}

pub open spec fn arg_u64(args: JsonView, key: Seq<char>) -> Option<u64> {
    match vget(args, key) {
        Some(JsonView::Number(n)) => Some(n),
        _ => None,
    }
}

/// The 0-based position of a call: `line` is 1-based and defaults to 1,
/// `character` is 0-based and defaults to 0; both are cut to 32 bits.
pub open spec fn position_spec(args: JsonView) -> (u32, u32) {
    let line: u64 = match arg_u64(args, "line"@) {
        Some(n) => n,
        None => 1,
    };
    let line0: u64 = if line >= 1 {
        (line - 1) as u64
    } else {
        0
    };
    let character: u64 = match arg_u64(args, "character"@) {
        Some(n) => n,
        None => 0,
    };
    (line0 as u32, character as u32)
}

pub fn position(args: &JsonValue) -> (r: (u32, u32))
    ensures
        r == position_spec(jview(*args)),
{
    let line = match args.get("line") {
        Some(v) => match v.as_u64() {
            Some(n) => n,
            None => 1,
        },
        None => 1,
    };
    let character = match args.get("character") {
        Some(v) => match v.as_u64() {
            Some(n) => n,
            None => 0,
        },
        None => 0,
    };
    let line0 = if line >= 1 {
        line - 1
    } else {
        0
    };
    (line0 as u32, character as u32)
}

/// The call an LSP tool name and its arguments ask for: `servers` needs
/// nothing; every other tool but `workspaceSymbol` needs a path (resolved
/// against the workspace unless absolute); `workspaceSymbol` needs a query.
pub open spec fn lsp_call_spec(workspace: Seq<char>, name: Seq<char>, args: JsonView) -> Result<
    LspCallView,
    Seq<char>,
> {
    let op = canonical_lsp_name(name);
    if op == "servers"@ {
        Ok(LspCallView::Servers)
    } else {
        let raw = nonblank(vget_str(args, "path"@));
        let path = match raw {
            Some(r) => Some(join_spec(workspace, r)),
            None => None,
        };
        let server = vget_str(args, "server"@);
        if raw is None && op != "workspaceSymbol"@ {
            Err("path required"@)
        } else if op == "workspaceSymbol"@ {
            match nonblank(vget_str(args, "query"@)) {
                None => Err("query required for workspaceSymbol"@),
                Some(q) => Ok(LspCallView::WorkspaceSymbol { path, query: q, server }),
            }
        } else {
            let (line, character) = position_spec(args);
            Ok(LspCallView::File { op: op_of(op), path: path->Some_0, server, line, character })
        }
    }
}

fn nonblank_arg(args: &JsonValue, key: &str) -> (r: Option<String>)
    ensures
        ostring(r) == nonblank(vget_str(jview(*args), key@)),
{
    match args.get_str(key) {
        Some(s) => {
            let t = trim_vec(&chars_of(s.as_str()));
            if t.len() > 0 {
                Some(string_from_chars(&t))
            } else {
                None
            }
        },
        None => None,
    }
}

fn arg_text(args: &JsonValue, key: &str) -> (r: Option<String>)
    ensures
        ostring(r) == vget_str(jview(*args), key@),
{
    match args.get_str(key) {
        Some(s) => Some(s.clone()),
        None => None,
    }
}

/// Reads an LSP tool call; the error is the message the tool answers with.
pub fn plan_lsp_call(workspace: &str, name: &str, args: &JsonValue) -> (r: Result<LspCall, String>)
    ensures
        match (r, lsp_call_spec(workspace@, name@, jview(*args))) {
            (Ok(a), Ok(b)) => a@ == b,
            (Err(m), Err(t)) => m@ == t,
            _ => false,
        },
{
    let op = normalize_lsp_name(name);
    if str_eq(op, "servers") {
        return Ok(LspCall::Servers);
    }
    let raw = nonblank_arg(args, "path");
    let path = match &raw {
        Some(r) => Some(join_path(workspace, r.as_str())),
        None => None,
    };
    let server = arg_text(args, "server");
    let symbol = str_eq(op, "workspaceSymbol");
    if raw.is_none() && !symbol {
        return Err("path required".to_owned());
    }
    if symbol {
        return match nonblank_arg(args, "query") {
            None => Err("query required for workspaceSymbol".to_owned()),
            Some(query) => Ok(LspCall::WorkspaceSymbol { path, query, server }),
        };
    }
    let kind = if str_eq(op, "goToDefinition") {
        LspOp::GoToDefinition
    } else if str_eq(op, "findReferences") {
        LspOp::FindReferences
    } else if str_eq(op, "hover") {
        LspOp::Hover
    } else if str_eq(op, "documentSymbol") {
        LspOp::DocumentSymbol
    } else if str_eq(op, "diagnostics") {
        LspOp::Diagnostics
    } else {
        LspOp::Unsupported
    };
    let (line, character) = position(args);
    match path {
        Some(p) => Ok(LspCall::File { op: kind, path: p, server, line, character }),
        None => Err("path required".to_owned()),
    }
}

/// The request kind of a call that turned out to be a file request.
pub open spec fn file_request_op(call: Result<LspCallView, Seq<char>>) -> Option<LspOp> {
    match call {
        Ok(LspCallView::File { op, .. }) => Some(op),
        _ => None,
    }
}

/// Every advertised file tool reaches its own request: given a non-blank
/// path, `goToDefinition` (or `definition`), `findReferences` (or
/// `references`), `hover`, `documentSymbol` (or `document_symbol`) and
/// `diagnostics` each become a request of that kind, none of them refused as
/// unsupported. A find-references request is made on the path resolved
/// against the workspace, at the call's position.
pub proof fn lemma_file_tools_reach_their_request(workspace: Seq<char>, args: JsonView)
    requires
        nonblank(vget_str(args, "path"@)) is Some,
    ensures
        file_request_op(lsp_call_spec(workspace, "goToDefinition"@, args)) == Some(LspOp::GoToDefinition),
        file_request_op(lsp_call_spec(workspace, "definition"@, args)) == Some(LspOp::GoToDefinition),
        file_request_op(lsp_call_spec(workspace, "findReferences"@, args)) == Some(LspOp::FindReferences),
        file_request_op(lsp_call_spec(workspace, "references"@, args)) == Some(LspOp::FindReferences),
        file_request_op(lsp_call_spec(workspace, "hover"@, args)) == Some(LspOp::Hover),
        file_request_op(lsp_call_spec(workspace, "documentSymbol"@, args)) == Some(LspOp::DocumentSymbol),
        file_request_op(lsp_call_spec(workspace, "document_symbol"@, args)) == Some(LspOp::DocumentSymbol),
        file_request_op(lsp_call_spec(workspace, "diagnostics"@, args)) == Some(LspOp::Diagnostics),
        lsp_call_spec(workspace, "findReferences"@, args) == Ok::<LspCallView, Seq<char>>(
            LspCallView::File {
                op: LspOp::FindReferences,
                path: join_spec(workspace, nonblank(vget_str(args, "path"@))->0),
                server: vget_str(args, "server"@),
                line: position_spec(args).0,
                character: position_spec(args).1,
            },
        ),
{
    reveal_strlit("servers");
    reveal_strlit("workspaceSymbol");
    reveal_strlit("goToDefinition");
    reveal_strlit("findReferences");
    reveal_strlit("hover");
    reveal_strlit("documentSymbol");
    reveal_strlit("diagnostics");
    reveal_strlit("definition");
    reveal_strlit("references");
    reveal_strlit("document_symbol");
    reveal_strlit("workspace_symbol");
    assert("goToDefinition"@[0] != "findReferences"@[0] && "goToDefinition"@[0] != "documentSymbol"@[0]
        && "findReferences"@[0] != "documentSymbol"@[0]);
    assert("definition"@[0] != "references"@[0]);
    assert("hover"@.len() != "servers"@.len() && "diagnostics"@.len() != "servers"@.len());
    assert("goToDefinition"@.len() != "workspaceSymbol"@.len() && "findReferences"@.len()
        != "workspaceSymbol"@.len() && "documentSymbol"@.len() != "workspaceSymbol"@.len());
    assert("definition"@.len() != "document_symbol"@.len() && "references"@.len()
        != "document_symbol"@.len() && "definition"@.len() != "workspace_symbol"@.len());
}

} // verus!
