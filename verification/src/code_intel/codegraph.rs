//! CodeGraph CLI operations and the argument vector for one call.

use vstd::prelude::*;

use crate::code_intel::config::strings_view;
use crate::native_config::{opt_str_view, trimmed_opt, trimmed_optional};
use crate::text::{
    chars_of, decimal_seq, eq_lit, is_ws, lemma_trim_fixed, lower_seq, push_decimal, to_ascii_lowercase,
    trim_seq, trim_vec,
};

verus! {

#[derive(Debug, Clone, Copy, PartialEq, Eq, Structural)]
pub enum CodegraphOp {
    Explore,
    Query,
    Node,
    Callers,
    Callees,
    Impact,
    Files,
    Status,
}

pub open spec fn op_cli(op: CodegraphOp) -> Seq<char> {
    match op {
        CodegraphOp::Explore => "explore"@,
        CodegraphOp::Query => "query"@,
        CodegraphOp::Node => "node"@,
        CodegraphOp::Callers => "callers"@,
        CodegraphOp::Callees => "callees"@,
        CodegraphOp::Impact => "impact"@,
        CodegraphOp::Files => "files"@,
        CodegraphOp::Status => "status"@,
    }
}

/// The operation named by `raw`, trimmed and ASCII-lowercased.
pub open spec fn op_named(raw: Seq<char>) -> Option<CodegraphOp> {
    let n = lower_seq(trim_seq(raw));
    if n == "explore"@ {
        Some(CodegraphOp::Explore)
    } else if n == "query"@ {
        Some(CodegraphOp::Query)
    } else if n == "node"@ {
        Some(CodegraphOp::Node)
    } else if n == "callers"@ {
        Some(CodegraphOp::Callers)
    } else if n == "callees"@ {
        Some(CodegraphOp::Callees)
    } else if n == "impact"@ {
        Some(CodegraphOp::Impact)
    } else if n == "files"@ {
        Some(CodegraphOp::Files)
    } else if n == "status"@ {
        Some(CodegraphOp::Status)
    } else {
        None
    }
}

pub open spec fn op_uses_json(op: CodegraphOp) -> bool {
    !(op == CodegraphOp::Explore || op == CodegraphOp::Node)
}

pub open spec fn op_requires_query(op: CodegraphOp) -> bool {
    !(op == CodegraphOp::Files || op == CodegraphOp::Status)
}

impl CodegraphOp {
    /// Parses an operation name; `install`, `serve` and unknown names are
    /// rejected.
    pub fn parse(raw: &str) -> (r: Option<Self>)
        ensures
            r == op_named(raw@),
    {
        let n = to_ascii_lowercase(&trim_vec(&chars_of(raw)));
        if eq_lit(&n, "explore") {
            Some(CodegraphOp::Explore)
        } else if eq_lit(&n, "query") {
            Some(CodegraphOp::Query)
        } else if eq_lit(&n, "node") {
            Some(CodegraphOp::Node)
        } else if eq_lit(&n, "callers") {
            Some(CodegraphOp::Callers)
        } else if eq_lit(&n, "callees") {
            Some(CodegraphOp::Callees)
        } else if eq_lit(&n, "impact") {
            Some(CodegraphOp::Impact)
        } else if eq_lit(&n, "files") {
            Some(CodegraphOp::Files)
        } else if eq_lit(&n, "status") {
            Some(CodegraphOp::Status)
        } else {
            None
        }
    }

    pub fn as_cli(self) -> (r: &'static str)
        ensures
            r@ == op_cli(self),
    {
        match self {
            CodegraphOp::Explore => "explore",
            CodegraphOp::Query => "query",
            CodegraphOp::Node => "node",
            CodegraphOp::Callers => "callers",
            CodegraphOp::Callees => "callees",
            CodegraphOp::Impact => "impact",
            CodegraphOp::Files => "files",
            CodegraphOp::Status => "status",
        }
    }

    /// Explore and node print text; every other operation asks for JSON.
    pub fn uses_json_flag(self) -> (r: bool)
        ensures
            r == op_uses_json(self),
    {
        !(self == CodegraphOp::Explore || self == CodegraphOp::Node)
    }

    /// Every operation but files and status takes a query.
    pub fn requires_query(self) -> (r: bool)
        ensures
            r == op_requires_query(self),
    {
        matches!(
            self,
            CodegraphOp::Explore | CodegraphOp::Query | CodegraphOp::Node | CodegraphOp::Callers
                | CodegraphOp::Callees | CodegraphOp::Impact
        )
    }
}

/// A name of lowercase ASCII letters is its own trimmed, lowercased form.
proof fn lemma_plain_name(s: Seq<char>)
    requires
        s.len() > 0,
        forall|i: int| 0 <= i < s.len() ==> 'a' <= #[trigger] s[i] <= 'z',
    ensures
        lower_seq(trim_seq(s)) == s,
{
    assert(!is_ws(s[0]) && !is_ws(s.last()));
    lemma_trim_fixed(s);
    assert(lower_seq(s) =~= s);
}

/// The CLI word of an operation names that same operation: parsing
/// `as_cli` gives the operation back, so no two operations share a word and
/// each is run as itself.
pub proof fn lemma_cli_word_names_its_op(op: CodegraphOp)
    ensures
        op_named(op_cli(op)) == Some(op),
{
    reveal_strlit("explore");
    reveal_strlit("query");
    reveal_strlit("node");
    reveal_strlit("callers");
    reveal_strlit("callees");
    reveal_strlit("impact");
    reveal_strlit("files");
    reveal_strlit("status");
    lemma_plain_name(op_cli(op));
    assert("callers"@[5] != "callees"@[5]);
    assert("explore"@[0] != "callers"@[0] && "explore"@[0] != "callees"@[0]);
    assert("impact"@[0] != "status"@[0]);
    assert("query"@[0] != "files"@[0]);
}

/// Text of the error for a missing query.
pub open spec fn missing_query_message(op: CodegraphOp) -> Seq<char> {
    "codegraph "@ + op_cli(op) + " requires a non-empty query"@
}

/// Flags for the operation's optional arguments.
pub open spec fn op_options(
    op: CodegraphOp,
    path: Option<Seq<char>>,
    kind: Option<Seq<char>>,
    limit: Option<u32>,
    depth: Option<u32>,
) -> Seq<Seq<char>> {
    match op {
        CodegraphOp::Query => {
            let k = match trimmed_opt(kind) {
                Some(k) => seq!["--kind"@, k],
                None => Seq::empty(),
            };
            let l = match limit {
                Some(n) => seq!["--limit"@, decimal_seq(n as nat)],
                None => Seq::empty(),
            };
            k + l
        },
        CodegraphOp::Impact => match depth {
            Some(n) => seq!["--depth"@, decimal_seq(n as nat)],
            None => Seq::empty(),
        },
        CodegraphOp::Files => match trimmed_opt(path) {
            Some(p) => seq![p],
            None => Seq::empty(),
        },
        _ => Seq::empty(),
    }
}

/// The argument vector for one CodeGraph call: the operation, its trimmed
/// query when it needs one, its options, and `--json` where it applies.
pub open spec fn argv_spec(
    op: CodegraphOp,
    query: Option<Seq<char>>,
    path: Option<Seq<char>>,
    kind: Option<Seq<char>>,
    limit: Option<u32>,
    depth: Option<u32>,
) -> Result<Seq<Seq<char>>, Seq<char>> {
    let q: Option<Seq<Seq<char>>> = if op_requires_query(op) {
        match trimmed_opt(query) {
            Some(t) => Some(seq![t]),
            None => None,
        }
    } else {
        Some(Seq::empty())
    };
    match q {
        None => Err(missing_query_message(op)),
        Some(q) => Ok(
            seq![op_cli(op)] + q + op_options(op, path, kind, limit, depth) + if op_uses_json(
                op,
            ) {
                seq!["--json"@]
            } else {
                Seq::empty()
            },
        ),
    }
}

fn decimal_string(n: u32) -> (r: String)
    ensures
        r@ == decimal_seq(n as nat),
{
    let mut s = String::new();
    push_decimal(&mut s, n as u64);
    s
}

pub fn build_codegraph_argv(
    op: CodegraphOp,
    query: Option<&str>,
    path: Option<&str>,
    kind: Option<&str>,
    limit: Option<u32>,
    depth: Option<u32>,
) -> (r: Result<Vec<String>, String>)
    ensures
        match r {
            Ok(v) => argv_spec(
                op,
                opt_str_view(query),
                opt_str_view(path),
                opt_str_view(kind),
                limit,
                depth,
            ) == Ok::<Seq<Seq<char>>, Seq<char>>(strings_view(v@)),
            Err(e) => argv_spec(
                op,
                opt_str_view(query),
                opt_str_view(path),
                opt_str_view(kind),
                limit,
                depth,
            ) == Err::<Seq<Seq<char>>, Seq<char>>(e@),
        },
{
    proof {
        reveal_strlit("");
    }
    let ghost spec = argv_spec(
        op,
        opt_str_view(query),
        opt_str_view(path),
        opt_str_view(kind),
        limit,
        depth,
    );
    let mut argv: Vec<String> = Vec::new();
    argv.push(op.as_cli().to_owned());
    let ghost mut q: Seq<Seq<char>> = Seq::empty();
    if op.requires_query() {
        match trimmed_optional(query) {
            Some(t) => {
                proof {
                    q = seq![t@];
                }
                argv.push(t);
            },
            None => {
                let mut msg = String::new();
                crate::text::push_str(&mut msg, "codegraph ");
                crate::text::push_str(&mut msg, op.as_cli());
                crate::text::push_str(&mut msg, " requires a non-empty query");
                return Err(msg);
            },
        }
    }
    assert(strings_view(argv@) =~= seq![op_cli(op)] + q);
    let ghost base = strings_view(argv@);
    let ghost mut opts: Seq<Seq<char>> = Seq::empty();
    match op {
        CodegraphOp::Query => {
            if let Some(k) = trimmed_optional(kind) {
                argv.push("--kind".to_owned());
                argv.push(k);
            }
            let ghost mid = strings_view(argv@);
            if let Some(n) = limit {
                argv.push("--limit".to_owned());
                argv.push(decimal_string(n));
            }
            proof {
                opts = op_options(op, opt_str_view(path), opt_str_view(kind), limit, depth);
            }
            assert(strings_view(argv@) =~= base + opts);
        },
        CodegraphOp::Impact => {
            if let Some(n) = depth {
                argv.push("--depth".to_owned());
                argv.push(decimal_string(n));
            }
            proof {
                opts = op_options(op, opt_str_view(path), opt_str_view(kind), limit, depth);
            }
            assert(strings_view(argv@) =~= base + opts);
        },
        CodegraphOp::Files => {
            if let Some(p) = trimmed_optional(path) {
                argv.push(p);
            }
            proof {
                opts = op_options(op, opt_str_view(path), opt_str_view(kind), limit, depth);
            }
            assert(strings_view(argv@) =~= base + opts);
        },
        _ => {
            assert(strings_view(argv@) =~= base + opts);
        },
    }
    let ghost with_opts = strings_view(argv@);
    if op.uses_json_flag() {
        argv.push("--json".to_owned());
        assert(strings_view(argv@) =~= with_opts + seq!["--json"@]);
    } else {
        assert(strings_view(argv@) =~= with_opts + Seq::<Seq<char>>::empty());
    }
    Ok(argv)
}


/// Exit status and captured output of one codegraph run.
pub struct CodegraphRun {
    pub status: i32,
    pub stdout: String,
    pub stderr: String,
}

} // verus!
