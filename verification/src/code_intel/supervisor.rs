//! Command-line flags of the stdio bridge to the code-intel MCP server.

use vstd::prelude::*;

use crate::code_intel::config::strings_view;
use crate::text::{chars_of, str_eq, trim_seq, trim_vec};

verus! {

pub const STDIO_FLAG: &'static str = "--code-intel-mcp-stdio";
pub const URL_FLAG: &'static str = "--url";

/// Index of the first `--url` that has a value after it.
pub open spec fn first_url_flag(args: Seq<Seq<char>>) -> Option<int> {
    if exists|i: int| 0 <= i < args.len() - 1 && #[trigger] args[i] == URL_FLAG@ {
        Some(choose|i: int| 0 <= i < args.len() - 1 && #[trigger] args[i] == URL_FLAG@ && forall|j: int|
            0 <= j < i ==> args[j] != URL_FLAG@)
    } else {
        None
    }
}

/// The bridge URL: only with the stdio flag, the value after the first
/// `--url`, unless that value is blank.
pub open spec fn bridge_url_spec(args: Seq<Seq<char>>) -> Option<Seq<char>> {
    if !args.contains(STDIO_FLAG@) {
        None
    } else {
        match first_url_flag(args) {
            Some(i) => if trim_seq(args[i + 1]).len() > 0 {
                Some(args[i + 1])
            } else {
                None
            },
            None => None,
        }
    }
}

pub fn parse_stdio_bridge_url(args: Vec<String>) -> (r: Option<String>)
    ensures
        match r {
            Some(u) => bridge_url_spec(strings_view(args@)) == Some(u@),
            None => bridge_url_spec(strings_view(args@)) is None,
        },
{
    let ghost av = strings_view(args@);
    let mut has_flag = false;
    let mut i: usize = 0;
    while i < args.len()
        invariant
            i <= args.len(),
            av == strings_view(args@),
            has_flag == exists|k: int| 0 <= k < i && av[k] == STDIO_FLAG@,
        decreases args.len() - i,
    {
        assert(av[i as int] == args@[i as int]@);
        if str_eq(args[i].as_str(), STDIO_FLAG) {
            has_flag = true;
        }
        i += 1;
    }
    if !has_flag {
        assert(!av.contains(STDIO_FLAG@));
        return None;
    }
    assert(av.contains(STDIO_FLAG@));
    let mut j: usize = 0;
    while j < args.len() && j + 1 < args.len()
        invariant
            j <= args.len(),
            av == strings_view(args@),
            av.contains(STDIO_FLAG@),
            forall|k: int| 0 <= k < j ==> av[k] != URL_FLAG@,
        decreases args.len() - j,
    {
        assert(av[j as int] == args@[j as int]@);
        if str_eq(args[j].as_str(), URL_FLAG) {
            proof {
                assert(av[j as int] == URL_FLAG@);
                assert(exists|x: int| 0 <= x < av.len() - 1 && #[trigger] av[x] == URL_FLAG@);
                let c = first_url_flag(av)->0;
                assert(c == j) by {
                    if c < j {
                    } else if c > j {
                    }
                }
            }
            let t = trim_vec(&chars_of(args[j + 1].as_str()));
            if t.len() > 0 {
                return Some(args[j + 1].clone());
            } else {
                return None;
            }
        }
        j += 1;
    }
    proof {
        assert forall|x: int| 0 <= x < av.len() - 1 implies #[trigger] av[x] != URL_FLAG@ by {}
    }
    None
}

} // verus!
