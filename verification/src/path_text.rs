//! Unix path text: the last component and its extension, as `std::path::Path`
//! reads them.

use vstd::prelude::*;

use crate::text::{chars_of, count_while, eq_lit, last_index_of_char, last_index_seq, lemma_count_while, push_char, push_str, subvec};

verus! {

/// `Path::file_name`: the last normal component. Empty and `.` components are
/// skipped; a final `..` or a path of no normal component has none.
pub open spec fn file_name_spec(s: Seq<char>) -> Option<Seq<char>>
    decreases s.len(),
{
    let (rest, comp) = match last_index_seq(s, '/') {
        Some(i) => (Some(s.take(i)), s.skip(i + 1)),
        None => (None, s),
    };
    if comp.len() == 0 || comp == "."@ {
        match rest {
            None => None,
            Some(r) => if r.len() < s.len() {
                file_name_spec(r)
            } else {
                None
            },
        }
    } else if comp == ".."@ {
        None
    } else {
        Some(comp)
    }
}

/// `Path::extension`: the text after the last `.` of the file name, unless
/// that dot opens the name or there is none.
pub open spec fn extension_spec(s: Seq<char>) -> Option<Seq<char>> {
    match file_name_spec(s) {
        None => None,
        Some(name) => match last_index_seq(name, '.') {
            Some(i) => if i > 0 {
                Some(name.skip(i + 1))
            } else {
                None
            },
            None => None,
        },
    }
}

pub open spec fn opt_chars(o: Option<Vec<char>>) -> Option<Seq<char>> {
    match o {
        Some(v) => Some(v@),
        None => None,
    }
}

/// Last normal component of a path; see [`file_name_spec`].
pub fn file_name(s: &Vec<char>) -> (r: Option<Vec<char>>)
    ensures
        opt_chars(r) == file_name_spec(s@),
{
    let mut cur = subvec(s, 0, s.len());
    assert(s@.subrange(0, s.len() as int) =~= s@);
    loop
        invariant
            file_name_spec(cur@) == file_name_spec(s@),
        decreases cur.len(),
    {
        let i = last_index_of_char(&cur, '/');
        let comp = match i {
            Some(i) => subvec(&cur, i + 1, cur.len()),
            None => subvec(&cur, 0, cur.len()),
        };
        proof {
            match i {
                Some(k) => assert(comp@ =~= cur@.skip(k + 1)),
                None => assert(comp@ =~= cur@),
            }
        }
        if comp.len() == 0 || eq_lit(&comp, ".") {
            match i {
                None => return None,
                Some(k) => {
                    let next = subvec(&cur, 0, k);
                    assert(next@ =~= cur@.take(k as int));
                    cur = next;
                },
            }
        } else if eq_lit(&comp, "..") {
            return None;
        } else {
            return Some(comp);
        }
    }
}

/// Extension of a path's file name; see [`extension_spec`].
pub fn extension(s: &Vec<char>) -> (r: Option<Vec<char>>)
    ensures
        opt_chars(r) == extension_spec(s@),
{
    match file_name(s) {
        None => None,
        Some(name) => match last_index_of_char(&name, '.') {
            Some(i) => if i > 0 {
                let e = subvec(&name, i + 1, name.len());
                assert(e@ =~= name@.skip(i + 1));
                Some(e)
            } else {
                None
            },
            None => None,
        },
    }
}


/// `Path::join` on Unix text: an absolute `b` replaces `a`; otherwise `b` is
/// appended after a `/` unless `a` is empty or already ends with one.
pub open spec fn join_spec(a: Seq<char>, b: Seq<char>) -> Seq<char> {
    if b.len() > 0 && b[0] == '/' {
        b
    } else if a.len() == 0 {
        b
    } else if a.last() == '/' {
        a + b
    } else {
        a + seq!['/'] + b
    }
}

pub fn join_path(a: &str, b: &str) -> (r: String)
    ensures
        r@ == join_spec(a@, b@),
{
    let av = chars_of(a);
    let bv = chars_of(b);
    if bv.len() > 0 && bv[0] == '/' {
        return b.to_owned();
    }
    if av.len() == 0 {
        return b.to_owned();
    }
    let mut s = a.to_owned();
    if av[av.len() - 1] != '/' {
        push_char(&mut s, '/');
    }
    push_str(&mut s, b);
    s
}


/// `s` cut at every character `is_sep` accepts; empty pieces are kept.
pub open spec fn split_spec(s: Seq<char>, is_sep: spec_fn(char) -> bool) -> Seq<Seq<char>>
    decreases s.len(),
{
    let i = count_while(s, |c: char| !is_sep(c));
    if i >= s.len() {
        seq![s]
    } else {
        seq![s.take(i as int)] + split_spec(s.skip(i + 1 as int), is_sep)
    }
}

pub open spec fn is_slash(c: char) -> bool {
    c == '/'
}

pub open spec fn is_slash_or_backslash(c: char) -> bool {
    c == '/' || c == '\\'
}

/// Components of a Unix path as `Path::components` gives them: whether it
/// starts at the root, whether it starts with a `.` component, and the other
/// components in order (empty and `.` pieces dropped; `..` kept).
pub struct PathParts {
    pub root: bool,
    pub cur: bool,
    pub comps: Seq<Seq<char>>,
}

pub open spec fn keep_component(c: Seq<char>) -> bool {
    c.len() > 0 && c != "."@
}

pub open spec fn filter_components(pieces: Seq<Seq<char>>) -> Seq<Seq<char>>
    decreases pieces.len(),
{
    if pieces.len() == 0 {
        Seq::empty()
    } else {
        let rest = filter_components(pieces.drop_last());
        if keep_component(pieces.last()) {
            rest.push(pieces.last())
        } else {
            rest
        }
    }
}

pub open spec fn path_parts(s: Seq<char>) -> PathParts {
    let root = s.len() > 0 && s[0] == '/';
    let cur = !root && s.len() > 0 && s[0] == '.' && (s.len() == 1 || s[1] == '/');
    PathParts { root, cur, comps: filter_components(split_spec(s, |c: char| is_slash(c))) }
}

proof fn lemma_split_step(s: Seq<char>, is_sep: spec_fn(char) -> bool, start: int, i: int)
    requires
        0 <= start <= i < s.len(),
        forall|k: int| start <= k < i ==> !is_sep(#[trigger] s[k]),
        is_sep(s[i]),
    ensures
        split_spec(s.skip(start), is_sep) == seq![s.subrange(start, i)] + split_spec(
            s.skip(i + 1),
            is_sep,
        ),
{
    let t = s.skip(start);
    let p = |c: char| !is_sep(c);
    assert forall|k: int| 0 <= k < i - start implies #[trigger] p(t[k]) by {
        assert(t[k] == s[k + start]);
    }
    assert(t[i - start] == s[i]);
    lemma_count_while(t, p, i - start);
    assert(t.take(i - start) =~= s.subrange(start, i));
    assert(t.skip(i - start + 1) =~= s.skip(i + 1));
}

proof fn lemma_split_last(s: Seq<char>, is_sep: spec_fn(char) -> bool, start: int)
    requires
        0 <= start <= s.len(),
        forall|k: int| start <= k < s.len() ==> !is_sep(#[trigger] s[k]),
    ensures
        split_spec(s.skip(start), is_sep) == seq![s.skip(start)],
{
    let t = s.skip(start);
    let p = |c: char| !is_sep(c);
    assert forall|k: int| 0 <= k < t.len() implies #[trigger] p(t[k]) by {
        assert(t[k] == s[k + start]);
    }
    lemma_count_while(t, p, t.len() as int);
}

pub open spec fn pieces_view(v: Seq<Vec<char>>) -> Seq<Seq<char>> {
    v.map_values(|x: Vec<char>| x@)
}

/// Pieces of `v` between `/` characters (and `\\` too when `backslash`).
pub fn split_path_text(v: &Vec<char>, backslash: bool) -> (r: Vec<Vec<char>>)
    ensures
        pieces_view(r@) == split_spec(
            v@,
            if backslash {
                |c: char| is_slash_or_backslash(c)
            } else {
                |c: char| is_slash(c)
            },
        ),
{
    let ghost sep: spec_fn(char) -> bool = if backslash {
        |c: char| is_slash_or_backslash(c)
    } else {
        |c: char| is_slash(c)
    };
    let mut out: Vec<Vec<char>> = Vec::new();
    let mut start: usize = 0;
    let mut i: usize = 0;
    assert(v@.skip(0) =~= v@);
    while i < v.len()
        invariant
            start <= i <= v.len(),
            forall|k: int| start <= k < i ==> !sep(#[trigger] v@[k]),
            split_spec(v@, sep) == pieces_view(out@) + split_spec(v@.skip(start as int), sep),
            sep == (if backslash {
                |c: char| is_slash_or_backslash(c)
            } else {
                |c: char| is_slash(c)
            }),
        decreases v.len() - i,
    {
        let c = v[i];
        let hit = c == '/' || (backslash && c == '\\');
        assert(hit == sep(c));
        if hit {
            proof {
                lemma_split_step(v@, sep, start as int, i as int);
            }
            let piece = subvec(v, start, i);
            let ghost before = out@;
            out.push(piece);
            assert(pieces_view(out@) =~= pieces_view(before).push(v@.subrange(start as int, i as int)));
            assert(pieces_view(out@) + split_spec(v@.skip(i + 1), sep) =~= pieces_view(before) + (
            seq![v@.subrange(start as int, i as int)] + split_spec(v@.skip(i + 1), sep)));
            start = i + 1;
        }
        i += 1;
    }
    proof {
        lemma_split_last(v@, sep, start as int);
    }
    let last = subvec(v, start, v.len());
    assert(last@ =~= v@.skip(start as int));
    let ghost before = out@;
    out.push(last);
    assert(pieces_view(out@) =~= pieces_view(before) + seq![v@.skip(start as int)]);
    out
}

/// The kept components of `pieces`, in order.
pub fn filter_path_components(pieces: &Vec<Vec<char>>) -> (r: Vec<Vec<char>>)
    ensures
        pieces_view(r@) == filter_components(pieces_view(pieces@)),
{
    let ghost pv = pieces_view(pieces@);
    let mut out: Vec<Vec<char>> = Vec::new();
    let mut i: usize = 0;
    while i < pieces.len()
        invariant
            i <= pieces.len(),
            pv == pieces_view(pieces@),
            pieces_view(out@) == filter_components(pv.take(i as int)),
        decreases pieces.len() - i,
    {
        assert(pv.take(i + 1).drop_last() =~= pv.take(i as int));
        assert(pv.take(i + 1).last() == pieces@[i as int]@);
        let p = &pieces[i];
        if p.len() > 0 && !eq_lit(p, ".") {
            let ghost before = out@;
            out.push(subvec(p, 0, p.len()));
            assert(p@.subrange(0, p@.len() as int) =~= p@);
            assert(pieces_view(out@) =~= pieces_view(before).push(p@));
        }
        i += 1;
    }
    assert(pv.take(pieces.len() as int) =~= pv);
    out
}

/// Exec form of [`PathParts`].
pub struct PathPartsExec {
    pub root: bool,
    pub cur: bool,
    pub comps: Vec<Vec<char>>,
}

pub fn parse_path(s: &Vec<char>) -> (r: PathPartsExec)
    ensures
        r.root == path_parts(s@).root,
        r.cur == path_parts(s@).cur,
        pieces_view(r.comps@) == path_parts(s@).comps,
{
    let root = s.len() > 0 && s[0] == '/';
    let cur = !root && s.len() > 0 && s[0] == '.' && (s.len() == 1 || s[1] == '/');
    let pieces = split_path_text(s, false);
    let comps = filter_path_components(&pieces);
    PathPartsExec { root, cur, comps }
}

} // verus!
