//! Which committed compaction a session resumes from after a restart, and
//! which stored compaction a new request can reuse. The records are read
//! from disk, and their attachments verified, by the caller.

use vstd::prelude::*;

use crate::text::{chars_of, str_eq};

verus! {

/// What recovery reads of one stored compaction.
pub struct CheckpointSummary {
    pub id: String,
    pub previous_id: Option<String>,
    pub conversation_id: String,
    pub epoch: u64,
    pub covers_through_seq: u64,
    pub source_slice_sha256: String,
    pub fingerprint: String,
    /// Committed, as opposed to still pending.
    pub committed: bool,
    /// Its attachments verify against their manifest on disk.
    pub files_ok: bool,
}

pub struct CpView {
    pub id: Seq<char>,
    pub previous_id: Option<Seq<char>>,
    pub conversation_id: Seq<char>,
    pub epoch: u64,
    pub covers: u64,
    pub slice: Seq<char>,
    pub fingerprint: Seq<char>,
    pub committed: bool,
    pub files_ok: bool,
}

impl View for CheckpointSummary {
    type V = CpView;

    open spec fn view(&self) -> CpView {
        CpView {
            id: self.id@,
            previous_id: match self.previous_id {
                Some(p) => Some(p@),
                None => None,
            },
            conversation_id: self.conversation_id@,
            epoch: self.epoch,
            covers: self.covers_through_seq,
            slice: self.source_slice_sha256@,
            fingerprint: self.fingerprint@,
            committed: self.committed,
            files_ok: self.files_ok,
        }
    }
}

pub open spec fn cp_views(cs: Seq<CheckpointSummary>) -> Seq<CpView> {
    cs.map_values(|c: CheckpointSummary| c@)
}

/// The first record with `id`, from `k` on.
pub open spec fn find_id(cs: Seq<CpView>, id: Seq<char>, k: int) -> Option<int>
    decreases cs.len() - k,
{
    if k < 0 || k >= cs.len() {
        None
    } else if cs[k].id == id {
        Some(k)
    } else {
        find_id(cs, id, k + 1)
    }
}

/// Same conversation, epoch and fingerprint.
pub open spec fn same_generation(a: CpView, b: CpView) -> bool {
    a.conversation_id == b.conversation_id && a.epoch == b.epoch && a.fingerprint == b.fingerprint
}

/// A record's lineage holds: it starts a chain, or its predecessor is
/// present, committed, of the same generation and covers less.
pub open spec fn lineage_ok(cs: Seq<CpView>, i: int) -> bool {
    match cs[i].previous_id {
        None => true,
        Some(p) => match find_id(cs, p, 0) {
            None => false,
            Some(j) => cs[j].committed && same_generation(cs[j], cs[i]) && cs[j].covers
                < cs[i].covers,
        },
    }
}

/// A record recovery may resume from: sound lineage and verified files.
pub open spec fn usable(cs: Seq<CpView>, i: int) -> bool {
    0 <= i < cs.len() && lineage_ok(cs, i) && cs[i].files_ok
}

/// `j` continues `cur`: it names `cur` as predecessor, is of its generation,
/// covers more, and is usable.
pub open spec fn successor(cs: Seq<CpView>, cur: int, j: int) -> bool {
    &&& usable(cs, j)
    &&& cs[j].previous_id == Some(cs[cur].id)
    &&& same_generation(cs[j], cs[cur])
    &&& cs[j].covers > cs[cur].covers
}

/// How many of the records before `k` continue `cur`.
pub open spec fn successor_count(cs: Seq<CpView>, cur: int, k: int) -> nat
    decreases k,
{
    if k <= 0 {
        0
    } else {
        successor_count(cs, cur, k - 1) + if successor(cs, cur, k - 1) {
            1nat
        } else {
            0nat
        }
    }
}

/// The first record from `k` on that continues `cur`.
pub open spec fn first_successor(cs: Seq<CpView>, cur: int, k: int) -> Option<int>
    decreases cs.len() - k,
{
    if k < 0 || k >= cs.len() {
        None
    } else if successor(cs, cur, k) {
        Some(k)
    } else {
        first_successor(cs, cur, k + 1)
    }
}

pub proof fn lemma_first_successor(cs: Seq<CpView>, cur: int, k: int)
    ensures
        first_successor(cs, cur, k) matches Some(j) ==> k <= j < cs.len() && successor(cs, cur, j),
    decreases cs.len() - k,
{
    if 0 <= k < cs.len() && !successor(cs, cur, k) {
        lemma_first_successor(cs, cur, k + 1);
    }
}

/// From `cur`, follow the chain forward while exactly one record continues
/// it.
pub open spec fn walk_forward(cs: Seq<CpView>, cur: int) -> int
    decreases u64::MAX - cs[cur].covers,
{
    if 0 <= cur < cs.len() && successor_count(cs, cur, cs.len() as int) == 1 {
        match first_successor(cs, cur, 0) {
            Some(j) => {
                proof {
                    lemma_first_successor(cs, cur, 0);
                }
                walk_forward(cs, j)
            },
            None => cur,
        }
    } else {
        cur
    }
}

/// Every usable record is of one generation, and there is one.
pub open spec fn one_generation(cs: Seq<CpView>) -> bool {
    &&& exists|i: int| usable(cs, i)
    &&& forall|i: int, j: int| usable(cs, i) && usable(cs, j) ==> same_generation(cs[i], cs[j])
}

/// A usable record no other usable record names as predecessor.
pub open spec fn is_tip(cs: Seq<CpView>, i: int) -> bool {
    usable(cs, i) && !exists|j: int| usable(cs, j) && cs[j].previous_id == Some(cs[i].id)
}

pub open spec fn tip_count(cs: Seq<CpView>, k: int) -> nat
    decreases k,
{
    if k <= 0 {
        0
    } else {
        tip_count(cs, k - 1) + if is_tip(cs, k - 1) {
            1nat
        } else {
            0nat
        }
    }
}

pub open spec fn first_tip(cs: Seq<CpView>, k: int) -> Option<int>
    decreases cs.len() - k,
{
    if k < 0 || k >= cs.len() {
        None
    } else if is_tip(cs, k) {
        Some(k)
    } else {
        first_tip(cs, k + 1)
    }
}

/// The compaction to resume from: the one the session points at, walked
/// forward, when it is usable; else, when the usable records form one
/// generation with a single tip, that tip; else none.
pub open spec fn choose_active_spec(cs: Seq<CpView>, pointer: Option<Seq<char>>) -> Option<int> {
    if pointer_pick(cs, pointer) is Some {
        pointer_pick(cs, pointer)
    } else if !one_generation(cs) {
        None
    } else if tip_count(cs, cs.len() as int) == 1 {
        first_tip(cs, 0)
    } else {
        None
    }
}

/// The record the session points at, walked forward, when it is usable.
pub open spec fn pointer_pick(cs: Seq<CpView>, pointer: Option<Seq<char>>) -> Option<int> {
    match pointer {
        Some(id) => match find_id(cs, id, 0) {
            Some(s) => if usable(cs, s) {
                Some(walk_forward(cs, s))
            } else {
                None
            },
            None => None,
        },
        None => None,
    }
}

fn find_index(cs: &Vec<CheckpointSummary>, id: &str) -> (r: Option<usize>)
    ensures
        match r {
            Some(i) => i < cs.len() && find_id(cp_views(cs@), id@, 0) == Some(i as int),
            None => find_id(cp_views(cs@), id@, 0) is None,
        },
{
    let ghost cv = cp_views(cs@);
    let mut k: usize = 0;
    while k < cs.len()
        invariant
            k <= cs.len(),
            cv == cp_views(cs@),
            find_id(cv, id@, 0) == find_id(cv, id@, k as int),
        decreases cs.len() - k,
    {
        assert(cv[k as int] == cs@[k as int]@);
        if str_eq(cs[k].id.as_str(), id) {
            return Some(k);
        }
        k += 1;
    }
    None
}

fn same_gen(a: &CheckpointSummary, b: &CheckpointSummary) -> (r: bool)
    ensures
        r == same_generation(a@, b@),
{
    str_eq(a.conversation_id.as_str(), b.conversation_id.as_str()) && a.epoch == b.epoch && str_eq(
        a.fingerprint.as_str(),
        b.fingerprint.as_str(),
    )
}

fn check_lineage(cs: &Vec<CheckpointSummary>, i: usize) -> (r: bool)
    requires
        i < cs.len(),
    ensures
        r == lineage_ok(cp_views(cs@), i as int),
{
    let ghost cv = cp_views(cs@);
    assert(cv[i as int] == cs@[i as int]@);
    match &cs[i].previous_id {
        None => true,
        Some(p) => match find_index(cs, p.as_str()) {
            None => false,
            Some(j) => {
                assert(cv[j as int] == cs@[j as int]@);
                cs[j].committed && same_gen(&cs[j], &cs[i]) && cs[j].covers_through_seq
                    < cs[i].covers_through_seq
            },
        },
    }
}

fn is_usable(cs: &Vec<CheckpointSummary>, i: usize) -> (r: bool)
    requires
        i < cs.len(),
    ensures
        r == usable(cp_views(cs@), i as int),
{
    assert(cp_views(cs@)[i as int] == cs@[i as int]@);
    check_lineage(cs, i) && cs[i].files_ok
}

fn is_successor(cs: &Vec<CheckpointSummary>, cur: usize, j: usize) -> (r: bool)
    requires
        cur < cs.len(),
        j < cs.len(),
    ensures
        r == successor(cp_views(cs@), cur as int, j as int),
{
    let ghost cv = cp_views(cs@);
    assert(cv[cur as int] == cs@[cur as int]@);
    assert(cv[j as int] == cs@[j as int]@);
    let names_cur = match &cs[j].previous_id {
        Some(p) => str_eq(p.as_str(), cs[cur].id.as_str()),
        None => false,
    };
    is_usable(cs, j) && names_cur && same_gen(&cs[j], &cs[cur]) && cs[j].covers_through_seq
        > cs[cur].covers_through_seq
}

/// Follows the chain forward from `start`; see [`walk_forward`].
fn walk(cs: &Vec<CheckpointSummary>, start: usize) -> (r: usize)
    requires
        start < cs.len(),
    ensures
        r < cs.len(),
        r as int == walk_forward(cp_views(cs@), start as int),
{
    let ghost cv = cp_views(cs@);
    let mut cur = start;
    loop
        invariant
            cur < cs.len(),
            cv == cp_views(cs@),
            walk_forward(cv, start as int) == walk_forward(cv, cur as int),
        decreases u64::MAX - cs@[cur as int].covers_through_seq,
    {
        assert(cv[cur as int] == cs@[cur as int]@);
        let mut count: usize = 0;
        let mut first: Option<usize> = None;
        let mut j: usize = 0;
        while j < cs.len()
            invariant
                cur < cs.len(),
                j <= cs.len(),
                cv == cp_views(cs@),
                count <= j,
                count == successor_count(cv, cur as int, j as int),
                match first {
                    Some(f) => f < j && first_successor(cv, cur as int, 0) == Some(f as int),
                    None => first_successor(cv, cur as int, 0) == first_successor(
                        cv,
                        cur as int,
                        j as int,
                    ),
                },
            decreases cs.len() - j,
        {
            if is_successor(cs, cur, j) {
                count += 1;
                if first.is_none() {
                    first = Some(j);
                }
            }
            j += 1;
        }
        if count != 1 {
            return cur;
        }
        match first {
            Some(f) => {
                proof {
                    lemma_first_successor(cv, cur as int, 0);
                    assert(cv[f as int] == cs@[f as int]@);
                }
                cur = f;
            },
            None => {
                proof {
                    lemma_count_has_first(cv, cur as int, cs.len() as int);
                }
                return cur;
            },
        }
    }
}

proof fn lemma_count_has_first(cs: Seq<CpView>, cur: int, k: int)
    requires
        0 <= k <= cs.len(),
        successor_count(cs, cur, k) > 0,
    ensures
        first_successor(cs, cur, 0) is Some,
    decreases k,
{
    if successor(cs, cur, k - 1) {
        lemma_first_successor_found(cs, cur, 0, k - 1);
    } else {
        lemma_count_has_first(cs, cur, k - 1);
    }
}

proof fn lemma_first_successor_found(cs: Seq<CpView>, cur: int, k: int, j: int)
    requires
        0 <= k <= j < cs.len(),
        successor(cs, cur, j),
    ensures
        first_successor(cs, cur, k) matches Some(f) && f <= j,
    decreases j - k,
{
    if !successor(cs, cur, k) {
        lemma_first_successor_found(cs, cur, k + 1, j);
    }
}


pub open spec fn opt_text(o: Option<&str>) -> Option<Seq<char>> {
    match o {
        Some(s) => Some(s@),
        None => None,
    }
}

/// The compaction to resume from; see [`choose_active_spec`]. `committed`
/// lists the committed records, each id once.
pub fn choose_active(pointer: Option<&str>, committed: &Vec<CheckpointSummary>) -> (r: Option<usize>)
    ensures
        match r {
            Some(i) => i < committed.len() && choose_active_spec(cp_views(committed@), opt_text(pointer))
                == Some(i as int),
            None => choose_active_spec(cp_views(committed@), opt_text(pointer)) is None,
        },
{
    let ghost cv = cp_views(committed@);
    match pointer {
        Some(id) => match find_index(committed, id) {
            Some(s) => {
                if is_usable(committed, s) {
                    return Some(walk(committed, s));
                }
            },
            None => {},
        },
        None => {},
    }
    assert(pointer_pick(cv, opt_text(pointer)) is None);
    let mut first: Option<usize> = None;
    let mut i: usize = 0;
    while i < committed.len()
        invariant
            i <= committed.len(),
            cv == cp_views(committed@),
            pointer_pick(cv, opt_text(pointer)) is None,
            match first {
                Some(u) => u < i && usable(cv, u as int) && forall|k: int|
                    0 <= k < i && usable(cv, k) ==> same_generation(cv[k], cv[u as int]),
                None => forall|k: int| 0 <= k < i ==> !usable(cv, k),
            },
        decreases committed.len() - i,
    {
        if is_usable(committed, i) {
            match first {
                None => {
                    first = Some(i);
                },
                Some(u) => {
                    if !same_gen(&committed[i], &committed[u]) {
                        assert(usable(cv, i as int) && usable(cv, u as int) && !same_generation(
                            cv[i as int],
                            cv[u as int],
                        ));
                        assert(!one_generation(cv));
                        return None;
                    }
                },
            }
        }
        i += 1;
    }
    if first.is_none() {
        return None;
    }
    assert(one_generation(cv)) by {
        let u = first->Some_0;
        assert(usable(cv, u as int));
    }
    let mut tips: usize = 0;
    let mut first_tip_at: Option<usize> = None;
    let mut k: usize = 0;
    while k < committed.len()
        invariant
            k <= committed.len(),
            cv == cp_views(committed@),
            pointer_pick(cv, opt_text(pointer)) is None,
            one_generation(cv),
            tips <= k,
            tips == tip_count(cv, k as int),
            match first_tip_at {
                Some(f) => f < k && first_tip(cv, 0) == Some(f as int),
                None => first_tip(cv, 0) == first_tip(cv, k as int),
            },
        decreases committed.len() - k,
    {
        if is_tip_exec(committed, k) {
            tips += 1;
            if first_tip_at.is_none() {
                first_tip_at = Some(k);
            }
        }
        k += 1;
    }
    if tips != 1 {
        return None;
    }
    match first_tip_at {
        Some(f) => Some(f),
        None => {
            proof {
                lemma_tip_count_has_first(cv, committed.len() as int);
            }
            None
        },
    }
}

fn is_tip_exec(cs: &Vec<CheckpointSummary>, i: usize) -> (r: bool)
    requires
        i < cs.len(),
    ensures
        r == is_tip(cp_views(cs@), i as int),
{
    let ghost cv = cp_views(cs@);
    if !is_usable(cs, i) {
        return false;
    }
    assert(cv[i as int] == cs@[i as int]@);
    let mut j: usize = 0;
    while j < cs.len()
        invariant
            i < cs.len(),
            j <= cs.len(),
            cv == cp_views(cs@),
            forall|k: int| 0 <= k < j ==> !(usable(cv, k) && cv[k].previous_id == Some(cv[i as int].id)),
        decreases cs.len() - j,
    {
        assert(cv[j as int] == cs@[j as int]@);
        let names_i = match &cs[j].previous_id {
            Some(p) => str_eq(p.as_str(), cs[i].id.as_str()),
            None => false,
        };
        if names_i && is_usable(cs, j) {
            return false;
        }
        j += 1;
    }
    true
}

proof fn lemma_tip_count_has_first(cs: Seq<CpView>, k: int)
    requires
        0 <= k <= cs.len(),
        tip_count(cs, k) > 0,
    ensures
        first_tip(cs, 0) is Some,
    decreases k,
{
    if is_tip(cs, k - 1) {
        lemma_first_tip_found(cs, 0, k - 1);
    } else {
        lemma_tip_count_has_first(cs, k - 1);
    }
}

proof fn lemma_first_tip_found(cs: Seq<CpView>, k: int, j: int)
    requires
        0 <= k <= j < cs.len(),
        is_tip(cs, j),
    ensures
        first_tip(cs, k) matches Some(f) && f <= j,
    decreases j - k,
{
    if !is_tip(cs, k) {
        lemma_first_tip_found(cs, k + 1, j);
    }
}

proof fn lemma_first_tip_is_tip(cs: Seq<CpView>, k: int)
    ensures
        first_tip(cs, k) matches Some(f) ==> is_tip(cs, f),
    decreases cs.len() - k,
{
    if 0 <= k < cs.len() && !is_tip(cs, k) {
        lemma_first_tip_is_tip(cs, k + 1);
    }
}

proof fn lemma_walk_usable(cs: Seq<CpView>, cur: int)
    requires
        usable(cs, cur),
    ensures
        usable(cs, walk_forward(cs, cur)),
    decreases u64::MAX - cs[cur].covers,
{
    if successor_count(cs, cur, cs.len() as int) == 1 {
        if let Some(j) = first_successor(cs, cur, 0) {
            lemma_first_successor(cs, cur, 0);
            lemma_walk_usable(cs, j);
        }
    }
}

/// The compaction recovery resumes from always has a sound lineage and
/// attachments that verify.
pub proof fn lemma_active_is_usable(cs: Seq<CpView>, pointer: Option<Seq<char>>)
    ensures
        choose_active_spec(cs, pointer) matches Some(i) ==> usable(cs, i),
{
    if let Some(id) = pointer {
        if let Some(s) = find_id(cs, id, 0) {
            if usable(cs, s) {
                lemma_walk_usable(cs, s);
            }
        }
    }
    lemma_first_tip_is_tip(cs, 0);
}

/// `a` comes before `b` in the byte order of their UTF-8 text, which is the
/// order of their characters' code points.
pub open spec fn text_lt(a: Seq<char>, b: Seq<char>) -> bool
    decreases a.len(),
{
    if b.len() == 0 {
        false
    } else if a.len() == 0 {
        true
    } else if a[0] != b[0] {
        (a[0] as u32) < (b[0] as u32)
    } else {
        text_lt(a.drop_first(), b.drop_first())
    }
}

/// The key a stored compaction is looked up by.
pub open spec fn reuse_match(c: CpView, conversation_id: Seq<char>, epoch: u64, covers: u64, slice: Seq<char>, fingerprint: Seq<char>) -> bool {
    c.conversation_id == conversation_id && c.epoch == epoch && c.covers == covers && c.slice == slice
        && c.fingerprint == fingerprint
}

/// Committed ranks before pending.
pub open spec fn reuse_rank(c: CpView) -> int {
    if c.committed {
        0
    } else {
        1
    }
}

/// `a` sorts before `b`: lower rank, then smaller id.
pub open spec fn reuse_before(a: CpView, b: CpView) -> bool {
    reuse_rank(a) < reuse_rank(b) || (reuse_rank(a) == reuse_rank(b) && text_lt(a.id, b.id))
}

/// A match no other match sorts before.
pub open spec fn reuse_best(cs: Seq<CpView>, i: int, conversation_id: Seq<char>, epoch: u64, covers: u64, slice: Seq<char>, fingerprint: Seq<char>) -> bool {
    &&& 0 <= i < cs.len()
    &&& reuse_match(cs[i], conversation_id, epoch, covers, slice, fingerprint)
    &&& forall|j: int|
        0 <= j < cs.len() && reuse_match(cs[j], conversation_id, epoch, covers, slice, fingerprint)
            ==> !reuse_before(#[trigger] cs[j], cs[i])
}

/// Whether `a` sorts before `b` by their text.
fn text_before(a: &str, b: &str) -> (r: bool)
    ensures
        r == text_lt(a@, b@),
{
    let x = chars_of(a);
    let y = chars_of(b);
    let mut k: usize = 0;
    assert(x@.skip(0) =~= x@);
    assert(y@.skip(0) =~= y@);
    while k < x.len() && k < y.len() && x[k] == y[k]
        invariant
            k <= x.len(),
            k <= y.len(),
            text_lt(x@, y@) == text_lt(x@.skip(k as int), y@.skip(k as int)),
        decreases x.len() - k,
    {
        assert(x@.skip(k as int).drop_first() =~= x@.skip(k + 1));
        assert(y@.skip(k as int).drop_first() =~= y@.skip(k + 1));
        k += 1;
    }
    if k == y.len() {
        assert(y@.skip(k as int).len() == 0);
        return false;
    }
    if k == x.len() {
        assert(x@.skip(k as int).len() == 0);
        return true;
    }
    assert(x@.skip(k as int)[0] == x@[k as int]);
    assert(y@.skip(k as int)[0] == y@[k as int]);
    (x[k] as u32) < (y[k] as u32)
}

pub proof fn lemma_text_lt_irrefl(a: Seq<char>)
    ensures
        !text_lt(a, a),
    decreases a.len(),
{
    if a.len() > 0 {
        lemma_text_lt_irrefl(a.drop_first());
    }
}

pub proof fn lemma_text_lt_trans(a: Seq<char>, b: Seq<char>, c: Seq<char>)
    requires
        text_lt(a, b),
        text_lt(b, c),
    ensures
        text_lt(a, c),
    decreases a.len(),
{
    if a.len() > 0 && b.len() > 0 && c.len() > 0 && a[0] == b[0] && b[0] == c[0] {
        lemma_text_lt_trans(a.drop_first(), b.drop_first(), c.drop_first());
    }
}

pub proof fn lemma_text_lt_total(a: Seq<char>, b: Seq<char>)
    ensures
        a == b || text_lt(a, b) || text_lt(b, a),
    decreases a.len(),
{
    if a.len() == 0 && b.len() == 0 {
        assert(a =~= b);
    } else if a.len() > 0 && b.len() > 0 && a[0] == b[0] {
        lemma_text_lt_total(a.drop_first(), b.drop_first());
        if a.drop_first() == b.drop_first() {
            assert(a.drop_first().len() == b.drop_first().len());
            assert(a.len() == b.len());
            assert(a =~= b) by {
                assert forall|k: int| 0 <= k < a.len() implies a[k] == b[k] by {
                    if k > 0 {
                        assert(a[k] == a.drop_first()[k - 1]);
                        assert(b[k] == b.drop_first()[k - 1]);
                    }
                }
            }
        }
    } else if a.len() > 0 && b.len() > 0 {
        vstd::utf8::char_u32_cast(a[0], a[0] as u32);
        vstd::utf8::char_u32_cast(b[0], b[0] as u32);
    }
}

pub proof fn lemma_reuse_order(x: CpView, y: CpView, z: CpView)
    ensures
        !reuse_before(x, x),
        reuse_before(x, y) && reuse_before(y, z) ==> reuse_before(x, z),
        same_key(x, y) || reuse_before(x, y) || reuse_before(y, x),
        same_key(x, y) && reuse_before(z, x) ==> reuse_before(z, y),
        same_key(x, y) && reuse_before(x, z) ==> reuse_before(y, z),
{
    lemma_text_lt_irrefl(x.id);
    if reuse_before(x, y) && reuse_before(y, z) && reuse_rank(x) == reuse_rank(y) && reuse_rank(y)
        == reuse_rank(z) {
        lemma_text_lt_trans(x.id, y.id, z.id);
    }
    lemma_text_lt_total(x.id, y.id);
}

/// The stored compaction a request with this key can reuse: among matches,
/// the committed ones first, then the smallest id, then the first listed.
pub fn pick_reusable(
    all: &Vec<CheckpointSummary>,
    conversation_id: &str,
    epoch: u64,
    covers: u64,
    slice: &str,
    fingerprint: &str,
) -> (r: Option<usize>)
    ensures
        match r {
            Some(i) => reuse_best(cp_views(all@), i as int, conversation_id@, epoch, covers, slice@, fingerprint@)
                && forall|k: int| 0 <= k < i ==> !reuse_best(cp_views(all@), k, conversation_id@, epoch, covers, slice@, fingerprint@),
            None => forall|k: int| 0 <= k < all.len() ==> !reuse_match(#[trigger] cp_views(all@)[k], conversation_id@, epoch, covers, slice@, fingerprint@),
        },
{
    let ghost cv = cp_views(all@);
    let ghost key = (conversation_id@, epoch, covers, slice@, fingerprint@);
    let mut best: Option<usize> = None;
    let mut i: usize = 0;
    while i < all.len()
        invariant
            i <= all.len(),
            cv == cp_views(all@),
            key == (conversation_id@, epoch, covers, slice@, fingerprint@),
            match best {
                Some(b) => b < i && reuse_match(cv[b as int], key.0, key.1, key.2, key.3, key.4)
                    && (forall|j: int| 0 <= j < i && reuse_match(#[trigger] cv[j], key.0, key.1, key.2, key.3, key.4)
                        ==> !reuse_before(cv[j], cv[b as int]))
                    && (forall|j: int| 0 <= j < b && reuse_match(#[trigger] cv[j], key.0, key.1, key.2, key.3, key.4)
                        ==> reuse_before(cv[b as int], cv[j])),
                None => forall|k: int| 0 <= k < i ==> !reuse_match(#[trigger] cv[k], key.0, key.1, key.2, key.3, key.4),
            },
        decreases all.len() - i,
    {
        assert(cv[i as int] == all@[i as int]@);
        let c = &all[i];
        let is_match = str_eq(c.conversation_id.as_str(), conversation_id) && c.epoch == epoch
            && c.covers_through_seq == covers && str_eq(c.source_slice_sha256.as_str(), slice)
            && str_eq(c.fingerprint.as_str(), fingerprint);
        if is_match {
            match best {
                None => {
                    proof {
                        lemma_reuse_order(cv[i as int], cv[i as int], cv[i as int]);
                    }
                    best = Some(i);
                },
                Some(b) => {
                    assert(cv[b as int] == all@[b as int]@);
                    let rank_i: u8 = if c.committed { 0 } else { 1 };
                    let rank_b: u8 = if all[b].committed { 0 } else { 1 };
                    let better = rank_i < rank_b || (rank_i == rank_b && text_before(
                        c.id.as_str(),
                        all[b].id.as_str(),
                    ));
                    assert(better == reuse_before(cv[i as int], cv[b as int]));
                    if better {
                        proof {
                            let ci = cv[i as int];
                            let cb = cv[b as int];
                            assert forall|j: int| 0 <= j < i + 1 && reuse_match(#[trigger] cv[j], key.0, key.1, key.2, key.3, key.4)
                                implies !reuse_before(cv[j], ci) by {
                                lemma_reuse_order(cv[j], ci, cb);
                            }
                            assert forall|j: int| 0 <= j < i && reuse_match(#[trigger] cv[j], key.0, key.1, key.2, key.3, key.4)
                                implies reuse_before(ci, cv[j]) by {
                                lemma_reuse_order(ci, cb, cv[j]);
                                lemma_reuse_order(cb, cv[j], ci);
                                lemma_reuse_order(cv[j], cb, ci);
                            }
                        }
                        best = Some(i);
                    }
                },
            }
        }
        i += 1;
    }
    proof {
        if let Some(b) = best {
            assert forall|k: int| 0 <= k < b implies !reuse_best(cv, k, key.0, key.1, key.2, key.3, key.4) by {
                if reuse_match(cv[k], key.0, key.1, key.2, key.3, key.4) {
                    assert(reuse_before(cv[b as int], cv[k]));
                }
            }
        }
    }
    best
}

/// Same rank and id.
pub open spec fn same_key(a: CpView, b: CpView) -> bool {
    reuse_rank(a) == reuse_rank(b) && a.id == b.id
}


/// Reuse prefers a committed compaction: when a committed record matches the
/// key, the one picked is committed.
pub proof fn lemma_reuse_prefers_committed(
    cs: Seq<CpView>,
    i: int,
    j: int,
    conversation_id: Seq<char>,
    epoch: u64,
    covers: u64,
    slice: Seq<char>,
    fingerprint: Seq<char>,
)
    requires
        reuse_best(cs, i, conversation_id, epoch, covers, slice, fingerprint),
        0 <= j < cs.len(),
        reuse_match(cs[j], conversation_id, epoch, covers, slice, fingerprint),
        cs[j].committed,
    ensures
        cs[i].committed,
{
    assert(!reuse_before(cs[j], cs[i]));
}

} // verus!
