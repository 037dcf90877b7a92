//! The orders in which palette results are listed, and a verified
//! insertion sort for them.
//!
//! With an empty query every command is listed, by category priority, then
//! by brief, then by registry position. With a query, the matching commands
//! are listed by score, highest first, then by registry position.

use vstd::prelude::*;
use crate::commands::{priority_spec, Command, CommandView};
use crate::text::chars_of;

verus! {

/// One filtered result: an index into the command list, the score of the
/// match, and the char positions of the brief that the matcher hit.
#[derive(Debug)]
pub struct PaletteMatch {
    /// Index into the command list that was filtered.
    pub cmd_index: usize,
    /// Match score; higher ranks first.
    pub score: i64,
    /// Char positions in the command's brief that matched the query.
    pub matched_indices: Vec<usize>,
}

/// A result as plain values.
pub struct MatchView {
    pub cmd_index: usize,
    pub score: i64,
    pub matched_indices: Seq<usize>,
}

impl View for PaletteMatch {
    type V = MatchView;

    open spec fn view(&self) -> MatchView {
        MatchView {
            cmd_index: self.cmd_index,
            score: self.score,
            matched_indices: self.matched_indices@,
        }
    }
}

/// The views of a sequence of results.
pub open spec fn match_views(v: Seq<PaletteMatch>) -> Seq<MatchView> {
    v.map_values(|m: PaletteMatch| m@)
}

/// Strict lexicographic order on char sequences, comparing chars by code
/// point; a proper prefix comes first. For `str` this is the order of
/// `str::cmp`, since UTF-8 preserves code point order.
pub open spec fn chars_lt(a: Seq<char>, b: Seq<char>) -> bool
    decreases a.len(),
{
    if a.len() == 0 {
        b.len() > 0
    } else if b.len() == 0 {
        false
    } else if a[0] != b[0] {
        (a[0] as int) < (b[0] as int)
    } else {
        chars_lt(a.drop_first(), b.drop_first())
    }
}

/// In the empty-query listing, `a` comes before `b`: lower category
/// priority first, then the brief in lexicographic order, then the lower
/// registry position.
pub open spec fn listed_before(cmds: Seq<CommandView>, a: MatchView, b: MatchView) -> bool {
    let pa = priority_spec(cmds[a.cmd_index as int].category);
    let pb = priority_spec(cmds[b.cmd_index as int].category);
    let ba = cmds[a.cmd_index as int].brief;
    let bb = cmds[b.cmd_index as int].brief;
    ||| pa < pb
    ||| pa == pb && chars_lt(ba, bb)
    ||| pa == pb && ba == bb && a.cmd_index < b.cmd_index
}

/// In a query's results, `a` comes before `b`: higher score first, then the
/// lower registry position.
pub open spec fn ranked_before(a: MatchView, b: MatchView) -> bool {
    a.score > b.score || (a.score == b.score && a.cmd_index < b.cmd_index)
}

/// `a` comes before `b` in the listing order (`by_listing`) or in the score
/// order.
pub open spec fn comes_before(cmds: Seq<CommandView>, by_listing: bool, a: MatchView, b: MatchView) -> bool {
    if by_listing {
        listed_before(cmds, a, b)
    } else {
        ranked_before(a, b)
    }
}

/// Every element of `s` comes before every later one.
pub open spec fn sorted_by(cmds: Seq<CommandView>, by_listing: bool, s: Seq<MatchView>) -> bool {
    forall|i: int, j: int|
        0 <= i < j < s.len() ==> comes_before(cmds, by_listing, #[trigger] s[i], #[trigger] s[j])
}

/// `a` and `b` hold the same elements.
pub open spec fn same_elements(a: Seq<MatchView>, b: Seq<MatchView>) -> bool {
    forall|x: MatchView| a.contains(x) <==> b.contains(x)
}

/// No two elements of `s` share a command index.
pub open spec fn distinct_indices(s: Seq<MatchView>) -> bool {
    forall|i: int, j: int|
        0 <= i < j < s.len() ==> (#[trigger] s[i]).cmd_index != (#[trigger] s[j]).cmd_index
}

/// `r` lists the elements of `pool` in order: sorted, with the same elements.
pub open spec fn is_ordering_of(cmds: Seq<CommandView>, by_listing: bool, pool: Seq<MatchView>, r: Seq<MatchView>) -> bool {
    sorted_by(cmds, by_listing, r) && same_elements(r, pool)
}

/// The elements of `pool` in order. When `pool` has distinct command
/// indices this sequence exists and is unique (see
/// [`lemma_ordering_exists`] and [`lemma_ordering_unique`]).
pub open spec fn ordered(cmds: Seq<CommandView>, by_listing: bool, pool: Seq<MatchView>) -> Seq<MatchView> {
    choose|r: Seq<MatchView>| is_ordering_of(cmds, by_listing, pool, r)
}

proof fn lemma_chars_lt_irreflexive(a: Seq<char>)
    ensures
        !chars_lt(a, a),
    decreases a.len(),
{
    if a.len() > 0 {
        lemma_chars_lt_irreflexive(a.drop_first());
    }
}

proof fn lemma_chars_lt_transitive(a: Seq<char>, b: Seq<char>, c: Seq<char>)
    requires
        chars_lt(a, b),
        chars_lt(b, c),
    ensures
        chars_lt(a, c),
    decreases a.len(),
{
    if a.len() > 0 && b.len() > 0 && c.len() > 0 && a[0] == b[0] && b[0] == c[0] {
        lemma_chars_lt_transitive(a.drop_first(), b.drop_first(), c.drop_first());
    }
}

proof fn lemma_chars_lt_total(a: Seq<char>, b: Seq<char>)
    requires
        a != b,
    ensures
        chars_lt(a, b) || chars_lt(b, a),
    decreases a.len(),
{
    if a.len() > 0 && b.len() > 0 && a[0] == b[0] {
        if a.drop_first() == b.drop_first() {
            assert(a =~= seq![a[0]] + a.drop_first());
            assert(b =~= seq![b[0]] + b.drop_first());
        }
        lemma_chars_lt_total(a.drop_first(), b.drop_first());
    }
    if a.len() > 0 && b.len() > 0 && a[0] != b[0] {
        assert((a[0] as int) != (b[0] as int));
    }
    if a.len() == 0 && b.len() == 0 {
        assert(a =~= b);
    }
}

proof fn lemma_chars_lt_asymmetric(a: Seq<char>, b: Seq<char>)
    requires
        chars_lt(a, b),
    ensures
        !chars_lt(b, a),
{
    if chars_lt(b, a) {
        lemma_chars_lt_transitive(a, b, a);
        lemma_chars_lt_irreflexive(a);
    }
}

/// `comes_before` is a strict order, total on results with distinct command
/// indices.
pub proof fn lemma_comes_before_order(cmds: Seq<CommandView>, by_listing: bool)
    ensures
        forall|a: MatchView| !comes_before(cmds, by_listing, a, a),
        forall|a: MatchView, b: MatchView, c: MatchView|
            #[trigger] comes_before(cmds, by_listing, a, b) && #[trigger] comes_before(cmds, by_listing, b, c)
                ==> comes_before(cmds, by_listing, a, c),
        forall|a: MatchView, b: MatchView|
            #[trigger] comes_before(cmds, by_listing, a, b) ==> !comes_before(cmds, by_listing, b, a),
        forall|a: MatchView, b: MatchView|
            a.cmd_index != b.cmd_index ==> #[trigger] comes_before(cmds, by_listing, a, b)
                || comes_before(cmds, by_listing, b, a),
{
    assert forall|a: MatchView| !comes_before(cmds, by_listing, a, a) by {
        lemma_chars_lt_irreflexive(cmds[a.cmd_index as int].brief);
    }
    assert forall|a: MatchView, b: MatchView, c: MatchView|
        #[trigger] comes_before(cmds, by_listing, a, b) && #[trigger] comes_before(cmds, by_listing, b, c)
        implies comes_before(cmds, by_listing, a, c) by {
        if by_listing {
            let ba = cmds[a.cmd_index as int].brief;
            let bb = cmds[b.cmd_index as int].brief;
            let bc = cmds[c.cmd_index as int].brief;
            if chars_lt(ba, bb) && chars_lt(bb, bc) {
                lemma_chars_lt_transitive(ba, bb, bc);
            }
        }
    }
    assert forall|a: MatchView, b: MatchView|
        #[trigger] comes_before(cmds, by_listing, a, b) implies !comes_before(cmds, by_listing, b, a) by {
        let ba = cmds[a.cmd_index as int].brief;
        let bb = cmds[b.cmd_index as int].brief;
        if chars_lt(ba, bb) {
            lemma_chars_lt_asymmetric(ba, bb);
        }
        if chars_lt(bb, ba) {
            lemma_chars_lt_asymmetric(bb, ba);
        }
        if ba == bb {
            lemma_chars_lt_irreflexive(ba);
        }
    }
    assert forall|a: MatchView, b: MatchView|
        a.cmd_index != b.cmd_index implies #[trigger] comes_before(cmds, by_listing, a, b)
            || comes_before(cmds, by_listing, b, a) by {
        let ba = cmds[a.cmd_index as int].brief;
        let bb = cmds[b.cmd_index as int].brief;
        if ba != bb {
            lemma_chars_lt_total(ba, bb);
        }
    }
}

/// Two sorted sequences with the same elements are equal.
pub proof fn lemma_ordering_unique(
    cmds: Seq<CommandView>,
    by_listing: bool,
    r1: Seq<MatchView>,
    r2: Seq<MatchView>,
)
    requires
        sorted_by(cmds, by_listing, r1),
        sorted_by(cmds, by_listing, r2),
        same_elements(r1, r2),
    ensures
        r1 == r2,
    decreases r1.len(),
{
    lemma_comes_before_order(cmds, by_listing);
    if r1.len() == 0 {
        if r2.len() > 0 {
            assert(r2.contains(r2[0]));
        }
        assert(r1 =~= r2);
    } else {
        assert(r1.contains(r1[0]));
        assert(r2.len() > 0);
        assert(r2.contains(r2[0]));
        let p = choose|p: int| 0 <= p < r2.len() && r2[p] == r1[0];
        let q = choose|q: int| 0 <= q < r1.len() && r1[q] == r2[0];
        if p > 0 {
            assert(comes_before(cmds, by_listing, r2[0], r2[p]));
            if q == 0 {
                assert(r2[0] == r2[p]);
            } else {
                assert(comes_before(cmds, by_listing, r1[0], r1[q]));
            }
        }
        assert(p == 0);
        let t1 = r1.drop_first();
        let t2 = r2.drop_first();
        assert forall|x: MatchView| t1.contains(x) <==> t2.contains(x) by {
            if t1.contains(x) {
                let i = choose|i: int| 0 <= i < t1.len() && t1[i] == x;
                assert(r1[i + 1] == x);
                assert(comes_before(cmds, by_listing, r1[0], r1[i + 1]));
                assert(x != r1[0]);
                assert(r2.contains(x));
                let j = choose|j: int| 0 <= j < r2.len() && r2[j] == x;
                assert(j != 0);
                assert(t2[j - 1] == x);
            }
            if t2.contains(x) {
                let i = choose|i: int| 0 <= i < t2.len() && t2[i] == x;
                assert(r2[i + 1] == x);
                assert(comes_before(cmds, by_listing, r2[0], r2[i + 1]));
                assert(x != r2[0]);
                assert(r1.contains(x));
                let j = choose|j: int| 0 <= j < r1.len() && r1[j] == x;
                assert(j != 0);
                assert(t1[j - 1] == x);
            }
        }
        assert(sorted_by(cmds, by_listing, t1)) by {
            assert forall|i: int, j: int| 0 <= i < j < t1.len() implies comes_before(
                cmds,
                by_listing,
                #[trigger] t1[i],
                #[trigger] t1[j],
            ) by {
                assert(t1[i] == r1[i + 1] && t1[j] == r1[j + 1]);
            }
        }
        assert(sorted_by(cmds, by_listing, t2)) by {
            assert forall|i: int, j: int| 0 <= i < j < t2.len() implies comes_before(
                cmds,
                by_listing,
                #[trigger] t2[i],
                #[trigger] t2[j],
            ) by {
                assert(t2[i] == r2[i + 1] && t2[j] == r2[j + 1]);
            }
        }
        lemma_ordering_unique(cmds, by_listing, t1, t2);
        assert(r1 =~= seq![r1[0]] + t1);
        assert(r2 =~= seq![r2[0]] + t2);
    }
}

/// The views of a command list.
pub open spec fn command_views(cmds: Seq<Command>) -> Seq<CommandView> {
    cmds.map_values(|c: Command| c@)
}

proof fn lemma_chars_lt_skip(a: Seq<char>, b: Seq<char>, i: int)
    requires
        0 <= i < a.len(),
        i < b.len(),
        a[i] == b[i],
    ensures
        chars_lt(a.skip(i), b.skip(i)) == chars_lt(a.skip(i + 1), b.skip(i + 1)),
{
    assert(a.skip(i).drop_first() =~= a.skip(i + 1));
    assert(b.skip(i).drop_first() =~= b.skip(i + 1));
}

/// Whether `a` comes strictly before `b` in `chars_lt` order.
fn chars_less(a: &[char], b: &[char]) -> (r: bool)
    ensures
        r == chars_lt(a@, b@),
{
    let mut i: usize = 0;
    assert(a@.skip(0) =~= a@ && b@.skip(0) =~= b@);
    while i < a.len() && i < b.len()
        invariant
            i <= a@.len(),
            i <= b@.len(),
            chars_lt(a@, b@) == chars_lt(a@.skip(i as int), b@.skip(i as int)),
        decreases a@.len() - i,
    {
        if a[i] != b[i] {
            assert(a@.skip(i as int)[0] == a@[i as int] && b@.skip(i as int)[0] == b@[i as int]);
            return a[i] < b[i];
        }
        proof {
            lemma_chars_lt_skip(a@, b@, i as int);
        }
        i = i + 1;
    }
    i == a.len() && i < b.len()
}

/// Whether result `a` comes before result `b` in the listing order
/// (`by_listing`) or the score order.
fn match_before(cmds: &[Command], by_listing: bool, a: &PaletteMatch, b: &PaletteMatch) -> (r: bool)
    requires
        by_listing ==> a.cmd_index < cmds@.len() && b.cmd_index < cmds@.len(),
    ensures
        r == comes_before(command_views(cmds@), by_listing, a@, b@),
{
    if by_listing {
        let ca = &cmds[a.cmd_index];
        let cb = &cmds[b.cmd_index];
        let pa = ca.category.priority();
        let pb = cb.category.priority();
        if pa != pb {
            return pa < pb;
        }
        let ba = chars_of(ca.brief);
        let bb = chars_of(cb.brief);
        if chars_less(ba.as_slice(), bb.as_slice()) {
            return true;
        }
        if chars_less(bb.as_slice(), ba.as_slice()) {
            return false;
        }
        proof {
            if ba@ != bb@ {
                lemma_chars_lt_total(ba@, bb@);
            }
            lemma_chars_lt_irreflexive(ba@);
        }
        a.cmd_index < b.cmd_index
    } else {
        a.score > b.score || (a.score == b.score && a.cmd_index < b.cmd_index)
    }
}

/// `pool` in order: insertion sort by [`comes_before`].
pub fn sort_matches(pool: Vec<PaletteMatch>, cmds: &[Command], by_listing: bool) -> (out: Vec<PaletteMatch>)
    requires
        distinct_indices(match_views(pool@)),
        by_listing ==> forall|i: int| 0 <= i < pool@.len() ==> (#[trigger] pool@[i]).cmd_index < cmds@.len(),
    ensures
        is_ordering_of(command_views(cmds@), by_listing, match_views(pool@), match_views(out@)),
        match_views(out@) == ordered(command_views(cmds@), by_listing, match_views(pool@)),
        out@.len() == pool@.len(),
{
    let ghost cv = command_views(cmds@);
    let ghost orig = match_views(pool@);
    let ghost n = pool@.len();
    proof {
        lemma_comes_before_order(cv, by_listing);
    }
    let mut pool = pool;
    let mut out: Vec<PaletteMatch> = Vec::new();
    while pool.len() > 0
        invariant
            orig.len() == n,
            pool@.len() <= n,
            out@.len() + pool@.len() == n,
            match_views(pool@) == orig.take(pool@.len() as int),
            distinct_indices(orig),
            by_listing ==> forall|i: int| 0 <= i < n ==> (#[trigger] orig[i]).cmd_index < cmds@.len(),
            sorted_by(cv, by_listing, match_views(out@)),
            same_elements(match_views(out@), orig.subrange(pool@.len() as int, n as int)),
            cv == command_views(cmds@),
            forall|a: MatchView| !comes_before(cv, by_listing, a, a),
            forall|a: MatchView, b: MatchView, c: MatchView|
                #[trigger] comes_before(cv, by_listing, a, b) && #[trigger] comes_before(cv, by_listing, b, c)
                    ==> comes_before(cv, by_listing, a, c),
            forall|a: MatchView, b: MatchView|
                a.cmd_index != b.cmd_index ==> #[trigger] comes_before(cv, by_listing, a, b)
                    || comes_before(cv, by_listing, b, a),
        decreases pool@.len(),
    {
        let ghost k = (pool@.len() - 1) as int;
        let ghost before_pop = pool@;
        let x = pool.pop().unwrap();
        let ghost xv = x@;
        proof {
            assert(match_views(before_pop)[k] == xv);
            assert(orig.take(k + 1)[k] == orig[k]);
            assert(match_views(pool@) =~= orig.take(k));
        }
        let ghost ov = match_views(out@);
        // Every result already placed comes from later in the pool, so its
        // command index differs from x's.
        assert forall|t: int| 0 <= t < ov.len() implies (#[trigger] ov[t]).cmd_index != xv.cmd_index && (
            by_listing ==> ov[t].cmd_index < cmds@.len()) by {
            assert(ov.contains(ov[t]));
            assert(orig.subrange(k + 1, n as int).contains(ov[t]));
            let m = choose|m: int| 0 <= m < n - (k + 1) && #[trigger] orig.subrange(k + 1, n as int)[m] == ov[t];
            assert(orig[k + 1 + m] == ov[t]);
            assert(by_listing ==> orig[k + 1 + m].cmd_index < cmds@.len());
        }
        let mut j: usize = 0;
        while j < out.len() && !match_before(cmds, by_listing, &x, &out[j])
            invariant
                j <= out@.len(),
                ov == match_views(out@),
                x@ == xv,
                0 <= k < n,
                xv == orig[k],
                by_listing ==> x.cmd_index < cmds@.len(),
                forall|t: int| 0 <= t < ov.len() ==> (#[trigger] ov[t]).cmd_index != xv.cmd_index && (
                    by_listing ==> ov[t].cmd_index < cmds@.len()),
                by_listing ==> forall|i: int| 0 <= i < n ==> (#[trigger] orig[i]).cmd_index < cmds@.len(),
                forall|t: int| 0 <= t < out@.len() ==> (#[trigger] out@[t])@ == ov[t],
                forall|t: int| 0 <= t < j ==> !comes_before(cv, by_listing, xv, #[trigger] ov[t]),
                same_elements(ov, orig.subrange(k + 1, n as int)),
                cv == command_views(cmds@),
            decreases out@.len() - j,
        {
            proof {
                assert(ov.contains(ov[j as int]));
                assert(orig.subrange(k + 1, n as int).contains(ov[j as int]));
            }
            j = j + 1;
        }
        let ghost p = j as int;
        out.insert(j, x);
        let ghost nv = match_views(out@);
        proof {
            assert(nv =~= ov.insert(p, xv));
            assert forall|i: int, jj: int| 0 <= i < jj < nv.len() implies comes_before(
                cv,
                by_listing,
                #[trigger] nv[i],
                #[trigger] nv[jj],
            ) by {
                if i < p && jj == p {
                    assert(!comes_before(cv, by_listing, xv, ov[i]));
                    assert(ov[i].cmd_index != xv.cmd_index);
                } else if i == p && jj > p {
                    if jj == p + 1 {
                        assert(comes_before(cv, by_listing, xv, ov[p]));
                    } else {
                        assert(comes_before(cv, by_listing, xv, ov[p]));
                        assert(comes_before(cv, by_listing, ov[p], ov[jj - 1]));
                    }
                } else if i < p && jj > p {
                    assert(comes_before(cv, by_listing, ov[i], ov[jj - 1]));
                } else if i > p {
                    assert(comes_before(cv, by_listing, ov[i - 1], ov[jj - 1]));
                } else {
                    assert(comes_before(cv, by_listing, ov[i], ov[jj]));
                }
            }
            assert forall|y: MatchView| nv.contains(y) <==> orig.subrange(k, n as int).contains(y) by {
                if nv.contains(y) {
                    let i = choose|i: int| 0 <= i < nv.len() && #[trigger] nv[i] == y;
                    if i == p {
                        assert(orig.subrange(k, n as int)[0] == y);
                    } else {
                        let i2 = if i < p { i } else { i - 1 };
                        assert(ov[i2] == y);
                        assert(ov.contains(y));
                        let m = choose|m: int| 0 <= m < n - (k + 1) && #[trigger] orig.subrange(k + 1, n as int)[m] == y;
                        assert(orig.subrange(k, n as int)[m + 1] == y);
                    }
                }
                if orig.subrange(k, n as int).contains(y) {
                    let m = choose|m: int| 0 <= m < n - k && #[trigger] orig.subrange(k, n as int)[m] == y;
                    if m == 0 {
                        assert(nv[p] == y);
                    } else {
                        assert(orig.subrange(k + 1, n as int)[m - 1] == y);
                        assert(orig.subrange(k + 1, n as int).contains(y));
                        assert(ov.contains(y));
                        let i = choose|i: int| 0 <= i < ov.len() && #[trigger] ov[i] == y;
                        if i < p {
                            assert(nv[i] == y);
                        } else {
                            assert(nv[i + 1] == y);
                        }
                    }
                }
            }
        }
    }
    proof {
        assert(orig.subrange(0, n as int) =~= orig);
        let r = ordered(cv, by_listing, orig);
        assert(is_ordering_of(cv, by_listing, orig, match_views(out@)));
        lemma_ordering_unique(cv, by_listing, r, match_views(out@));
    }
    out
}

/// `r` with `x` inserted before the first element that `x` comes before.
pub open spec fn insert_sorted(cmds: Seq<CommandView>, by_listing: bool, r: Seq<MatchView>, x: MatchView) -> Seq<MatchView>
    decreases r.len(),
{
    if r.len() == 0 {
        seq![x]
    } else if comes_before(cmds, by_listing, x, r[0]) {
        seq![x] + r
    } else {
        seq![r[0]] + insert_sorted(cmds, by_listing, r.drop_first(), x)
    }
}

proof fn lemma_insert_sorted(cmds: Seq<CommandView>, by_listing: bool, r: Seq<MatchView>, x: MatchView)
    requires
        sorted_by(cmds, by_listing, r),
        forall|i: int| 0 <= i < r.len() ==> (#[trigger] r[i]).cmd_index != x.cmd_index,
    ensures
        sorted_by(cmds, by_listing, insert_sorted(cmds, by_listing, r, x)),
        insert_sorted(cmds, by_listing, r, x).len() == r.len() + 1,
        forall|y: MatchView|
            #[trigger] insert_sorted(cmds, by_listing, r, x).contains(y) <==> (r.contains(y) || y == x),
    decreases r.len(),
{
    lemma_comes_before_order(cmds, by_listing);
    let res = insert_sorted(cmds, by_listing, r, x);
    if r.len() == 0 {
        assert forall|y: MatchView| res.contains(y) <==> (r.contains(y) || y == x) by {
            if res.contains(y) {
                let i = choose|i: int| 0 <= i < res.len() && res[i] == y;
                assert(i == 0);
            }
            if y == x {
                assert(res[0] == x);
            }
        }
    } else if comes_before(cmds, by_listing, x, r[0]) {
        assert forall|i: int, j: int| 0 <= i < j < res.len() implies comes_before(
            cmds,
            by_listing,
            #[trigger] res[i],
            #[trigger] res[j],
        ) by {
            if i == 0 {
                if j > 1 {
                    assert(comes_before(cmds, by_listing, r[0], r[j - 1]));
                }
            } else {
                assert(comes_before(cmds, by_listing, r[i - 1], r[j - 1]));
            }
        }
        assert forall|y: MatchView| res.contains(y) <==> (r.contains(y) || y == x) by {
            if res.contains(y) {
                let i = choose|i: int| 0 <= i < res.len() && res[i] == y;
                if i > 0 {
                    assert(r[i - 1] == y);
                }
            }
            if r.contains(y) {
                let i = choose|i: int| 0 <= i < r.len() && r[i] == y;
                assert(res[i + 1] == y);
            }
            if y == x {
                assert(res[0] == x);
            }
        }
    } else {
        let t = r.drop_first();
        assert(sorted_by(cmds, by_listing, t)) by {
            assert forall|i: int, j: int| 0 <= i < j < t.len() implies comes_before(
                cmds,
                by_listing,
                #[trigger] t[i],
                #[trigger] t[j],
            ) by {
                assert(t[i] == r[i + 1] && t[j] == r[j + 1]);
            }
        }
        assert forall|i: int| 0 <= i < t.len() implies (#[trigger] t[i]).cmd_index != x.cmd_index by {
            assert(t[i] == r[i + 1]);
        }
        lemma_insert_sorted(cmds, by_listing, t, x);
        let rest = insert_sorted(cmds, by_listing, t, x);
        assert(res == seq![r[0]] + rest);
        assert(comes_before(cmds, by_listing, r[0], x));
        assert forall|i: int, j: int| 0 <= i < j < res.len() implies comes_before(
            cmds,
            by_listing,
            #[trigger] res[i],
            #[trigger] res[j],
        ) by {
            if i == 0 {
                assert(rest.contains(res[j]));
                if res[j] != x {
                    assert(t.contains(res[j]));
                    let k = choose|k: int| 0 <= k < t.len() && t[k] == res[j];
                    assert(comes_before(cmds, by_listing, r[0], r[k + 1]));
                }
            } else {
                assert(res[i] == rest[i - 1] && res[j] == rest[j - 1]);
            }
        }
        assert forall|y: MatchView| res.contains(y) <==> (r.contains(y) || y == x) by {
            if res.contains(y) {
                let i = choose|i: int| 0 <= i < res.len() && res[i] == y;
                if i > 0 {
                    assert(rest.contains(y));
                    if t.contains(y) {
                        let k = choose|k: int| 0 <= k < t.len() && t[k] == y;
                        assert(r[k + 1] == y);
                    }
                } else {
                    assert(r[0] == y);
                }
            }
            if r.contains(y) {
                let i = choose|i: int| 0 <= i < r.len() && r[i] == y;
                if i == 0 {
                    assert(res[0] == y);
                } else {
                    assert(t[i - 1] == y);
                    assert(rest.contains(y));
                    let k = choose|k: int| 0 <= k < rest.len() && rest[k] == y;
                    assert(res[k + 1] == y);
                }
            }
            if y == x {
                assert(rest.contains(x));
                let k = choose|k: int| 0 <= k < rest.len() && rest[k] == x;
                assert(res[k + 1] == x);
            }
        }
    }
}

/// `pool` sorted by insertion, one element at a time from the front.
pub open spec fn insertion_sorted(cmds: Seq<CommandView>, by_listing: bool, pool: Seq<MatchView>) -> Seq<MatchView>
    decreases pool.len(),
{
    if pool.len() == 0 {
        Seq::empty()
    } else {
        insert_sorted(cmds, by_listing, insertion_sorted(cmds, by_listing, pool.drop_last()), pool.last())
    }
}

/// A pool with distinct command indices has an ordering, as long as the
/// pool: so [`ordered`] lists every element of the pool once.
pub proof fn lemma_ordering_exists(cmds: Seq<CommandView>, by_listing: bool, pool: Seq<MatchView>)
    requires
        distinct_indices(pool),
    ensures
        is_ordering_of(cmds, by_listing, pool, ordered(cmds, by_listing, pool)),
        ordered(cmds, by_listing, pool).len() == pool.len(),
{
    let s = insertion_sorted(cmds, by_listing, pool);
    lemma_insertion_sorted(cmds, by_listing, pool);
    lemma_ordering_unique(cmds, by_listing, ordered(cmds, by_listing, pool), s);
}

proof fn lemma_insertion_sorted(cmds: Seq<CommandView>, by_listing: bool, pool: Seq<MatchView>)
    requires
        distinct_indices(pool),
    ensures
        is_ordering_of(cmds, by_listing, pool, insertion_sorted(cmds, by_listing, pool)),
        insertion_sorted(cmds, by_listing, pool).len() == pool.len(),
    decreases pool.len(),
{
    if pool.len() > 0 {
        let init = pool.drop_last();
        assert(distinct_indices(init)) by {
            assert forall|i: int, j: int| 0 <= i < j < init.len() implies (#[trigger] init[i]).cmd_index
                != (#[trigger] init[j]).cmd_index by {
                assert(init[i] == pool[i] && init[j] == pool[j]);
            }
        }
        lemma_insertion_sorted(cmds, by_listing, init);
        let r2 = insertion_sorted(cmds, by_listing, init);
        assert forall|i: int| 0 <= i < r2.len() implies (#[trigger] r2[i]).cmd_index != pool.last().cmd_index by {
            assert(r2.contains(r2[i]));
            assert(init.contains(r2[i]));
            let k = choose|k: int| 0 <= k < init.len() && init[k] == r2[i];
            assert(pool[k] == r2[i]);
            assert(pool[pool.len() - 1] == pool.last());
        }
        lemma_insert_sorted(cmds, by_listing, r2, pool.last());
        let s = insertion_sorted(cmds, by_listing, pool);
        assert forall|y: MatchView| s.contains(y) <==> pool.contains(y) by {
            if pool.contains(y) {
                let k = choose|k: int| 0 <= k < pool.len() && pool[k] == y;
                if k < pool.len() - 1 {
                    assert(init[k] == y);
                }
            }
            if init.contains(y) {
                let k = choose|k: int| 0 <= k < init.len() && init[k] == y;
                assert(pool[k] == y);
            }
        }
    }
}

} // verus!
