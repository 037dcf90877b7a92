//! The command palette: query editing, fuzzy filtering and ranking, and
//! keyboard / mouse navigation of the result list.

use vstd::prelude::*;
use crate::click::{is_first_hit, ClickAction, ClickRegion};
use crate::commands::{all_commands, registry, Command, CommandView};
use crate::keys::{BareKey, KeyModifier, KeyWithModifier};
use crate::screens::render::{
    bordered_inner, build_result_line, footer_section, fits_vertically, frame_spec, palette_sections,
    input_section, line, line_views, no_match_section, one_line, result_regions,
    result_row_lines, result_spans, split_vertical, styled, visible_rows, ColorRole, PaletteFrame,
    Rect, Style, TextLine, color_of,
};
use crate::backend::Modifier;
use crate::screens::ranking::{
    command_views, comes_before, distinct_indices, listed_before, ranked_before, lemma_comes_before_order, lemma_ordering_exists,
    match_views, ordered, sort_matches, MatchView, PaletteMatch,
};
use crate::commands::priority_spec;
use crate::text::{
    chars_of, contains_chars, contains_seq, is_control, is_control_spec, is_whitespace,
    is_whitespace_spec, lowercase, push_char, string_from_prefix, to_lowercase,
};

verus! {

/// What the fuzzy matcher (`SkimMatcherV2` with its default settings) returns
/// for `choice` and `pattern`: `None` when `pattern` does not match, else the
/// score and the char positions of `choice` that matched.
pub uninterp spec fn skim_fuzzy_indices(choice: Seq<char>, pattern: Seq<char>) -> Option<(i64, Seq<usize>)>;

/// A matcher result with its positions as a sequence.
pub open spec fn fuzzy_view(r: Option<(i64, Vec<usize>)>) -> Option<(i64, Seq<usize>)> {
    match r {
        Some((s, v)) => Some((s, v@)),
        None => None,
    }
}

/// Fuzzy-matches `pattern` against `choice`.
///
/// Trusted: calls `FuzzyMatcher::fuzzy_indices` of a default
/// `fuzzy_matcher::skim::SkimMatcherV2`. The contract names its result,
/// which depends on the two strings alone: each call builds a fresh matcher
/// with the fixed default settings and empty caches. It also states that a
/// score lies in the `i32` range: the source computes it as an `i32` matrix
/// cell and widens it to `i64`. Which positions and score come back is not
/// stated.
#[verifier::external_body]
fn fuzzy_indices(choice: &str, pattern: &str) -> (r: Option<(i64, Vec<usize>)>)
    ensures
        fuzzy_view(r) == skim_fuzzy_indices(choice@, pattern@),
        r matches Some((s, _)) ==> i32::MIN <= s <= i32::MAX,
{
    fuzzy_matcher::FuzzyMatcher::fuzzy_indices(
        &fuzzy_matcher::skim::SkimMatcherV2::default(),
        choice,
        pattern,
    )
}

/// The score bonus of a brief that contains the query as a substring,
/// ignoring case.
pub open spec fn substring_bonus() -> int {
    100
}

/// The best of the keyword scores that are present, or `None` when no
/// keyword matched.
pub open spec fn best_keyword_score(scores: Seq<Option<i64>>) -> Option<i64>
    decreases scores.len(),
{
    if scores.len() == 0 {
        None
    } else {
        let rest = best_keyword_score(scores.drop_last());
        match (rest, scores.last()) {
            (Some(a), Some(b)) => Some(if a >= b { a } else { b }),
            (None, b) => b,
            (a, None) => a,
        }
    }
}

/// How a command scores against a query, from what the matcher said of its
/// brief, whether its lowercase brief contains the lowercase query, and
/// what the matcher said of each keyword. A brief match wins, with the
/// substring bonus where it applies, and keeps its positions. Otherwise the
/// best keyword match counts, with no positions. Otherwise the command does
/// not match.
pub open spec fn score_spec(
    brief: Option<(i64, Seq<usize>)>,
    brief_contains_query: bool,
    keywords: Seq<Option<i64>>,
) -> Option<(int, Seq<usize>)> {
    match brief {
        Some((s, idx)) => Some((if brief_contains_query { s + substring_bonus() } else { s as int }, idx)),
        None => match best_keyword_score(keywords) {
            Some(b) => Some((b as int, Seq::empty())),
            None => None,
        },
    }
}

/// Scores one command from the matcher's results (see [`score_spec`]).
pub fn score_command(
    brief_match: Option<(i64, Vec<usize>)>,
    brief_contains_query: bool,
    keyword_scores: &[Option<i64>],
) -> (r: Option<(i64, Vec<usize>)>)
    requires
        brief_match matches Some((s, _)) ==> s <= i64::MAX - substring_bonus(),
    ensures
        match (r, score_spec(fuzzy_view(brief_match), brief_contains_query, keyword_scores@)) {
            (Some((s, v)), Some((t, w))) => s == t && v@ == w,
            (None, None) => true,
            _ => false,
        },
{
    match brief_match {
        Some((s, idx)) => {
            let score = if brief_contains_query {
                s + 100
            } else {
                s
            };
            Some((score, idx))
        },
        None => {
            let mut best: Option<i64> = None;
            let mut i: usize = 0;
            while i < keyword_scores.len()
                invariant
                    i <= keyword_scores@.len(),
                    best == best_keyword_score(keyword_scores@.take(i as int)),
                decreases keyword_scores@.len() - i,
            {
                assert(keyword_scores@.take(i + 1).drop_last() =~= keyword_scores@.take(i as int));
                match keyword_scores[i] {
                    Some(k) => {
                        best = match best {
                            Some(b) => Some(if b >= k { b } else { k }),
                            None => Some(k),
                        };
                    },
                    None => {},
                }
                i = i + 1;
            }
            assert(keyword_scores@.take(keyword_scores@.len() as int) =~= keyword_scores@);
            match best {
                Some(b) => Some((b, Vec::new())),
                None => None,
            }
        },
    }
}

/// The matcher's score for each keyword, `None` where it does not match.
pub open spec fn keyword_scores_spec(keywords: Seq<Seq<char>>, query: Seq<char>) -> Seq<Option<i64>> {
    keywords.map_values(
        |k: Seq<char>|
            match skim_fuzzy_indices(k, query) {
                Some((s, _)) => Some(s),
                None => None,
            },
    )
}

/// How command `c` scores against a non-empty `query`.
pub open spec fn command_score(c: CommandView, query: Seq<char>) -> Option<(int, Seq<usize>)> {
    score_spec(
        skim_fuzzy_indices(c.brief, query),
        contains_seq(lowercase(c.brief), lowercase(query)),
        keyword_scores_spec(c.keywords, query),
    )
}

/// The best keyword score is present exactly when some keyword score is,
/// and it is the largest of the present scores.
pub proof fn lemma_best_keyword_score(scores: Seq<Option<i64>>)
    ensures
        best_keyword_score(scores) is Some <==> exists|i: int| 0 <= i < scores.len() && (#[trigger] scores[i]) is Some,
        best_keyword_score(scores) matches Some(m) ==> exists|i: int| 0 <= i < scores.len() && #[trigger] scores[i] == Some(m),
        best_keyword_score(scores) matches Some(m) ==> forall|i: int|
            0 <= i < scores.len() ==> ((#[trigger] scores[i]) matches Some(v) ==> v <= m),
    decreases scores.len(),
{
    if scores.len() > 0 {
        let rest = scores.drop_last();
        lemma_best_keyword_score(rest);
        assert forall|i: int| 0 <= i < rest.len() implies #[trigger] rest[i] == scores[i] by {}
        let n = scores.len() - 1;
        if best_keyword_score(scores) is Some {
            if scores[n] is None {
                let j = choose|j: int| 0 <= j < rest.len() && (#[trigger] rest[j]) is Some;
                assert(scores[j] is Some);
            }
        }
        if exists|i: int| 0 <= i < scores.len() && (#[trigger] scores[i]) is Some {
            let i = choose|i: int| 0 <= i < scores.len() && (#[trigger] scores[i]) is Some;
            if i < n {
                assert(rest[i] is Some);
            }
        }
        match best_keyword_score(scores) {
            Some(m) => {
                if best_keyword_score(rest) == Some(m) {
                    let j = choose|j: int| 0 <= j < rest.len() && #[trigger] rest[j] == Some(m);
                    assert(scores[j] == Some(m));
                } else {
                    assert(scores[n] == Some(m));
                }
                assert forall|i: int| 0 <= i < scores.len() implies ((#[trigger] scores[i]) matches Some(v) ==> v <= m) by {
                    if i < n {
                        assert(rest[i] == scores[i]);
                    }
                }
            },
            None => {},
        }
    }
}

/// Command `c` matches a non-empty `query`: the matcher matches its brief
/// or one of its keywords.
pub open spec fn matches_query(c: CommandView, query: Seq<char>) -> bool {
    ||| skim_fuzzy_indices(c.brief, query) is Some
    ||| exists|i: int| 0 <= i < c.keywords.len() && (#[trigger] skim_fuzzy_indices(c.keywords[i], query)) is Some
}

/// A command scores against a query exactly when it matches it.
pub proof fn lemma_command_score_some(c: CommandView, query: Seq<char>)
    ensures
        command_score(c, query) is Some <==> matches_query(c, query),
{
    let ks = keyword_scores_spec(c.keywords, query);
    lemma_best_keyword_score(ks);
    assert forall|i: int| 0 <= i < ks.len() implies ((#[trigger] ks[i]) is Some <==> skim_fuzzy_indices(
        c.keywords[i],
        query,
    ) is Some) by {}
    if exists|i: int| 0 <= i < c.keywords.len() && (#[trigger] skim_fuzzy_indices(c.keywords[i], query)) is Some {
        let i = choose|i: int| 0 <= i < c.keywords.len() && (#[trigger] skim_fuzzy_indices(c.keywords[i], query)) is Some;
        assert(ks[i] is Some);
    }
    if exists|i: int| 0 <= i < ks.len() && (#[trigger] ks[i]) is Some {
        let i = choose|i: int| 0 <= i < ks.len() && (#[trigger] ks[i]) is Some;
        assert(skim_fuzzy_indices(c.keywords[i], query) is Some);
    }
}

/// The results for a non-empty `query` among the first `n` commands, in
/// command order, before ranking.
pub open spec fn scored_candidates(cmds: Seq<CommandView>, query: Seq<char>, n: nat) -> Seq<MatchView>
    decreases n,
{
    if n == 0 {
        Seq::empty()
    } else {
        let prev = scored_candidates(cmds, query, (n - 1) as nat);
        match command_score(cmds[n - 1], query) {
            Some((s, idx)) => prev.push(
                MatchView { cmd_index: (n - 1) as usize, score: s as i64, matched_indices: idx },
            ),
            None => prev,
        }
    }
}

/// The results before ranking: every command with score 0 and no
/// highlighted positions for an empty query, else the commands that match.
pub open spec fn candidates(cmds: Seq<CommandView>, query: Seq<char>) -> Seq<MatchView> {
    if query.len() == 0 {
        Seq::new(
            cmds.len(),
            |i: int| MatchView { cmd_index: i as usize, score: 0, matched_indices: Seq::empty() },
        )
    } else {
        scored_candidates(cmds, query, cmds.len())
    }
}

/// The filtered and ranked results for `query`: for an empty query every
/// command, by category priority then brief; else the matching commands,
/// best score first. Ties keep command order.
pub open spec fn filter_spec(cmds: Seq<CommandView>, query: Seq<char>) -> Seq<MatchView> {
    ordered(cmds, query.len() == 0, candidates(cmds, query))
}

proof fn lemma_scored_candidates_shape(cmds: Seq<CommandView>, query: Seq<char>, n: nat)
    requires
        n <= cmds.len(),
        cmds.len() <= usize::MAX,
    ensures
        forall|i: int|
            0 <= i < scored_candidates(cmds, query, n).len() ==> (#[trigger] scored_candidates(
                cmds,
                query,
                n,
            )[i]).cmd_index < n,
        forall|i: int, j: int|
            0 <= i < j < scored_candidates(cmds, query, n).len() ==> (#[trigger] scored_candidates(
                cmds,
                query,
                n,
            )[i]).cmd_index < (#[trigger] scored_candidates(cmds, query, n)[j]).cmd_index,
        scored_candidates(cmds, query, n).len() <= n,
    decreases n,
{
    if n > 0 {
        lemma_scored_candidates_shape(cmds, query, (n - 1) as nat);
    }
}

proof fn lemma_scored_candidates_members(cmds: Seq<CommandView>, query: Seq<char>, n: nat)
    requires
        n <= cmds.len(),
        cmds.len() <= usize::MAX,
    ensures
        forall|i: int|
            0 <= i < scored_candidates(cmds, query, n).len() ==> is_scored_result(
                cmds,
                query,
                #[trigger] scored_candidates(cmds, query, n)[i],
            ),
        forall|k: int|
            0 <= k < n && (#[trigger] command_score(cmds[k], query)) is Some ==> exists|i: int|
                0 <= i < scored_candidates(cmds, query, n).len() && scored_candidates(cmds, query, n)[i].cmd_index
                    == k,
    decreases n,
{
    if n > 0 {
        lemma_scored_candidates_members(cmds, query, (n - 1) as nat);
        let prev = scored_candidates(cmds, query, (n - 1) as nat);
        let cur = scored_candidates(cmds, query, n);
        assert forall|k: int|
            0 <= k < n && (#[trigger] command_score(cmds[k], query)) is Some implies exists|i: int|
                0 <= i < cur.len() && cur[i].cmd_index == k by {
            if k < n - 1 {
                let i = choose|i: int| 0 <= i < prev.len() && prev[i].cmd_index == k;
                assert(cur[i] == prev[i]);
            } else {
                assert(cur[cur.len() - 1].cmd_index == k);
            }
        }
    }
}

/// Some result of `r` names command `k`.
pub open spec fn lists(r: Seq<MatchView>, k: int) -> bool {
    exists|i: int| 0 <= i < r.len() && r[i].cmd_index == k
}

/// `m` is the result for its command: the command scores against `query`,
/// with `m`'s score and highlighted positions.
pub open spec fn is_scored_result(cmds: Seq<CommandView>, query: Seq<char>, m: MatchView) -> bool {
    command_score(cmds[m.cmd_index as int], query) matches Some((s, idx)) && m.score == s as i64
        && m.matched_indices == idx
}

/// What the filter returns, for every command list and query:
///
/// - at most one result per command, each naming a command of the list;
/// - for an empty query, every command, with score 0 and no highlighted
///   positions, by non-decreasing category priority;
/// - for a non-empty query, exactly the commands that match it, each with
///   its score and highlighted positions, best score first.
pub proof fn lemma_filter_results(cmds: Seq<CommandView>, query: Seq<char>)
    requires
        cmds.len() <= usize::MAX,
    ensures
        filter_spec(cmds, query).len() <= cmds.len(),
        forall|i: int|
            0 <= i < filter_spec(cmds, query).len() ==> (#[trigger] filter_spec(cmds, query)[i]).cmd_index
                < cmds.len(),
        distinct_indices(filter_spec(cmds, query)),
        query.len() == 0 ==> filter_spec(cmds, query).len() == cmds.len(),
        query.len() == 0 ==> forall|i: int|
            0 <= i < filter_spec(cmds, query).len() ==> (#[trigger] filter_spec(cmds, query)[i]).score == 0
                && filter_spec(cmds, query)[i].matched_indices.len() == 0,
        query.len() == 0 ==> forall|k: int| 0 <= k < cmds.len() ==> #[trigger] lists(filter_spec(cmds, query), k),
        query.len() == 0 ==> forall|i: int, j: int|
            0 <= i < j < filter_spec(cmds, query).len() ==> priority_spec(
                cmds[(#[trigger] filter_spec(cmds, query)[i]).cmd_index as int].category,
            ) <= priority_spec(cmds[(#[trigger] filter_spec(cmds, query)[j]).cmd_index as int].category),
        query.len() > 0 ==> forall|i: int|
            0 <= i < filter_spec(cmds, query).len() ==> is_scored_result(
                cmds,
                query,
                #[trigger] filter_spec(cmds, query)[i],
            ),
        query.len() > 0 ==> forall|k: int|
            0 <= k < cmds.len() && (#[trigger] command_score(cmds[k], query)) is Some ==> lists(
                filter_spec(cmds, query),
                k,
            ),
        query.len() > 0 ==> forall|i: int, j: int|
            0 <= i < j < filter_spec(cmds, query).len() ==> (#[trigger] filter_spec(cmds, query)[i]).score
                >= (#[trigger] filter_spec(cmds, query)[j]).score,
        query.len() > 0 ==> forall|i: int, j: int|
            0 <= i < j < filter_spec(cmds, query).len() ==> ranked_before(
                #[trigger] filter_spec(cmds, query)[i],
                #[trigger] filter_spec(cmds, query)[j],
            ),
        query.len() == 0 ==> forall|i: int, j: int|
            0 <= i < j < filter_spec(cmds, query).len() ==> listed_before(
                cmds,
                #[trigger] filter_spec(cmds, query)[i],
                #[trigger] filter_spec(cmds, query)[j],
            ),
        query.len() > 0 ==> forall|k: int|
            0 <= k < cmds.len() ==> (#[trigger] lists(filter_spec(cmds, query), k) <==> matches_query(
                cmds[k],
                query,
            )),
{
    let by_listing = query.len() == 0;
    let pool = candidates(cmds, query);
    let r = filter_spec(cmds, query);
    if query.len() > 0 {
        lemma_scored_candidates_shape(cmds, query, cmds.len());
        lemma_scored_candidates_members(cmds, query, cmds.len());
    }
    assert(distinct_indices(pool));
    lemma_ordering_exists(cmds, by_listing, pool);
    lemma_comes_before_order(cmds, by_listing);
    assert forall|i: int| 0 <= i < r.len() implies pool.contains(#[trigger] r[i]) by {
        assert(r.contains(r[i]));
    }
    assert forall|i: int| 0 <= i < r.len() implies (#[trigger] r[i]).cmd_index < cmds.len() by {
        assert(pool.contains(r[i]));
        let k = choose|k: int| 0 <= k < pool.len() && pool[k] == r[i];
        if query.len() > 0 {
            assert(pool[k].cmd_index < cmds.len());
        }
    }
    assert forall|i: int, j: int| 0 <= i < j < r.len() implies (#[trigger] r[i]).cmd_index
        != (#[trigger] r[j]).cmd_index by {
        assert(comes_before(cmds, by_listing, r[i], r[j]));
        assert(pool.contains(r[i]) && pool.contains(r[j]));
        let a = choose|a: int| 0 <= a < pool.len() && pool[a] == r[i];
        let b = choose|b: int| 0 <= b < pool.len() && pool[b] == r[j];
        if a != b {
            if a < b {
                assert(pool[a].cmd_index != pool[b].cmd_index);
            } else {
                assert(pool[b].cmd_index != pool[a].cmd_index);
            }
        }
    }
    if query.len() == 0 {
        assert forall|k: int| 0 <= k < cmds.len() implies #[trigger] lists(r, k) by {
            assert(pool.contains(pool[k]));
            assert(r.contains(pool[k]));
            let i = choose|i: int| 0 <= i < r.len() && r[i] == pool[k];
            assert(r[i].cmd_index == k);
        }
        assert forall|i: int| 0 <= i < r.len() implies (#[trigger] r[i]).score == 0
            && r[i].matched_indices.len() == 0 by {
            assert(pool.contains(r[i]));
        }
        assert forall|i: int, j: int| 0 <= i < j < r.len() implies priority_spec(
            cmds[(#[trigger] r[i]).cmd_index as int].category,
        ) <= priority_spec(cmds[(#[trigger] r[j]).cmd_index as int].category) by {
            assert(comes_before(cmds, by_listing, r[i], r[j]));
        }
    } else {
        assert forall|i: int| 0 <= i < r.len() implies is_scored_result(cmds, query, #[trigger] r[i]) by {
            assert(pool.contains(r[i]));
            let k = choose|k: int| 0 <= k < pool.len() && pool[k] == r[i];
            assert(is_scored_result(cmds, query, pool[k]));
        }
        assert forall|k: int|
            0 <= k < cmds.len() && (#[trigger] command_score(cmds[k], query)) is Some implies lists(r, k) by {
            let j = choose|j: int| 0 <= j < pool.len() && pool[j].cmd_index == k;
            assert(pool.contains(pool[j]));
            assert(r.contains(pool[j]));
            let i = choose|i: int| 0 <= i < r.len() && r[i] == pool[j];
            assert(r[i].cmd_index == k);
        }
        assert forall|i: int, j: int| 0 <= i < j < r.len() implies (#[trigger] r[i]).score
            >= (#[trigger] r[j]).score by {
            assert(comes_before(cmds, by_listing, r[i], r[j]));
        }
        assert forall|i: int, j: int| 0 <= i < j < r.len() implies ranked_before(#[trigger] r[i], #[trigger] r[j]) by {
            assert(comes_before(cmds, by_listing, r[i], r[j]));
        }
        assert forall|k: int| 0 <= k < cmds.len() implies (#[trigger] lists(r, k) <==> matches_query(cmds[k], query)) by {
            lemma_command_score_some(cmds[k], query);
            if lists(r, k) {
                let i = choose|i: int| 0 <= i < r.len() && r[i].cmd_index == k;
                assert(is_scored_result(cmds, query, r[i]));
            }
        }
    }
    if query.len() == 0 {
        assert forall|i: int, j: int| 0 <= i < j < r.len() implies listed_before(cmds, #[trigger] r[i], #[trigger] r[j]) by {
            assert(comes_before(cmds, by_listing, r[i], r[j]));
        }
    }
}

/// The matcher's score for the brief of `c` against `query`, where the
/// brief matches, lies in the `i32` range.
pub open spec fn brief_score_fits(c: CommandView, query: Seq<char>) -> bool {
    skim_fuzzy_indices(c.brief, query) matches Some((s, _)) ==> i32::MIN <= s <= i32::MAX
}

/// The score of each result for a non-empty query: a command whose brief
/// the matcher matches scores the brief's score, plus 100 when its
/// lowercase brief contains the lowercase query, and highlights the
/// matched positions; any other command scores its best keyword score and
/// highlights nothing. (The filter ensures the brief scores fit `i32`.)
pub proof fn lemma_filter_scores(cmds: Seq<CommandView>, query: Seq<char>)
    requires
        query.len() > 0,
        cmds.len() <= usize::MAX,
        forall|k: int| 0 <= k < cmds.len() ==> brief_score_fits(#[trigger] cmds[k], query),
    ensures
        forall|i: int|
            0 <= i < filter_spec(cmds, query).len() ==> {
                let m = #[trigger] filter_spec(cmds, query)[i];
                let c = cmds[m.cmd_index as int];
                match skim_fuzzy_indices(c.brief, query) {
                    Some((s, idx)) => {
                        &&& m.score == s + (if contains_seq(lowercase(c.brief), lowercase(query)) {
                            substring_bonus()
                        } else {
                            0
                        })
                        &&& m.matched_indices == idx
                    },
                    None => {
                        &&& best_keyword_score(keyword_scores_spec(c.keywords, query)) == Some(m.score)
                        &&& m.matched_indices.len() == 0
                    },
                }
            },
{
    lemma_filter_results(cmds, query);
    let r = filter_spec(cmds, query);
    assert forall|i: int| 0 <= i < r.len() implies {
        let m = #[trigger] r[i];
        let c = cmds[m.cmd_index as int];
        match skim_fuzzy_indices(c.brief, query) {
            Some((s, idx)) => {
                &&& m.score == s + (if contains_seq(lowercase(c.brief), lowercase(query)) {
                    substring_bonus()
                } else {
                    0
                })
                &&& m.matched_indices == idx
            },
            None => {
                &&& best_keyword_score(keyword_scores_spec(c.keywords, query)) == Some(m.score)
                &&& m.matched_indices.len() == 0
            },
        }
    } by {
        let m = r[i];
        assert(is_scored_result(cmds, query, m));
        assert(m.cmd_index < cmds.len());
        assert(brief_score_fits(cmds[m.cmd_index as int], query));
    }
}

/// Filters and ranks `commands` by `query` (see [`filter_spec`]). The
/// highlighted positions are char positions in the brief.
pub fn filter(commands: &[Command], query: &str) -> (res: Vec<PaletteMatch>)
    ensures
        match_views(res@) == filter_spec(command_views(commands@), query@),
        res@.len() <= commands@.len(),
        query@.len() > 0 ==> forall|k: int|
            0 <= k < commands@.len() ==> brief_score_fits(#[trigger] command_views(commands@)[k], query@),
{
    let ghost cv = command_views(commands@);
    let n = commands.len();
    let mut pool: Vec<PaletteMatch> = Vec::new();
    let empty_query = query.unicode_len() == 0;
    if empty_query {
        let mut i: usize = 0;
        while i < n
            invariant
                n == commands@.len(),
                i <= n,
                match_views(pool@) =~= candidates(cv, query@).take(i as int),
                query@.len() == 0,
                cv == command_views(commands@),
            decreases n - i,
        {
            let ghost before = match_views(pool@);
            pool.push(PaletteMatch { cmd_index: i, score: 0, matched_indices: Vec::new() });
            proof {
                assert(cv.len() == n);
                let c = candidates(cv, query@);
                assert(c[i as int] == MatchView { cmd_index: i, score: 0, matched_indices: Seq::empty() });
                assert(match_views(pool@) =~= before.push(c[i as int]));
                assert(c.take(i + 1) =~= c.take(i as int).push(c[i as int]));
            }
            i = i + 1;
        }
    } else {
        let query_lower = chars_of(to_lowercase(query).as_str());
        let mut i: usize = 0;
        while i < n
            invariant
                n == commands@.len(),
                i <= n,
                match_views(pool@) == scored_candidates(cv, query@, i as nat),
                forall|k: int| 0 <= k < i ==> brief_score_fits(#[trigger] cv[k], query@),
                query@.len() > 0,
                query_lower@ == lowercase(query@),
                cv == command_views(commands@),
            decreases n - i,
        {
            let cmd = &commands[i];
            let brief_match = fuzzy_indices(cmd.brief, query);
            proof {
                assert(cv[i as int] == cmd@);
                assert(brief_score_fits(cv[i as int], query@));
            }
            let scored = match brief_match {
                Some((s, idx)) => {
                    let brief_lower = chars_of(to_lowercase(cmd.brief).as_str());
                    let contains = contains_chars(brief_lower.as_slice(), query_lower.as_slice());
                    let no_keywords: Vec<Option<i64>> = Vec::new();
                    score_command(Some((s, idx)), contains, no_keywords.as_slice())
                },
                None => {
                    let mut kw: Vec<Option<i64>> = Vec::new();
                    let mut k: usize = 0;
                    while k < cmd.keywords.len()
                        invariant
                            k <= cmd.keywords@.len(),
                            kw@ =~= keyword_scores_spec(cmd@.keywords, query@).take(k as int),
                        decreases cmd.keywords@.len() - k,
                    {
                        let r = fuzzy_indices(cmd.keywords[k], query);
                        kw.push(
                            match r {
                                Some((s, _)) => Some(s),
                                None => None,
                            },
                        );
                        assert(kw@ =~= keyword_scores_spec(cmd@.keywords, query@).take(k + 1));
                        k = k + 1;
                    }
                    assert(kw@ =~= keyword_scores_spec(cmd@.keywords, query@));
                    score_command(None, false, kw.as_slice())
                },
            };
            proof {
                assert(cv[i as int] == cmd@);
            }
            match scored {
                Some((score, matched_indices)) => {
                    pool.push(PaletteMatch { cmd_index: i, score, matched_indices });
                },
                None => {},
            }
            assert(match_views(pool@) =~= scored_candidates(cv, query@, (i + 1) as nat));
            i = i + 1;
        }
        assert(match_views(pool@) =~= candidates(cv, query@));
    }
    proof {
        assert(match_views(pool@) =~= candidates(cv, query@));
        if query@.len() > 0 {
            lemma_scored_candidates_shape(cv, query@, cv.len());
        }
        assert(distinct_indices(match_views(pool@)));
        assert forall|i: int| 0 <= i < pool@.len() implies (#[trigger] pool@[i]).cmd_index < commands@.len() by {
            assert(match_views(pool@)[i] == pool@[i]@);
        }
    }
    let res = sort_matches(pool, commands, empty_query);
    res
}

/// What the caller should do after [`CommandPaletteState::on_key`].
#[derive(Clone, Copy, Debug, PartialEq, Eq, Structural)]
pub enum PaletteAction {
    /// The key was consumed (typing or navigation); redraw.
    Continue,
    /// Enter was pressed: run the command at this command-list index, then
    /// close the palette.
    Execute(usize),
    /// Esc or Ctrl+C: close the palette without running anything.
    Close,
    /// The key means nothing to the palette.
    Noop,
}

/// What a key asks of the palette, before looking at the palette's state.
#[derive(Clone, Copy, Debug, PartialEq, Eq, Structural)]
pub enum KeyCommand {
    /// Ctrl+C.
    Close,
    /// Esc: clear the query, or close when it is already empty.
    Escape,
    /// Backspace: delete the last char of the query.
    Backspace,
    /// Ctrl+U: clear the query.
    ClearQuery,
    /// Ctrl+W: delete the last word of the query.
    DeleteWord,
    /// Down, Ctrl+N, Tab, Ctrl+J.
    Down,
    /// Up, Ctrl+P, Shift+Tab, Ctrl+K.
    Up,
    /// PageDown, Ctrl+D.
    PageDown,
    /// PageUp.
    PageUp,
    /// Home.
    Home,
    /// End.
    End,
    /// Enter.
    Enter,
    /// A printable char typed without Ctrl or Alt.
    Insert(char),
    /// Any other key.
    Ignore,
}

/// What `key` asks of the palette. Ctrl+C closes; Esc, Backspace, Ctrl+U and
/// Ctrl+W edit the query; Down / Ctrl+N / Tab / Ctrl+J and Up / Ctrl+P /
/// Shift+Tab / Ctrl+K move by one row; PageDown / Ctrl+D and PageUp move by
/// a page; Home, End and Enter; a non-control char typed without Ctrl or Alt
/// is inserted (Shift is already part of the char). Earlier rules win.
pub open spec fn key_command_spec(key: KeyWithModifier) -> KeyCommand {
    let bare = key.bare_key;
    let ctrl = key.has_modifier(KeyModifier::Ctrl);
    let shift = key.has_modifier(KeyModifier::Shift);
    let alt = key.has_modifier(KeyModifier::Alt);
    if bare == BareKey::Char('c') && ctrl {
        KeyCommand::Close
    } else if bare == BareKey::Esc {
        KeyCommand::Escape
    } else if bare == BareKey::Backspace {
        KeyCommand::Backspace
    } else if bare == BareKey::Char('u') && ctrl {
        KeyCommand::ClearQuery
    } else if bare == BareKey::Char('w') && ctrl {
        KeyCommand::DeleteWord
    } else if bare == BareKey::Down || (bare == BareKey::Char('n') && ctrl) || (bare == BareKey::Tab
        && !shift) || (bare == BareKey::Char('j') && ctrl) {
        KeyCommand::Down
    } else if bare == BareKey::Up || (bare == BareKey::Char('p') && ctrl) || (bare == BareKey::Tab
        && shift) || (bare == BareKey::Char('k') && ctrl) {
        KeyCommand::Up
    } else if bare == BareKey::PageDown || (bare == BareKey::Char('d') && ctrl) {
        KeyCommand::PageDown
    } else if bare == BareKey::PageUp {
        KeyCommand::PageUp
    } else if bare == BareKey::Home {
        KeyCommand::Home
    } else if bare == BareKey::End {
        KeyCommand::End
    } else if bare == BareKey::Enter {
        KeyCommand::Enter
    } else {
        match bare {
            BareKey::Char(ch) => if !ctrl && !alt && !is_control_spec(ch) {
                KeyCommand::Insert(ch)
            } else {
                KeyCommand::Ignore
            },
            _ => KeyCommand::Ignore,
        }
    }
}

/// What `key` asks of the palette (see [`key_command_spec`]).
pub fn classify_key(key: &KeyWithModifier) -> (c: KeyCommand)
    ensures
        c == key_command_spec(*key),
{
    let bare = key.bare_key;
    let ctrl = key.modifier_held(KeyModifier::Ctrl);
    let shift = key.modifier_held(KeyModifier::Shift);
    let alt = key.modifier_held(KeyModifier::Alt);
    if bare == BareKey::Char('c') && ctrl {
        KeyCommand::Close
    } else if bare == BareKey::Esc {
        KeyCommand::Escape
    } else if bare == BareKey::Backspace {
        KeyCommand::Backspace
    } else if bare == BareKey::Char('u') && ctrl {
        KeyCommand::ClearQuery
    } else if bare == BareKey::Char('w') && ctrl {
        KeyCommand::DeleteWord
    } else if bare == BareKey::Down || (bare == BareKey::Char('n') && ctrl) || (bare == BareKey::Tab
        && !shift) || (bare == BareKey::Char('j') && ctrl) {
        KeyCommand::Down
    } else if bare == BareKey::Up || (bare == BareKey::Char('p') && ctrl) || (bare == BareKey::Tab
        && shift) || (bare == BareKey::Char('k') && ctrl) {
        KeyCommand::Up
    } else if bare == BareKey::PageDown || (bare == BareKey::Char('d') && ctrl) {
        KeyCommand::PageDown
    } else if bare == BareKey::PageUp {
        KeyCommand::PageUp
    } else if bare == BareKey::Home {
        KeyCommand::Home
    } else if bare == BareKey::End {
        KeyCommand::End
    } else if bare == BareKey::Enter {
        KeyCommand::Enter
    } else {
        match bare {
            BareKey::Char(ch) => if !ctrl && !alt && !is_control(ch) {
                KeyCommand::Insert(ch)
            } else {
                KeyCommand::Ignore
            },
            _ => KeyCommand::Ignore,
        }
    }
}

/// `q` without its trailing whitespace.
pub open spec fn trim_end(q: Seq<char>) -> Seq<char>
    decreases q.len(),
{
    if q.len() > 0 && is_whitespace_spec(q.last()) {
        trim_end(q.drop_last())
    } else {
        q
    }
}

/// Position of the last whitespace char of `t`, or `-1` when it has none.
pub open spec fn last_whitespace(t: Seq<char>) -> int
    decreases t.len(),
{
    if t.len() == 0 {
        -1
    } else if is_whitespace_spec(t.last()) {
        t.len() - 1
    } else {
        last_whitespace(t.drop_last())
    }
}

/// `q` after Ctrl+W: trailing whitespace trimmed, then everything from the
/// last remaining whitespace char on removed (all of it when there is none).
pub open spec fn delete_last_word_spec(q: Seq<char>) -> Seq<char> {
    let t = trim_end(q);
    let p = last_whitespace(t);
    if p < 0 {
        Seq::empty()
    } else {
        t.take(p)
    }
}

proof fn lemma_trim_end_prefix(q: Seq<char>, n: int)
    requires
        0 <= n <= q.len(),
        forall|k: int| n <= k < q.len() ==> is_whitespace_spec(#[trigger] q[k]),
    ensures
        trim_end(q) == trim_end(q.take(n)),
    decreases q.len() - n,
{
    if n < q.len() {
        assert(q.drop_last() =~= q.take(q.len() - 1));
        lemma_trim_end_prefix(q.take(q.len() - 1), n);
        assert(q.take(q.len() - 1).take(n) =~= q.take(n));
    } else {
        assert(q.take(n) =~= q);
    }
}

proof fn lemma_last_whitespace_prefix(t: Seq<char>, n: int)
    requires
        0 <= n <= t.len(),
        forall|k: int| n <= k < t.len() ==> !is_whitespace_spec(#[trigger] t[k]),
    ensures
        last_whitespace(t) == last_whitespace(t.take(n)),
    decreases t.len() - n,
{
    if n < t.len() {
        assert(t.drop_last() =~= t.take(t.len() - 1));
        lemma_last_whitespace_prefix(t.take(t.len() - 1), n);
        assert(t.take(t.len() - 1).take(n) =~= t.take(n));
    } else {
        assert(t.take(n) =~= t);
    }
}

proof fn lemma_trim_end_shape(q: Seq<char>)
    ensures
        trim_end(q).len() <= q.len(),
        trim_end(q) == q.take(trim_end(q).len() as int),
        forall|k: int| trim_end(q).len() <= k < q.len() ==> is_whitespace_spec(#[trigger] q[k]),
        trim_end(q).len() == 0 || !is_whitespace_spec(q[trim_end(q).len() - 1]),
    decreases q.len(),
{
    if q.len() > 0 && is_whitespace_spec(q.last()) {
        lemma_trim_end_shape(q.drop_last());
        let t = trim_end(q.drop_last());
        assert(q.drop_last().take(t.len() as int) =~= q.take(t.len() as int));
        assert forall|k: int| t.len() <= k < q.len() implies is_whitespace_spec(#[trigger] q[k]) by {
            if k < q.len() - 1 {
                assert(q.drop_last()[k] == q[k]);
            }
        }
        if t.len() > 0 {
            assert(q.drop_last()[t.len() - 1] == q[t.len() - 1]);
        }
    } else {
        assert(q.take(q.len() as int) =~= q);
    }
}

proof fn lemma_last_whitespace_shape(t: Seq<char>)
    ensures
        -1 <= last_whitespace(t) < t.len(),
        last_whitespace(t) >= 0 ==> is_whitespace_spec(t[last_whitespace(t)]),
        forall|k: int| last_whitespace(t) < k < t.len() ==> !is_whitespace_spec(#[trigger] t[k]),
    decreases t.len(),
{
    if t.len() > 0 && !is_whitespace_spec(t.last()) {
        lemma_last_whitespace_shape(t.drop_last());
        let p = last_whitespace(t.drop_last());
        if p >= 0 {
            assert(t.drop_last()[p] == t[p]);
        }
        assert forall|k: int| p < k < t.len() implies !is_whitespace_spec(#[trigger] t[k]) by {
            if k < t.len() - 1 {
                assert(t.drop_last()[k] == t[k]);
            }
        }
    }
}

/// What Ctrl+W leaves of a query `q` whose last word ends at `e` (every
/// char from `e` on is whitespace, and the char before `e`, if any, is
/// not): a prefix of `q`, cut at a whitespace char before `e` (or empty),
/// with no whitespace between the cut and `e`. So exactly the last word and
/// what follows it go, and every char before the whitespace that precedes
/// the last word stays.
pub proof fn lemma_delete_last_word(q: Seq<char>, e: int)
    requires
        0 <= e <= q.len(),
        forall|k: int| e <= k < q.len() ==> is_whitespace_spec(#[trigger] q[k]),
        e == 0 || !is_whitespace_spec(q[e - 1]),
    ensures
        ({
            let r = delete_last_word_spec(q);
            &&& r == q.take(r.len() as int)
            &&& r.len() == 0 || (r.len() < e && is_whitespace_spec(q[r.len() as int]))
            &&& forall|k: int| r.len() < k < e ==> !is_whitespace_spec(#[trigger] q[k])
        }),
{
    lemma_trim_end_shape(q);
    let t = trim_end(q);
    // The end of the trimmed query is `e`.
    if t.len() < e {
        assert(is_whitespace_spec(q[e - 1]));
    } else if t.len() > e {
        assert(is_whitespace_spec(q[t.len() - 1]));
    }
    assert(t.len() == e);
    lemma_last_whitespace_shape(t);
    let p = last_whitespace(t);
    let r = delete_last_word_spec(q);
    assert forall|k: int| 0 <= k < t.len() implies #[trigger] t[k] == q[k] by {}
    if p >= 0 {
        assert(r == t.take(p));
        assert(r =~= q.take(p));
        assert(is_whitespace_spec(q[p]));
    } else {
        assert(r =~= q.take(0));
    }
    assert forall|k: int| r.len() < k < e implies !is_whitespace_spec(#[trigger] q[k]) by {
        if p >= 0 {
            assert(t[k] == q[k]);
        } else {
            assert(t[k] == q[k]);
        }
    }
}

/// Deletes the last whitespace-delimited word of `query` (Ctrl+W):
/// trailing whitespace first, then back to the previous whitespace boundary.
pub fn delete_last_word(query: &mut String)
    ensures
        final(query)@ == delete_last_word_spec(old(query)@),
{
    let chars = chars_of(query.as_str());
    let ghost q = chars@;
    let mut end = chars.len();
    while end > 0 && is_whitespace(chars[end - 1])
        invariant
            end <= q.len(),
            q == chars@,
            forall|k: int| end <= k < q.len() ==> is_whitespace_spec(#[trigger] q[k]),
        decreases end,
    {
        end = end - 1;
    }
    proof {
        lemma_trim_end_prefix(q, end as int);
        if end > 0 {
            assert(q.take(end as int).last() == q[end - 1]);
            assert(trim_end(q.take(end as int)) == q.take(end as int));
        } else {
            assert(q.take(0) =~= Seq::<char>::empty());
        }
    }
    let ghost t = q.take(end as int);
    let mut p = end;
    while p > 0 && !is_whitespace(chars[p - 1])
        invariant
            p <= end <= q.len(),
            q == chars@,
            t == q.take(end as int),
            forall|k: int| p <= k < end ==> !is_whitespace_spec(#[trigger] q[k]),
        decreases p,
    {
        p = p - 1;
    }
    proof {
        assert forall|k: int| p <= k < t.len() implies !is_whitespace_spec(#[trigger] t[k]) by {
            assert(t[k] == q[k]);
        }
        lemma_last_whitespace_prefix(t, p as int);
        assert(t.take(p as int) =~= q.take(p as int));
        if p > 0 {
            assert(t.take(p as int).last() == q[p - 1]);
            assert(last_whitespace(t) == p - 1);
            assert(t.take(p - 1) =~= q.take(p - 1));
        } else {
            assert(t.take(0) =~= Seq::<char>::empty());
        }
    }
    let cut = if p == 0 {
        0
    } else {
        p - 1
    };
    *query = string_from_prefix(chars.as_slice(), cut);
}

/// The complete state of the palette overlay: the query, its ranked
/// results, the selection cursor and the scroll window of the result list.
pub struct CommandPaletteState {
    /// The current search text.
    pub query: String,
    /// Filtered and ranked results for `query`.
    pub matches: Vec<PaletteMatch>,
    /// Index into `matches` of the highlighted row.
    pub selected: usize,
    /// Index of the first visible result row.
    pub scroll_offset: usize,
    /// Height in rows of the result viewport at the last layout; Page Up and
    /// Page Down move by this many rows.
    pub viewport_height: u16,
    /// Click / hover regions of the result rows at the last layout.
    pub click_regions: Vec<ClickRegion>,
}

/// The palette state as plain values.
#[verifier::ext_equal]
pub struct PaletteView {
    pub query: Seq<char>,
    pub matches: Seq<MatchView>,
    pub selected: usize,
    pub scroll_offset: usize,
    pub viewport_height: u16,
    pub click_regions: Seq<ClickRegion>,
}

impl View for CommandPaletteState {
    type V = PaletteView;

    open spec fn view(&self) -> PaletteView {
        PaletteView {
            query: self.query@,
            matches: match_views(self.matches@),
            selected: self.selected,
            scroll_offset: self.scroll_offset,
            viewport_height: self.viewport_height,
            click_regions: self.click_regions@,
        }
    }
}

/// The state after re-running the filter on the current query: the results
/// for the query over the registry, with the selection and the scroll
/// window reset to the top.
pub open spec fn refresh_spec(s: PaletteView) -> PaletteView {
    PaletteView { matches: filter_spec(registry(), s.query), selected: 0, scroll_offset: 0, ..s }
}

/// Rows moved by Page Up / Page Down: the viewport height, at least one.
pub open spec fn page_rows(s: PaletteView) -> int {
    if s.viewport_height == 0 { 1 } else { s.viewport_height as int }
}

/// The state with the scroll window moved just enough to show the selected
/// row, and never past the last result.
pub open spec fn clamp_spec(s: PaletteView) -> PaletteView {
    if s.matches.len() == 0 {
        PaletteView { scroll_offset: 0, ..s }
    } else {
        let vh = page_rows(s);
        let off = if s.selected < s.scroll_offset {
            s.selected as int
        } else if s.selected >= s.scroll_offset + vh {
            if s.selected >= vh - 1 { s.selected - (vh - 1) } else { 0 }
        } else {
            s.scroll_offset as int
        };
        let max_offset = s.matches.len() - 1;
        PaletteView { scroll_offset: (if off > max_offset { max_offset } else { off }) as usize, ..s }
    }
}

/// The selection after moving `delta` rows from `selected` (read as a
/// signed index) in a list of `len` rows, wrapping around both ends.
pub open spec fn wrapped_selection(selected: usize, delta: int, len: nat) -> int {
    ((selected as isize) as int + delta) % (len as int)
}

/// The state after moving the selection by `delta` rows, wrapping around
/// the list, with the scroll window following it. Nothing moves in an empty
/// list.
pub open spec fn move_spec(s: PaletteView, delta: int) -> PaletteView {
    if s.matches.len() == 0 {
        s
    } else {
        clamp_spec(
            PaletteView {
                selected: wrapped_selection(s.selected, delta, s.matches.len()) as usize,
                ..s
            },
        )
    }
}

/// How many rows a key command moves the selection, if it is a move.
pub open spec fn move_delta(s: PaletteView, cmd: KeyCommand) -> Option<int> {
    match cmd {
        KeyCommand::Down => Some(1),
        KeyCommand::Up => Some(-1),
        KeyCommand::PageDown => Some(page_rows(s)),
        KeyCommand::PageUp => Some(-page_rows(s)),
        _ => None,
    }
}

/// `s` with `q` as its query, re-filtered.
pub open spec fn with_query(s: PaletteView, q: Seq<char>) -> PaletteView {
    refresh_spec(PaletteView { query: q, ..s })
}

/// The palette's response to a key command: the next state and what the
/// caller should do.
pub open spec fn step_spec(s: PaletteView, cmd: KeyCommand) -> (PaletteView, PaletteAction) {
    match cmd {
        KeyCommand::Close => (s, PaletteAction::Close),
        KeyCommand::Escape => if s.query.len() == 0 {
            (s, PaletteAction::Close)
        } else {
            (with_query(s, Seq::empty()), PaletteAction::Continue)
        },
        KeyCommand::Backspace => (
            with_query(s, if s.query.len() == 0 { s.query } else { s.query.drop_last() }),
            PaletteAction::Continue,
        ),
        KeyCommand::ClearQuery => (with_query(s, Seq::empty()), PaletteAction::Continue),
        KeyCommand::DeleteWord => (
            with_query(s, delete_last_word_spec(s.query)),
            PaletteAction::Continue,
        ),
        KeyCommand::Down | KeyCommand::Up | KeyCommand::PageDown | KeyCommand::PageUp => (
            move_spec(s, move_delta(s, cmd)->0),
            PaletteAction::Continue,
        ),
        KeyCommand::Home => (PaletteView { selected: 0, scroll_offset: 0, ..s }, PaletteAction::Continue),
        KeyCommand::End => (
            if s.matches.len() == 0 {
                s
            } else {
                clamp_spec(PaletteView { selected: (s.matches.len() - 1) as usize, ..s })
            },
            PaletteAction::Continue,
        ),
        KeyCommand::Enter => if s.selected < s.matches.len() {
            (s, PaletteAction::Execute(s.matches[s.selected as int].cmd_index))
        } else {
            (s, PaletteAction::Noop)
        },
        KeyCommand::Insert(ch) => (with_query(s, s.query.push(ch)), PaletteAction::Continue),
        KeyCommand::Ignore => (s, PaletteAction::Noop),
    }
}

/// The limits under which handling `cmd` is defined: the result list is no
/// longer than `isize::MAX` (no `Vec` of results can be longer), and a move
/// keeps the signed selection index within `isize`.
pub open spec fn step_fits(s: PaletteView, cmd: KeyCommand) -> bool {
    &&& s.matches.len() <= isize::MAX
    &&& move_delta(s, cmd) matches Some(d) ==> (s.matches.len() > 0 ==> isize::MIN <= (
    s.selected as isize) as int + d <= isize::MAX)
}

/// The matches index that a click or hover at `(row, col)` targets: the row
/// of the first region there, when that region executes a row.
pub open spec fn click_target(regions: Seq<ClickRegion>, row: usize, col: usize) -> Option<usize> {
    if exists|i: int| is_first_hit(regions, i, row, col) {
        let i = choose|i: int| is_first_hit(regions, i, row, col);
        match regions[i].action {
            ClickAction::ExecuteCommand(idx) => Some(idx),
            _ => None,
        }
    } else {
        None
    }
}

/// `((v % len) + len) % len`: `v` reduced into `[0, len)`.
fn wrap_index(selected: usize, delta: i64, len: usize) -> (r: usize)
    requires
        len > 0,
        -0x1_0000 <= delta <= 0x1_0000,
    ensures
        r == wrapped_selection(selected, delta as int, len as nat),
        r < len,
{
    let s = selected as isize;
    let v: i128 = s as i128 + delta as i128;
    let l: i128 = len as i128;
    if v >= 0 {
        let r = v % l;
        r as usize
    } else {
        let a: i128 = -v;
        let m = a % l;
        let r = if m == 0 {
            0
        } else {
            l - m
        };
        proof {
            let vi = v as int;
            let li = l as int;
            let ai = a as int;
            assert(ai == -vi);
            assert(vi % li == r) by (nonlinear_arith)
                requires
                    ai == -vi,
                    li > 0,
                    m as int == ai % li,
                    r as int == (if m == 0 { 0 } else { li - m }),
                    ai > 0,
            {
                let q = ai / li;
                assert(ai == q * li + (ai % li));
                if m == 0 {
                    assert(vi == (-q) * li);
                } else {
                    assert(vi == (-q - 1) * li + (li - m));
                }
            }
        }
        r as usize
    }
}

impl CommandPaletteState {
    /// The key command's limits hold in this state (see [`step_fits`]).
    pub open spec fn key_fits(&self, key: KeyWithModifier) -> bool {
        step_fits(self@, key_command_spec(key))
    }

    /// A fresh palette: empty query, every command listed (by category
    /// priority, then brief), selection and scroll at the top, a viewport of
    /// eight rows and no click regions.
    pub fn new() -> (s: Self)
        ensures
            s@ == (PaletteView {
                query: Seq::empty(),
                matches: filter_spec(registry(), Seq::empty()),
                selected: 0,
                scroll_offset: 0,
                viewport_height: 8,
                click_regions: Seq::empty(),
            }),
    {
        let mut state = CommandPaletteState {
            query: String::new(),
            matches: Vec::new(),
            selected: 0,
            scroll_offset: 0,
            viewport_height: 8,
            click_regions: Vec::new(),
        };
        state.refresh_matches();
        state
    }

    /// Re-runs the filter against the current query and resets the
    /// selection and the scroll window to the top. Called after every change
    /// of the query.
    pub fn refresh_matches(&mut self)
        ensures
            final(self)@ == refresh_spec(old(self)@),
    {
        let commands = all_commands();
        proof {
            assert(command_views(commands@) =~= registry());
        }
        self.matches = filter(commands.as_slice(), self.query.as_str());
        self.selected = 0;
        self.scroll_offset = 0;
    }

    /// Moves the scroll window just enough to show the selected row.
    fn clamp_scroll(&mut self)
        requires
            old(self).matches@.len() <= isize::MAX,
            old(self).matches@.len() > 0 ==> old(self).selected < old(self).matches@.len(),
        ensures
            final(self)@ == clamp_spec(old(self)@),
    {
        if self.matches.len() == 0 {
            self.scroll_offset = 0;
            return;
        }
        let vh: usize = if self.viewport_height == 0 {
            1
        } else {
            self.viewport_height as usize
        };
        if self.selected < self.scroll_offset {
            self.scroll_offset = self.selected;
        } else if self.selected >= self.scroll_offset + vh {
            self.scroll_offset = self.selected.saturating_sub(vh - 1);
        }
        let max_offset = self.matches.len() - 1;
        if self.scroll_offset > max_offset {
            self.scroll_offset = max_offset;
        }
    }

    /// Moves the selection by `delta` rows (negative is up), wrapping around
    /// the list, and keeps the selection visible.
    fn move_selection(&mut self, delta: i64)
        requires
            -0x1_0000 <= delta <= 0x1_0000,
            old(self).matches@.len() <= isize::MAX,
            old(self).matches@.len() > 0 ==> isize::MIN <= (old(self).selected as isize) as int + delta
                <= isize::MAX,
        ensures
            final(self)@ == move_spec(old(self)@, delta as int),
    {
        if self.matches.len() == 0 {
            return;
        }
        self.selected = wrap_index(self.selected, delta, self.matches.len());
        self.clamp_scroll();
    }

    /// Moves the selection down by one row (mouse scroll down), wrapping.
    pub fn move_selection_down(&mut self)
        requires
            step_fits(old(self)@, KeyCommand::Down),
        ensures
            final(self)@ == move_spec(old(self)@, 1),
    {
        self.move_selection(1);
    }

    /// Moves the selection up by one row (mouse scroll up), wrapping.
    pub fn move_selection_up(&mut self)
        requires
            step_fits(old(self)@, KeyCommand::Up),
        ensures
            final(self)@ == move_spec(old(self)@, -1),
    {
        self.move_selection(-1);
    }

    /// The result row hit by a left click at pane-relative `(row, col)`, as
    /// an index into `matches`, or `None` when the click hit no result row.
    pub fn on_click(&self, row: usize, col: usize) -> (r: Option<usize>)
        ensures
            r == click_target(self@.click_regions, row, col),
    {
        self.hit_row(row, col)
    }

    /// The result row under the mouse at pane-relative `(row, col)`, as an
    /// index into `matches`, so that the caller can select it.
    pub fn on_hover(&self, row: usize, col: usize) -> (r: Option<usize>)
        ensures
            r == click_target(self@.click_regions, row, col),
    {
        self.hit_row(row, col)
    }

    fn hit_row(&self, row: usize, col: usize) -> (r: Option<usize>)
        ensures
            r == click_target(self@.click_regions, row, col),
    {
        let regions = self.click_regions.as_slice();
        let hit = crate::click::hit_test(regions, row, col);
        proof {
            let rs = self.click_regions@;
            if exists|i: int| is_first_hit(rs, i, row, col) {
                let i = choose|i: int| is_first_hit(rs, i, row, col);
                assert(hit is Some);
                let j = choose|j: int| is_first_hit(rs, j, row, col) && *hit->0 == rs[j].action;
                if i < j {
                    assert(!crate::click::region_contains(rs[i], row, col));
                } else if j < i {
                    assert(!crate::click::region_contains(rs[j], row, col));
                }
            } else {
                if hit is Some {
                    let j = choose|j: int| is_first_hit(rs, j, row, col) && *hit->0 == rs[j].action;
                    assert(is_first_hit(rs, j, row, col));
                }
            }
        }
        match hit {
            Some(ClickAction::ExecuteCommand(idx)) => Some(*idx),
            _ => None,
        }
    }

    /// Handles one key press and says what the caller should do next: the
    /// state changes as [`step_spec`] describes for the key's command.
    pub fn on_key(&mut self, key: &KeyWithModifier) -> (action: PaletteAction)
        requires
            old(self).key_fits(*key),
        ensures
            (final(self)@, action) == step_spec(old(self)@, key_command_spec(*key)),
    {
        let cmd = classify_key(key);
        match cmd {
            KeyCommand::Close => PaletteAction::Close,
            KeyCommand::Escape => {
                if self.query.unicode_len() == 0 {
                    return PaletteAction::Close;
                }
                self.query = String::new();
                self.refresh_matches();
                PaletteAction::Continue
            },
            KeyCommand::Backspace => {
                let chars = chars_of(self.query.as_str());
                if chars.len() > 0 {
                    self.query = string_from_prefix(chars.as_slice(), chars.len() - 1);
                    proof {
                        assert(chars@.take(chars@.len() - 1) =~= chars@.drop_last());
                    }
                }
                self.refresh_matches();
                PaletteAction::Continue
            },
            KeyCommand::ClearQuery => {
                self.query = String::new();
                self.refresh_matches();
                PaletteAction::Continue
            },
            KeyCommand::DeleteWord => {
                delete_last_word(&mut self.query);
                self.refresh_matches();
                PaletteAction::Continue
            },
            KeyCommand::Down => {
                self.move_selection(1);
                PaletteAction::Continue
            },
            KeyCommand::Up => {
                self.move_selection(-1);
                PaletteAction::Continue
            },
            KeyCommand::PageDown => {
                let vh: i64 = if self.viewport_height == 0 {
                    1
                } else {
                    self.viewport_height as i64
                };
                self.move_selection(vh);
                PaletteAction::Continue
            },
            KeyCommand::PageUp => {
                let vh: i64 = if self.viewport_height == 0 {
                    1
                } else {
                    self.viewport_height as i64
                };
                self.move_selection(-vh);
                PaletteAction::Continue
            },
            KeyCommand::Home => {
                self.selected = 0;
                self.scroll_offset = 0;
                PaletteAction::Continue
            },
            KeyCommand::End => {
                if self.matches.len() > 0 {
                    self.selected = self.matches.len() - 1;
                    self.clamp_scroll();
                }
                PaletteAction::Continue
            },
            KeyCommand::Enter => {
                if self.selected < self.matches.len() {
                    PaletteAction::Execute(self.matches[self.selected].cmd_index)
                } else {
                    PaletteAction::Noop
                }
            },
            KeyCommand::Insert(ch) => {
                push_char(&mut self.query, ch);
                self.refresh_matches();
                PaletteAction::Continue
            },
            KeyCommand::Ignore => PaletteAction::Noop,
        }
    }

    /// The visible result rows over `area` and their click regions.
    fn result_rows(&self, commands: &[Command], area: Rect) -> (r: (Vec<TextLine>, Vec<ClickRegion>))
        requires
            fits_vertically(area),
            command_views(commands@) == registry(),
            forall|i: int| 0 <= i < self.matches@.len() ==> (#[trigger] self.matches@[i]).cmd_index < commands@.len(),
        ensures
            line_views(r.0@) == result_row_lines(self@, area),
            r.1@ == result_regions(self@, area),
    {
        let mut lines: Vec<TextLine> = Vec::new();
        let mut regions: Vec<ClickRegion> = Vec::new();
        let ghost n = visible_rows(self@, area.height);
        let visible: u16 = if self.scroll_offset >= self.matches.len() {
            0
        } else if self.matches.len() - self.scroll_offset < area.height as usize {
            (self.matches.len() - self.scroll_offset) as u16
        } else {
            area.height
        };
        let len = self.matches.len();
        let mut row: u16 = 0;
        while row < visible
            invariant
                visible == n,
                len == self.matches@.len(),
                fits_vertically(area),
                command_views(commands@) == registry(),
                forall|i: int| 0 <= i < self.matches@.len() ==> (#[trigger] self.matches@[i]).cmd_index < commands@.len(),
                row <= n,
                n <= area.height,
                n == 0 || self@.scroll_offset + n <= self@.matches.len(),
                self@.matches.len() == self.matches@.len(),
                self@.scroll_offset == self.scroll_offset,
                n == visible_rows(self@, area.height),
                line_views(lines@) == result_row_lines(self@, area).take(row as int),
                regions@ == result_regions(self@, area).take(row as int),
            decreases area.height - row,
        {
            let idx = self.scroll_offset + row as usize;
            let m = &self.matches[idx];
            let cmd = &commands[m.cmd_index];
            let is_selected = idx == self.selected;
            let row_area = Rect::new(area.x, area.y + row, area.width, 1);
            let spans = build_result_line(cmd, m.matched_indices.as_slice(), is_selected, area.width);
            proof {
                assert(self@.matches[idx as int] == m@);
                assert(command_views(commands@)[m.cmd_index as int] == cmd@);
            }
            let ghost old_lines = line_views(lines@);
            let l = one_line(row_area, Style::new(), spans);
            let ghost lv = l@;
            lines.push(l);
            proof {
                assert(line_views(lines@) =~= old_lines.push(lv));
            }
            regions.push(
                ClickRegion::row(
                    row_area.y as usize,
                    row_area.x as usize,
                    (row_area.x + row_area.width) as usize,
                    ClickAction::ExecuteCommand(idx),
                ),
            );
            proof {
                assert(result_row_lines(self@, area)[row as int] == line(
                    row_area,
                    Style { fg: None, bg: None, add_modifier: Modifier { bits: 0 } },
                    result_spans(registry()[m.cmd_index as int], m@.matched_indices, is_selected, area.width),
                ));
                assert(line_views(lines@) =~= result_row_lines(self@, area).take(row + 1));
                assert(regions@ =~= result_regions(self@, area).take(row + 1));
            }
            row = row + 1;
        }
        proof {
            assert(row == n);
            assert(result_row_lines(self@, area).take(row as int) =~= result_row_lines(self@, area));
            assert(result_regions(self@, area).take(row as int) =~= result_regions(self@, area));
        }
        (lines, regions)
    }

    /// Lays the palette out over `area` and returns what to draw: the
    /// border, the title, the sections the layout made and the lines of the
    /// input, result and footer sections. Records the height of the result
    /// section (for Page Up / Page Down) and the click regions of the
    /// visible result rows.
    pub fn render(&mut self, area: Rect) -> (frame: PaletteFrame)
        requires
            forall|i: int|
                0 <= i < old(self)@.matches.len() ==> (#[trigger] old(self)@.matches[i]).cmd_index
                    < registry().len(),
        ensures
            palette_sections(area, frame@.sections),
            frame@ == frame_spec(old(self)@, area, frame@.sections),
            final(self)@ == (PaletteView {
                viewport_height: frame@.sections.1.height,
                click_regions: result_regions(old(self)@, frame@.sections.1),
                ..old(self)@
            }),
    {
        let inner = bordered_inner(area);
        let sections = split_vertical(inner, 3, 0, 1);
        let (input_area, results_area, footer_area) = sections;
        let commands = all_commands();
        proof {
            assert(command_views(commands@) =~= registry());
        }
        assert forall|i: int| 0 <= i < self.matches@.len() implies (#[trigger] self.matches@[i]).cmd_index
            < commands@.len() by {
            assert(self@.matches[i] == self.matches@[i]@);
        }
        self.click_regions = Vec::new();
        self.viewport_height = results_area.height;
        let mut lines = input_section(self.query.as_str(), input_area);
        let ghost input_views = line_views(lines@);
        let mut body = if self.matches.len() == 0 {
            no_match_section(self.query.as_str(), results_area)
        } else {
            let (rows, regions) = self.result_rows(commands.as_slice(), results_area);
            self.click_regions = regions;
            rows
        };
        let ghost body_views = line_views(body@);
        lines.append(&mut body);
        let mut footer = footer_section(
            self.query.unicode_len() == 0,
            self.matches.len(),
            commands.len(),
            footer_area,
        );
        let ghost footer_views = line_views(footer@);
        lines.append(&mut footer);
        let title = styled(
            " Command Palette ",
            Style::new().fg(color_of(ColorRole::Title)).add_modifier(Modifier::bold()),
        );
        let frame = PaletteFrame {
            area,
            input_area,
            results_area,
            footer_area,
            border_style: Style::new().fg(color_of(ColorRole::Border)),
            title,
            lines,
        };
        proof {
            assert(line_views(frame.lines@) =~= input_views + body_views + footer_views);
            if self.matches@.len() == 0 {
                assert(self.click_regions@ =~= result_regions(old(self)@, results_area));
            }
        }
        frame
    }


    /// Shows the palette afresh: empty query, selection and scroll at the
    /// top, results re-filtered.
    pub fn reset(&mut self)
        ensures
            final(self)@ == refresh_spec(
                PaletteView { query: Seq::empty(), selected: 0, scroll_offset: 0, ..old(self)@ },
            ),
    {
        self.query = String::new();
        self.selected = 0;
        self.scroll_offset = 0;
        self.refresh_matches();
    }

    /// Selects result row `idx`.
    pub fn select(&mut self, idx: usize)
        ensures
            final(self)@ == (PaletteView { selected: idx, ..old(self)@ }),
    {
        self.selected = idx;
    }

    /// The command index of result `i`, when there is such a result.
    pub fn command_index_of(&self, i: usize) -> (r: Option<usize>)
        ensures
            r == (if i < self@.matches.len() { Some(self@.matches[i as int].cmd_index) } else { None }),
    {
        if i < self.matches.len() {
            Some(self.matches[i].cmd_index)
        } else {
            None
        }
    }

}

/// After a move in a non-empty list the selection points at a result and
/// lies in the scroll window: `scroll_offset <= selected <
/// scroll_offset + page_rows`.
pub proof fn lemma_move_keeps_selection_visible(s: PaletteView, delta: int)
    requires
        s.matches.len() > 0,
    ensures
        move_spec(s, delta).selected < s.matches.len(),
        move_spec(s, delta).scroll_offset <= move_spec(s, delta).selected,
        move_spec(s, delta).selected < move_spec(s, delta).scroll_offset + page_rows(s),
{
    let len = s.matches.len() as int;
    let w = wrapped_selection(s.selected, delta, s.matches.len());
    assert(0 <= w < len) by {
        vstd::arithmetic::div_mod::lemma_mod_bound((s.selected as isize) as int + delta, len);
    }
}

/// The query that a key command leaves, when it edits the query: Esc on a
/// non-empty query and Ctrl+U clear it, Backspace drops its last char,
/// Ctrl+W its last word, and a typed char is appended.
pub open spec fn edited_query(s: PaletteView, cmd: KeyCommand) -> Option<Seq<char>> {
    match cmd {
        KeyCommand::Escape => if s.query.len() == 0 { None } else { Some(Seq::empty()) },
        KeyCommand::ClearQuery => Some(Seq::empty()),
        KeyCommand::Backspace => Some(if s.query.len() == 0 { s.query } else { s.query.drop_last() }),
        KeyCommand::DeleteWord => Some(delete_last_word_spec(s.query)),
        KeyCommand::Insert(ch) => Some(s.query.push(ch)),
        _ => None,
    }
}

/// What the keys other than navigation do. A query edit answers Continue,
/// re-filters the registry by the new query and puts the selection and the
/// scroll window at the top. Ctrl+C, and Esc on an empty query, close and
/// change nothing; a key the palette does not know changes nothing and
/// answers Noop. Enter changes nothing and executes the command of the
/// selected result, or answers Noop when no result is selected.
pub proof fn lemma_key_effects(s: PaletteView, cmd: KeyCommand)
    ensures
        edited_query(s, cmd) matches Some(q) ==> step_spec(s, cmd) == (
            PaletteView { query: q, matches: filter_spec(registry(), q), selected: 0, scroll_offset: 0, ..s },
            PaletteAction::Continue,
        ),
        cmd is Close || (cmd is Escape && s.query.len() == 0) ==> step_spec(s, cmd) == (s, PaletteAction::Close),
        cmd is Ignore ==> step_spec(s, cmd) == (s, PaletteAction::Noop),
        cmd is Enter ==> step_spec(s, cmd) == (s, if s.selected < s.matches.len() {
            PaletteAction::Execute(s.matches[s.selected as int].cmd_index)
        } else {
            PaletteAction::Noop
        }),
{
}

/// The scroll window after clamping, when the selection points at a
/// result: it moves just enough to show the selection (to it when it is
/// above, so that it is the last row when it is below), and the selection
/// then lies in it. Nothing else changes.
pub proof fn lemma_clamp_window(s: PaletteView)
    requires
        s.selected < s.matches.len(),
    ensures
        clamp_spec(s) == (PaletteView {
            scroll_offset: (if s.selected < s.scroll_offset {
                s.selected as int
            } else if s.selected >= s.scroll_offset + page_rows(s) {
                s.selected + 1 - page_rows(s)
            } else {
                s.scroll_offset as int
            }) as usize,
            ..s
        }),
        clamp_spec(s).scroll_offset <= s.selected < clamp_spec(s).scroll_offset + page_rows(s),
{
}

/// The navigation keys (a row or a page up or down, Home, End) answer
/// Continue and leave the query and the results alone. In a non-empty list
/// a move lands on the selection moved by its delta, wrapping around both
/// ends; Home lands on the first result and End on the last; and the
/// selection then lies in the scroll window.
pub proof fn lemma_navigation_keeps_selection_visible(s: PaletteView, cmd: KeyCommand)
    requires
        0 < s.matches.len() <= usize::MAX,
        cmd is Down || cmd is Up || cmd is PageDown || cmd is PageUp || cmd is Home || cmd is End,
    ensures
        step_spec(s, cmd).1 == PaletteAction::Continue,
        step_spec(s, cmd).0.query == s.query,
        step_spec(s, cmd).0.matches == s.matches,
        cmd is Home ==> step_spec(s, cmd).0.selected == 0,
        cmd is End ==> step_spec(s, cmd).0.selected == s.matches.len() - 1,
        move_delta(s, cmd) matches Some(d) ==> step_spec(s, cmd).0.selected == wrapped_selection(
            s.selected,
            d,
            s.matches.len(),
        ),
        step_spec(s, cmd).0.selected < s.matches.len(),
        step_spec(s, cmd).0.scroll_offset <= step_spec(s, cmd).0.selected,
        step_spec(s, cmd).0.selected < step_spec(s, cmd).0.scroll_offset + page_rows(s),
{
    match cmd {
        KeyCommand::Down | KeyCommand::Up | KeyCommand::PageDown | KeyCommand::PageUp => {
            let d = move_delta(s, cmd)->0;
            lemma_move_keeps_selection_visible(s, d);
            vstd::arithmetic::div_mod::lemma_mod_bound((s.selected as isize) as int + d, s.matches.len() as int);
        },
        _ => {},
    }
}

/// Every move wraps around the list: in a non-empty list of `n` results,
/// moving the selection by `d` rows (one row, a page, or any other delta)
/// lands on a result, and on the one that differs from `selected + d` by a
/// multiple of `n`, i.e. the Euclidean remainder of `selected + d` by `n`.
/// The move keys move by one row (Down, Up) and by the page height
/// (PageDown, PageUp).
pub proof fn lemma_moves_wrap(s: PaletteView, d: int, cmd: KeyCommand)
    requires
        0 < s.matches.len() <= usize::MAX,
        s.selected <= isize::MAX,
    ensures
        move_spec(s, d).selected < s.matches.len(),
        (move_spec(s, d).selected - (s.selected + d)) % (s.matches.len() as int) == 0,
        ({
            let delta = match cmd {
                KeyCommand::Down => 1,
                KeyCommand::Up => -1,
                KeyCommand::PageDown => page_rows(s),
                KeyCommand::PageUp => -page_rows(s),
                _ => 0,
            };
            (cmd is Down || cmd is Up || cmd is PageDown || cmd is PageUp) ==> {
                &&& step_spec(s, cmd).0.selected < s.matches.len()
                &&& (step_spec(s, cmd).0.selected - (s.selected + delta)) % (s.matches.len() as int) == 0
            }
        }),
{
    let n = s.matches.len() as int;
    assert forall|e: int| #![trigger move_spec(s, e)]
        move_spec(s, e).selected < n && (move_spec(s, e).selected - (s.selected + e)) % n == 0 by {
        let v = s.selected + e;
        assert((s.selected as isize) as int == s.selected);
        let w = v % n;
        vstd::arithmetic::div_mod::lemma_fundamental_div_mod(v, n);
        vstd::arithmetic::div_mod::lemma_mod_bound(v, n);
        assert(w - v == (-(v / n)) * n) by (nonlinear_arith)
            requires
                v == n * (v / n) + w,
        ;
        vstd::arithmetic::div_mod::lemma_mod_multiples_basic(-(v / n), n);
        assert(move_spec(s, e).selected == w);
    }
}

/// Moving down one row and then up one row brings the selection back, in a
/// non-empty list whose selection points at a result.
pub proof fn lemma_down_then_up(s: PaletteView)
    requires
        s.matches.len() > 0,
        s.selected < s.matches.len(),
        s.matches.len() <= isize::MAX,
    ensures
        move_spec(move_spec(s, 1), -1).selected == s.selected,
{
    let len = s.matches.len() as int;
    let d = move_spec(s, 1);
    assert((s.selected as isize) as int == s.selected);
    lemma_move_keeps_selection_visible(s, 1);
    assert((d.selected as isize) as int == d.selected);
    if s.selected + 1 < len {
        vstd::arithmetic::div_mod::lemma_small_mod((s.selected + 1) as nat, len as nat);
        assert(d.selected == s.selected + 1);
        vstd::arithmetic::div_mod::lemma_small_mod(s.selected as nat, len as nat);
    } else {
        vstd::arithmetic::div_mod::lemma_mod_self_0(len);
        assert(d.selected == 0);
        vstd::arithmetic::div_mod::lemma_mod_add_multiples_vanish(-1, len);
        vstd::arithmetic::div_mod::lemma_small_mod((len - 1) as nat, len as nat);
    }
}

/// Every key keeps the selection pointing at a result when it did before,
/// and keeps it at most at the top when the list is empty.
pub proof fn lemma_step_keeps_selection(s: PaletteView, cmd: KeyCommand)
    requires
        s.selected < s.matches.len() || s.selected == 0,
    ensures
        ({
            let t = step_spec(s, cmd).0;
            t.selected < t.matches.len() || t.selected == 0
        }),
{
    if s.matches.len() > 0 {
        match cmd {
            KeyCommand::Down | KeyCommand::Up | KeyCommand::PageDown | KeyCommand::PageUp => {
                lemma_move_keeps_selection_visible(s, move_delta(s, cmd)->0);
            },
            _ => {},
        }
    }
}

impl Default for CommandPaletteState {
    /// A fresh palette (see [`CommandPaletteState::new`]).
    fn default() -> (s: Self)
        ensures
            s@ == (PaletteView {
                query: Seq::empty(),
                matches: filter_spec(registry(), Seq::empty()),
                selected: 0,
                scroll_offset: 0,
                viewport_height: 8,
                click_regions: Seq::empty(),
            }),
    {
        Self::new()
    }
}

} // verus!
