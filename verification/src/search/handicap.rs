//! How far play below full strength strays from the best line.
use crate::moves::Move;
use crate::search::entry::{picked_among, search_starts, weakly_answered, SearchTerms};
use crate::search::host::SearchHost;
use crate::search::limited::{
    asked_skill, chosen, picks, prng_after, pushed, scaled, skill_on_scale, weakness,
};
use crate::search::multipv::{best_first, lines_answered, lines_untimed, sound_lines};
use crate::search::steps::Point;
use crate::search::{PVLine, Searcher, MAX_PV_COUNT};
use vstd::arithmetic::div_mod::lemma_fundamental_div_mod_converse_div;
use vstd::prelude::*;

verus! {

/// The most that a choice at a level gives away.
pub open spec fn allowance(skill: int) -> int {
    100 * (120 - 2 * skill) / (8 + 2 * skill)
}

/// The three levels that can be asked for lie at 1, 11 and 20 on the scale; what lies
/// outside them is brought to the nearest, and no wish is full strength.
pub proof fn levels_on_the_scale()
    ensures
        skill_on_scale(1) == 1,
        skill_on_scale(2) == 11,
        skill_on_scale(3) == 20,
        asked_skill(None) == 3,
        forall|l: u32| #[trigger]
            asked_skill(Some(l)) == (if l == 0 {
                1u32
            } else if l >= 3 {
                3
            } else {
                l
            }),
{
}

/// The stronger the level, the less chance counts; it never outweighs what the scores
/// say.
pub proof fn chance_counts_less_at_higher_levels(a: int, b: int)
    requires
        1 <= a < b < 20,
    ensures
        weakness(b) < weakness(a) < 128,
        0 < weakness(b),
        weakness(a) - weakness(b) == 2 * (b - a),
        weakness(1) == 118,
        weakness(11) == 98,
        allowance(b) < allowance(a),
        allowance(1) == 1180,
        allowance(11) == 326,
        allowance(19) == 178,
    decreases b - a,
{
    lemma_allowances();
    if b > a + 1 {
        chance_counts_less_at_higher_levels(a + 1, b);
    }
    assert(a == 1 || a == 2 || a == 3 || a == 4 || a == 5 || a == 6 || a == 7 || a == 8 || a == 9
        || a == 10 || a == 11 || a == 12 || a == 13 || a == 14 || a == 15 || a == 16 || a == 17
        || a == 18);
    assert(allowance(a + 1) < allowance(a));
}

proof fn lemma_allowances()
    ensures
        allowance(1) == 1180,
        allowance(2) == 966,
        allowance(3) == 814,
        allowance(4) == 700,
        allowance(5) == 611,
        allowance(6) == 540,
        allowance(7) == 481,
        allowance(8) == 433,
        allowance(9) == 392,
        allowance(10) == 357,
        allowance(11) == 326,
        allowance(12) == 300,
        allowance(13) == 276,
        allowance(14) == 255,
        allowance(15) == 236,
        allowance(16) == 220,
        allowance(17) == 204,
        allowance(18) == 190,
        allowance(19) == 178,
{
    lemma_fundamental_div_mod_converse_div(11800, 10, 1180, 0);
    lemma_fundamental_div_mod_converse_div(11600, 12, 966, 8);
    lemma_fundamental_div_mod_converse_div(11400, 14, 814, 4);
    lemma_fundamental_div_mod_converse_div(11200, 16, 700, 0);
    lemma_fundamental_div_mod_converse_div(11000, 18, 611, 2);
    lemma_fundamental_div_mod_converse_div(10800, 20, 540, 0);
    lemma_fundamental_div_mod_converse_div(10600, 22, 481, 18);
    lemma_fundamental_div_mod_converse_div(10400, 24, 433, 8);
    lemma_fundamental_div_mod_converse_div(10200, 26, 392, 8);
    lemma_fundamental_div_mod_converse_div(10000, 28, 357, 4);
    lemma_fundamental_div_mod_converse_div(9800, 30, 326, 20);
    lemma_fundamental_div_mod_converse_div(9600, 32, 300, 0);
    lemma_fundamental_div_mod_converse_div(9400, 34, 276, 16);
    lemma_fundamental_div_mod_converse_div(9200, 36, 255, 20);
    lemma_fundamental_div_mod_converse_div(9000, 38, 236, 32);
    lemma_fundamental_div_mod_converse_div(8800, 40, 220, 0);
    lemma_fundamental_div_mod_converse_div(8600, 42, 204, 32);
    lemma_fundamental_div_mod_converse_div(8400, 44, 190, 40);
    lemma_fundamental_div_mod_converse_div(8200, 46, 178, 12);
}

/// What is chosen at a level is one of the lines, and gives away no more than the level
/// allows; the best line at full level, or where it is the only one.
pub proof fn choices_stay_within_their_level(
    lines: Seq<PVLine>,
    skill: int,
    draws: Seq<i32>,
    m: Move,
    score: i32,
)
    requires
        best_first(lines),
        skill >= 1,
        draws.len() >= lines.len(),
        skill < 20 ==> forall|i: int|
            0 <= i < lines.len() ==> 0 <= #[trigger] draws[i] <= 120 - 2 * skill,
        chosen(lines, skill, draws, Some((m, score))),
    ensures
        exists|k: int|
            0 <= k < lines.len() && (#[trigger] lines[k]).mv == m && lines[k].score == score,
        score <= lines[0].score,
        skill >= 20 || lines.len() == 1 ==> m == lines[0].mv && score == lines[0].score,
        skill < 20 ==> (8 + 2 * skill) * (lines[0].score - score) <= 100 * (120 - 2 * skill),
        skill < 20 ==> score >= lines[0].score - allowance(skill),
{
    let k = choose|k: int|
        0 <= k < lines.len() && m == (#[trigger] lines[k]).mv && score == lines[k].score
            && if lines.len() == 1 || skill >= 20 {
            k == 0
        } else {
            picks(lines, k, skill, draws)
        };
    let top = lines[0].score as int;
    let gap = top - score;
    let w = 120 - 2 * skill;
    if skill < 20 {
        let d = 8 + 2 * skill;
        if k > 0 {
            let delta = if top - lines.last().score < 100 {
                top - lines.last().score
            } else {
                100
            };
            assert(lines.last() == lines[lines.len() - 1]);
            assert(0 <= delta <= 100);
            assert(pushed(lines, 0, skill, draws) <= pushed(lines, k, skill, draws));
            let d0 = draws[0] as int;
            let dk = draws[k] as int;
            assert(0 <= delta * d0 && delta * dk <= 100 * w) by (nonlinear_arith)
                requires
                    0 <= delta <= 100,
                    0 <= d0,
                    0 <= dk <= w,
            ;
            assert(w * (top - top) == 0) by (nonlinear_arith);
            assert(pushed(lines, 0, skill, draws) >= top);
            let wg = w * gap;
            assert(pushed(lines, k, skill, draws) == score + (wg + delta * dk) / 128);
            assert(128 * gap <= wg + 100 * w);
            assert(d * gap == 128 * gap - w * gap) by (nonlinear_arith)
                requires
                    d == 128 - w,
            ;
        } else {
            assert(d * gap == 0) by (nonlinear_arith)
                requires
                    gap == 0,
            ;
        }
        assert(gap <= (100 * w) / d) by (nonlinear_arith)
            requires
                d * gap <= 100 * w,
                d > 0,
        ;
    }
}

/// The same at the levels that can be asked for: the lowest gives away up to 1180, the
/// middle one up to 326.
pub proof fn weak_answers_stay_within_their_level<H: SearchHost>(
    host: H,
    before: Option<Searcher>,
    terms: SearchTerms,
    max_depth: usize,
    skill: int,
    b: Point<H>,
    m: Move,
    score: i32,
)
    requires
        1 <= skill < 20,
        weakly_answered(host, before, terms, max_depth, skill, b, Some((m, score))),
    ensures
        exists|budgeted: H, lines: Seq<PVLine>, complete: bool, k: int|
            #![trigger sound_lines(budgeted, 4, complete, lines), lines[k]]
            {
                &&& sound_lines(budgeted, 4, complete, lines)
                &&& 0 <= k < lines.len()
                &&& lines[k].mv == m
                &&& lines[k].score == score
                &&& score >= lines[0].score - allowance(skill)
                &&& skill == 1 ==> score >= lines[0].score - 1180
                &&& skill == 11 ==> score >= lines[0].score - 326
            },
{
    reveal(weakly_answered);
    lemma_allowances();
    let (a, budgeted, e, lines, draws) = choose|
        a: Point<H>,
        budgeted: H,
        e: Point<H>,
        lines: Seq<PVLine>,
        draws: Seq<i32>,
    |
        #![trigger
            search_starts(host, before, terms, a),
            a.host.sets_budget(terms.opt_time_ms, &budgeted),
            picked_among(e, lines, skill, draws, b, Some((m, score)))
        ]
        search_starts(host, before, terms, a) && a.host.sets_budget(
            terms.opt_time_ms,
            &budgeted,
        ) && sound_lines(
            budgeted,
            MAX_PV_COUNT as int,
            lines_untimed::<H>(&a.searcher) && max_depth >= 1,
            lines,
        ) && picked_among(e, lines, skill, draws, b, Some((m, score)));
    let complete = lines_untimed::<H>(&a.searcher) && max_depth >= 1;
    assert(sound_lines(budgeted, 4, complete, lines));
    if lines.len() > 1 {
        assert forall|i: int| 0 <= i < lines.len() implies 0 <= #[trigger] draws[i] <= 120 - 2
            * skill by {
            assert(scaled(
                &e.host,
                prng_after(e.searcher.rng.state, (i + 1) as nat),
                weakness(skill) as i32,
                draws[i],
            ));
        }
        choices_stay_within_their_level(lines, skill, draws, m, score);
    }
    let k = choose|k: int|
        0 <= k < lines.len() && (#[trigger] lines[k]).mv == m && lines[k].score == score;
    assert(0 <= k < lines.len() && lines[k].mv == m && lines[k].score == score);
}

/// Of two lines within 100 of each other, the numbers drawn decide: the highest for the
/// one and none for the other picks the one.
pub proof fn chance_decides_between_near_lines(lines: Seq<PVLine>, skill: int, draws: Seq<i32>)
    requires
        lines.len() == 2,
        lines[1].score <= lines[0].score <= lines[1].score + 100,
        1 <= skill < 20,
        draws.len() == 2,
    ensures
        draws[0] == 0 && draws[1] == 120 - 2 * skill ==> forall|m: Move, score: i32| #[trigger]
            chosen(lines, skill, draws, Some((m, score))) ==> m == lines[1].mv && score
                == lines[1].score,
        draws[0] == 120 - 2 * skill && draws[1] == 0 && lines[0].score > lines[1].score + 1
            ==> forall|m: Move, score: i32| #[trigger]
            chosen(lines, skill, draws, Some((m, score))) ==> m == lines[0].mv && score
                == lines[0].score,
{
    let w = 120 - 2 * skill;
    let gap = lines[0].score - lines[1].score;
    assert(lines.last() == lines[1]);
    assert(w * (lines[0].score - lines[0].score) == 0) by (nonlinear_arith);
    let wg = w * gap;
    let a = pushed(lines, 0, skill, draws);
    let b = pushed(lines, 1, skill, draws);
    if draws[0] == 0 && draws[1] == w {
        let gw = gap * draws[1];
        assert(gap * draws[0] == 0) by (nonlinear_arith)
            requires
                draws[0] == 0,
        ;
        assert(wg == gw) by (nonlinear_arith)
            requires
                wg == w * gap,
                gw == gap * draws[1],
                draws[1] == w,
        ;
        assert(wg >= 82 * gap) by (nonlinear_arith)
            requires
                wg == w * gap,
                w >= 82,
                gap >= 0,
        ;
        assert(b == lines[1].score + (wg + gw) / 128);
        assert(b >= a);
    }
    if draws[0] == w && draws[1] == 0 && gap > 1 {
        let gw = gap * draws[0];
        assert(gap * draws[1] == 0) by (nonlinear_arith)
            requires
                draws[1] == 0,
        ;
        assert(wg == gw) by (nonlinear_arith)
            requires
                wg == w * gap,
                gw == gap * draws[0],
                draws[0] == w,
        ;
        assert(0 <= wg <= 118 * gap) by (nonlinear_arith)
            requires
                wg == w * gap,
                0 <= w <= 118,
                gap >= 0,
        ;
        assert(a == lines[0].score + gw / 128);
        assert(b == lines[1].score + wg / 128);
        assert(a > b);
    }
}

/// A higher number drawn for the line that is picked leaves it picked.
pub proof fn luck_does_not_hurt(
    lines: Seq<PVLine>,
    k: int,
    skill: int,
    draws: Seq<i32>,
    luckier: Seq<i32>,
)
    requires
        best_first(lines),
        1 <= skill < 20,
        draws.len() == lines.len(),
        luckier.len() == lines.len(),
        picks(lines, k, skill, draws),
        luckier[k] >= draws[k],
        forall|i: int| 0 <= i < lines.len() && i != k ==> #[trigger] luckier[i] == draws[i],
    ensures
        picks(lines, k, skill, luckier),
{
    let top = lines[0].score;
    let delta = if top - lines.last().score < 100 {
        top - lines.last().score
    } else {
        100
    };
    assert(lines.last() == lines[lines.len() - 1]);
    assert(delta * luckier[k] >= delta * draws[k]) by (nonlinear_arith)
        requires
            delta >= 0,
            luckier[k] >= draws[k],
    ;
    assert(pushed(lines, k, skill, luckier) >= pushed(lines, k, skill, draws));
    assert forall|i: int| 0 <= i < lines.len() && i != k implies #[trigger] pushed(
        lines,
        i,
        skill,
        luckier,
    ) == pushed(lines, i, skill, draws) by {
        assert(luckier[i] == draws[i]);
    }
}

/// A weak player looks no deeper than one ply beyond its level, and chooses among four
/// lines at most: at the lowest level among those of two plies.
pub proof fn weak_players_look_ahead_less<H: SearchHost>(
    host: H,
    before: Option<Searcher>,
    terms: SearchTerms,
    max_depth: usize,
    skill: int,
    b: Point<H>,
    answer: Option<(Move, i32)>,
)
    requires
        1 <= skill < 20,
        weakly_answered(host, before, terms, max_depth, skill, b, answer),
    ensures
        exists|from: Point<H>, depth: usize, e: Point<H>, lines: Seq<PVLine>|
            {
                &&& #[trigger] lines_answered(from, depth, 4, terms.silent, e, lines)
                &&& depth <= max_depth
                &&& depth <= skill + 1
                &&& depth == max_depth || depth == skill + 1
                &&& answer is None <==> lines.len() == 0
            },
{
    reveal(weakly_answered);
    reveal(lines_answered);
}

} // verus!
