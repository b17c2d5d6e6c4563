//! Playing below full strength: a line among the best ones is chosen by chance.
use crate::arith::{clamp, clamp_i32, min, min_i32};
use crate::moves::Move;
use crate::search::decisions::is_score;
use crate::search::handicap::choices_stay_within_their_level;
use crate::search::host::SearchHost;
use crate::search::multipv::best_first;
use crate::search::{prng_step, MultiPVResult, PVLine, Prng, INFINITY, MAX_SITE_SKILL};
use vstd::prelude::*;

verus! {

/// The level among 1 to [`MAX_SITE_SKILL`] that a player asked for; the highest
/// where they did not.
pub open spec fn asked_skill(level: Option<u32>) -> u32 {
    match level {
        Some(l) => if l < 1 {
            1
        } else if l > MAX_SITE_SKILL {
            MAX_SITE_SKILL
        } else {
            l
        },
        None => MAX_SITE_SKILL,
    }
}

pub fn clamp_skill(level: Option<u32>) -> (r: u32)
    ensures
        r == asked_skill(level),
        1 <= r <= MAX_SITE_SKILL,
{
    match level {
        Some(l) => if l < 1 {
            1
        } else if l > MAX_SITE_SKILL {
            MAX_SITE_SKILL
        } else {
            l
        },
        None => MAX_SITE_SKILL,
    }
}

/// A level on the scale from 1 to 20: the three levels are spread evenly over
/// it, and the half in the middle is rounded up.
pub open spec fn skill_on_scale(skill: int) -> int {
    (2 + 19 * (skill - 1) + 1) / 2
}

pub fn scaled_skill(skill: u32) -> (r: u32)
    requires
        1 <= skill <= MAX_SITE_SKILL,
    ensures
        r == skill_on_scale(skill as int),
        1 <= r <= 20,
        skill < MAX_SITE_SKILL ==> r < 20,
{
    (2 + 19 * (skill - 1) + 1) / 2
}

/// How much chance counts at a level.
pub open spec fn weakness(skill: int) -> int {
    120 - 2 * skill
}

/// A line's score with what chance adds to it: the more, the worse the line,
/// the weaker the level and the higher the number drawn.
pub open spec fn pushed(lines: Seq<PVLine>, i: int, skill: int, draws: Seq<i32>) -> int {
    let top = lines[0].score;
    let delta = min(top - lines.last().score, 100);
    lines[i].score + (weakness(skill) * (top - lines[i].score) + delta * draws[i]) / 128
}

/// Line `k` has the highest pushed score, and is the last one that has it.
pub open spec fn picks(lines: Seq<PVLine>, k: int, skill: int, draws: Seq<i32>) -> bool {
    &&& 0 <= k < lines.len()
    &&& forall|i: int|
        0 <= i < lines.len() ==> #[trigger] pushed(lines, i, skill, draws) <= pushed(
            lines,
            k,
            skill,
            draws,
        )
    &&& forall|i: int|
        k < i < lines.len() ==> #[trigger] pushed(lines, i, skill, draws) < pushed(
            lines,
            k,
            skill,
            draws,
        )
}

/// The draws leave exactly one line to pick.
pub proof fn pick_is_unique(lines: Seq<PVLine>, a: int, b: int, skill: int, draws: Seq<i32>)
    requires
        picks(lines, a, skill, draws),
        picks(lines, b, skill, draws),
    ensures
        a == b,
{
    if a < b {
        assert(pushed(lines, b, skill, draws) < pushed(lines, a, skill, draws));
    }
    if b < a {
        assert(pushed(lines, a, skill, draws) < pushed(lines, b, skill, draws));
    }
}

/// Each number drawn lies between zero and the weakness of the level.
pub open spec fn draws_ok(draws: Seq<i32>, len: nat, skill: int) -> bool {
    draws.len() >= len && forall|i: int|
        0 <= i < len ==> 0 <= #[trigger] draws[i] <= weakness(skill)
}

fn pushed_score(
    score: i32,
    top: i32,
    delta: i32,
    draw: i32,
    skill: u32,
) -> (r: i32)
    requires
        skill < 20,
        is_score(score as int),
        is_score(top as int),
        score <= top,
        0 <= delta <= 100,
        0 <= draw <= weakness(skill as int),
    ensures
        r == score + (weakness(skill as int) * (top - score) + delta * draw) / 128,
        r >= score,
{
    let w: i32 = 120 - 2 * skill as i32;
    let gap: i32 = top - score;
    assert(0 <= w * gap <= 240_000_000) by (nonlinear_arith)
        requires
            0 <= w <= 120,
            0 <= gap <= 2_000_000,
    ;
    assert(0 <= delta * draw <= 12_000) by (nonlinear_arith)
        requires
            0 <= delta <= 100,
            0 <= draw <= 120,
    ;
    score + (w * gap + delta * draw) / 128
}

/// What is chosen among lines: the best one at full level, or where there is
/// only one; else by the numbers drawn.
pub open spec fn chosen(
    lines: Seq<PVLine>,
    skill: int,
    draws: Seq<i32>,
    r: Option<(Move, i32)>,
) -> bool {
    match r {
        None => lines.len() == 0,
        Some((m, score)) => exists|k: int|
            0 <= k < lines.len() && m == (#[trigger] lines[k]).mv && score == lines[k].score
                && if lines.len() == 1 || skill >= 20 {
                k == 0
            } else {
                picks(lines, k, skill, draws)
            },
    }
}

/// Selects a line by the level and the numbers drawn.
pub fn pick_best(result: &MultiPVResult, skill_level: u32, draws: &Vec<i32>) -> (r: Option<
    (Move, i32),
>)
    requires
        best_first(result.lines@),
        forall|i: int|
            0 <= i < result.lines@.len() ==> is_score((#[trigger] result.lines@[i]).score as int),
        skill_level < 20 && result.lines@.len() > 1 ==> draws_ok(
            draws@,
            result.lines@.len(),
            skill_level as int,
        ),
    ensures
        chosen(result.lines@, skill_level as int, draws@, r),
        1 <= skill_level < 20 ==> match r {
            Some((_, score)) => {
                &&& score <= result.lines@[0].score
                &&& (8 + 2 * skill_level) * (result.lines@[0].score - score) <= 100 * (120 - 2
                    * skill_level)
            },
            None => true,
        },
{
    let lines = &result.lines;
    if lines.len() == 0 {
        return None;
    }
    if lines.len() == 1 || skill_level >= 20 {
        assert(lines@[0].mv == result.lines@[0].mv);
        assert((8 + 2 * skill_level) * (lines@[0].score - lines@[0].score) == 0)
            by (nonlinear_arith);
        return Some((lines[0].mv, lines[0].score));
    }
    let top: i32 = lines[0].score;
    let worst: i32 = lines[lines.len() - 1].score;
    assert(lines@.last().score == worst);
    let delta: i32 = min_i32(top - worst, 100);
    let mut max_score: i32 = -INFINITY;
    let mut chosen: usize = 0;
    let mut i: usize = 0;
    while i < lines.len()
        invariant
            i <= lines@.len(),
            lines@.len() > 1,
            best_first(lines@),
            skill_level < 20,
            top == lines@[0].score,
            delta == min(top - lines@.last().score, 100),
            forall|k: int|
                0 <= k < lines@.len() ==> is_score((#[trigger] lines@[k]).score as int),
            draws_ok(draws@, lines@.len(), skill_level as int),
            chosen < lines@.len(),
            i == 0 ==> max_score == -INFINITY,
            i > 0 ==> chosen < i && max_score == pushed(
                lines@,
                chosen as int,
                skill_level as int,
                draws@,
            ),
            forall|k: int|
                0 <= k < i ==> #[trigger] pushed(lines@, k, skill_level as int, draws@)
                    <= max_score,
            forall|k: int|
                chosen < k < i ==> #[trigger] pushed(lines@, k, skill_level as int, draws@)
                    < max_score,
        decreases lines@.len() - i,
    {
        let s: i32 = pushed_score(lines[i].score, top, delta, draws[i], skill_level);
        assert(s == pushed(lines@, i as int, skill_level as int, draws@));
        if s >= max_score {
            max_score = s;
            chosen = i;
        }
        i += 1;
    }
    assert(picks(lines@, chosen as int, skill_level as int, draws@));
    assert(lines@[chosen as int].mv == result.lines@[chosen as int].mv);
    proof {
        if skill_level >= 1 {
            choices_stay_within_their_level(
                lines@,
                skill_level as int,
                draws@,
                lines@[chosen as int].mv,
                lines@[chosen as int].score,
            );
        }
    }
    Some((lines[chosen].mv, lines[chosen].score))
}

/// A generator's state after a number of steps.
pub open spec fn prng_after(s: u64, steps: nat) -> u64
    decreases steps,
{
    if steps == 0 {
        s
    } else {
        prng_step(prng_after(s, (steps - 1) as nat))
    }
}

/// The number that the game makes of random bits, brought between zero and the
/// limit.
pub open spec fn scaled<H: SearchHost>(host: &H, bits: u64, limit: i32, r: i32) -> bool {
    exists|answer: i32| #[trigger]
        call_ensures(H::scale_draw, (host, bits, limit), answer) && r == clamp(
            answer as int,
            0,
            limit as int,
        )
}

/// Numbers that the game makes of the next random bits of a generator, and the
/// generator's state after that.
pub open spec fn drawn<H: SearchHost>(
    host: &H,
    state: u64,
    count: nat,
    skill: int,
    draws: Seq<i32>,
    after: u64,
) -> bool {
    &&& draws.len() == count
    &&& after == prng_after(state, count)
    &&& forall|k: int|
        0 <= k < count ==> scaled(
            host,
            prng_after(state, (k + 1) as nat),
            weakness(skill) as i32,
            #[trigger] draws[k],
        )
}

/// Draws one number for each line.
pub fn draw_numbers<H: SearchHost>(
    rng: &mut Prng,
    host: &H,
    count: usize,
    skill_level: u32,
) -> (r: Vec<i32>)
    requires
        skill_level <= 20,
    ensures
        draws_ok(r@, count as nat, skill_level as int),
        drawn(
            host,
            old(rng).state,
            count as nat,
            skill_level as int,
            r@,
            final(rng).state,
        ),
{
    let limit: i32 = 120 - 2 * skill_level as i32;
    let mut draws: Vec<i32> = Vec::new();
    let mut i: usize = 0;
    while i < count
        invariant
            i <= count,
            skill_level <= 20,
            limit == weakness(skill_level as int),
            draws@.len() == i,
            rng.state == prng_after(old(rng).state, i as nat),
            forall|k: int| 0 <= k < i ==> 0 <= #[trigger] draws@[k] <= limit,
            forall|k: int|
                0 <= k < i ==> scaled(
                    host,
                    prng_after(old(rng).state, (k + 1) as nat),
                    limit,
                    #[trigger] draws@[k],
                ),
        decreases count - i,
    {
        let bits: u64 = rng.next_u64();
        assert(bits == prng_after(old(rng).state, (i + 1) as nat));
        let draw: i32 = clamp_i32(host.scale_draw(bits, limit), 0, limit);
        assert(scaled(host, bits, limit, draw));
        draws.push(draw);
        i += 1;
    }
    draws
}

} // verus!
