//! The shelter of a king and the attack on it.
use crate::arith::{abs, abs_i64, clamp, clamp_i32, clamp_i64, min, min_i32, tdiv};
use crate::board::{Coordinate, PieceType, PlayerColor};
use crate::evaluation::features::{with_missing_ring, EvalFeatures};
use crate::evaluation::pawns::{has_pawn_on_file, on_file, pawn_list};
use crate::evaluation::pieces::king_in_range;
use crate::evaluation::tracing::{traced, EvaluationTracer};
use crate::evaluation::values::{in_range, is_phase, taper, tapered, MAX_PIECES};
use crate::game::GameState;
use vstd::prelude::*;

verus! {

pub const MG_KING_RING_MISSING_PENALTY: i32 = 45;

pub const EG_KING_RING_MISSING_PENALTY: i32 = 20;

pub const MG_KING_PAWN_SHIELD_BONUS: i32 = 18;

pub const EG_KING_PAWN_SHIELD_BONUS: i32 = 5;

pub const MG_KING_PAWN_AHEAD_PENALTY: i32 = 20;

pub const EG_KING_PAWN_AHEAD_PENALTY: i32 = 5;

pub const MG_KING_OPEN_FILE_PENALTY: i32 = 25;

pub const EG_KING_OPEN_FILE_PENALTY: i32 = 10;

pub const BASE_DIAG_RAY_PENALTY: i32 = 30;

pub const BASE_ORTHO_RAY_PENALTY: i32 = 35;

pub const ATTACK_BONUS_PER_OPEN_RAY: i32 = 10;

/// Slider counts and urgencies lie below this.
pub const METRIC_LIMIT: i32 = 1_000_000;

/// The nearest piece on a ray from a king: its distance as a 32-bit number,
/// its value, its color and its kind. Rays 0 to 3 are the diagonals, rays 4 to
/// 7 the ranks and files.
pub type KingRay = (i32, i32, PlayerColor, PieceType);

/// The rays whose nearest piece is farther than `limit`, among the four from
/// `first` on.
pub open spec fn open_rays(rays: Seq<KingRay>, first: int, limit: int) -> int {
    (if rays[first].0 > limit {
        1int
    } else {
        0
    }) + (if rays[first + 1].0 > limit {
        1int
    } else {
        0
    }) + (if rays[first + 2].0 > limit {
        1int
    } else {
        0
    }) + (if rays[first + 3].0 > limit {
        1int
    } else {
        0
    })
}

fn count_open_rays(rays: &[KingRay; 8], first: usize, limit: i32) -> (r: i32)
    requires
        first <= 4,
    ensures
        r == open_rays(rays@, first as int, limit as int),
        0 <= r <= 4,
{
    let mut n: i32 = 0;
    if rays[first].0 > limit {
        n += 1;
    }
    if rays[first + 1].0 > limit {
        n += 1;
    }
    if rays[first + 2].0 > limit {
        n += 1;
    }
    if rays[first + 3].0 > limit {
        n += 1;
    }
    n
}

/// How ready an attack is, in percent: it needs open rays to the enemy king
/// and sliders near it.
pub open spec fn attack_readiness(
    rays: Seq<KingRay>,
    has_enemy_king: bool,
    sliders_in_zone: int,
) -> int {
    let open = open_rays(rays, 0, 6) + open_rays(rays, 4, 6);
    if !has_enemy_king {
        50
    } else if open <= 2 {
        40
    } else if sliders_in_zone >= 2 {
        100
    } else if sliders_in_zone == 1 && open >= 5 {
        85
    } else if sliders_in_zone == 1 {
        55
    } else {
        30
    }
}

pub fn compute_attack_readiness_optimized(
    enemy_king_rays: &[KingRay; 8],
    has_enemy_king: bool,
    sliders_in_zone: i32,
) -> (r: i32)
    ensures
        r == attack_readiness(enemy_king_rays@, has_enemy_king, sliders_in_zone as int),
        30 <= r <= 100,
{
    if !has_enemy_king {
        return 50;
    }
    let total_open_rays: i32 = count_open_rays(enemy_king_rays, 0, 6) + count_open_rays(
        enemy_king_rays,
        4,
        6,
    );
    if total_open_rays <= 2 {
        return 40;
    }
    if sliders_in_zone >= 2 {
        100
    } else if sliders_in_zone == 1 && total_open_rays >= 5 {
        85
    } else if sliders_in_zone == 1 {
        55
    } else {
        30
    }
}

/// The bonus for `count` sliders against `open` open rays.
pub open spec fn ray_attack_bonus(open: int, count: int) -> int {
    if count > 0 {
        tdiv(open * ATTACK_BONUS_PER_OPEN_RAY * (100 + (count - 1) * 15), 100)
    } else {
        0
    }
}

pub open spec fn attack_bonus(rays: Seq<KingRay>, slider_counts: (i32, i32)) -> int {
    ray_attack_bonus(open_rays(rays, 0, 5), slider_counts.0 as int) + ray_attack_bonus(
        open_rays(rays, 4, 5),
        slider_counts.1 as int,
    )
}

fn ray_attack_bonus_of(open: i32, count: i32) -> (r: i32)
    requires
        0 <= open <= 4,
        count <= METRIC_LIMIT,
    ensures
        r == ray_attack_bonus(open as int, count as int),
        0 <= r <= 6_100_000,
        count <= MAX_PIECES ==> r <= 400_000,
{
    if count > 0 {
        let mult: i32 = 100 + (count - 1) * 15;
        let weight: i32 = open * ATTACK_BONUS_PER_OPEN_RAY;
        assert(0 <= weight * mult <= 40 * mult) by (nonlinear_arith)
            requires
                0 <= weight <= 40,
                0 <= mult,
        ;
        weight * mult / 100
    } else {
        0
    }
}

/// The bonus for sliders (on diagonals, on ranks and files) that face open
/// rays to the enemy king.
pub fn compute_attack_bonus_optimized(
    enemy_king_rays: &[KingRay; 8],
    slider_counts: (i32, i32),
) -> (r: i32)
    requires
        slider_counts.0 <= METRIC_LIMIT,
        slider_counts.1 <= METRIC_LIMIT,
    ensures
        r == attack_bonus(enemy_king_rays@, slider_counts),
        0 <= r <= 12_200_000,
        slider_counts.0 <= MAX_PIECES && slider_counts.1 <= MAX_PIECES ==> r <= 800_000,
{
    let diag: i32 = ray_attack_bonus_of(count_open_rays(enemy_king_rays, 0, 5), slider_counts.0);
    let ortho: i32 = ray_attack_bonus_of(count_open_rays(enemy_king_rays, 4, 5), slider_counts.1);
    diag + ortho
}

/// The direction of a ray.
pub open spec fn ray_direction(i: int) -> (int, int) {
    if i == 0 {
        (1, 1)
    } else if i == 1 {
        (1, -1)
    } else if i == 2 {
        (-1, 1)
    } else if i == 3 {
        (-1, -1)
    } else if i == 4 {
        (1, 0)
    } else if i == 5 {
        (-1, 0)
    } else if i == 6 {
        (0, 1)
    } else {
        (0, -1)
    }
}

/// The distance to the first square off the board along a direction, up to
/// 100. `bounds` holds least and greatest `x`, then `y`.
pub open spec fn border_distance(
    bounds: (i64, i64, i64, i64),
    king: Coordinate,
    dx: int,
    dy: int,
) -> int {
    let horizontal = if dx > 0 {
        bounds.1 - king.x + 1
    } else if dx < 0 {
        king.x - bounds.0 + 1
    } else {
        100
    };
    let vertical = if dy > 0 {
        bounds.3 - king.y + 1
    } else if dy < 0 {
        king.y - bounds.2 + 1
    } else {
        100
    };
    clamp(min(horizontal, vertical), 0, 100)
}

/// The number of steps from `from` to just past `edge`, brought into 0 to 100.
fn steps_past(edge: i64, from: i64, rising: bool) -> (r: i32)
    ensures
        r == clamp(
            if rising {
                edge - from + 1
            } else {
                from - edge + 1
            },
            0,
            100,
        ),
{
    let gap: i128 = if rising {
        edge as i128 - from as i128 + 1
    } else {
        from as i128 - edge as i128 + 1
    };
    if gap < 0 {
        0
    } else if gap > 100 {
        100
    } else {
        gap as i32
    }
}

fn get_border_dist(bounds: (i64, i64, i64, i64), king: &Coordinate, ray: usize) -> (r: i32)
    requires
        ray < 8,
    ensures
        r == border_distance(
            bounds,
            *king,
            ray_direction(ray as int).0,
            ray_direction(ray as int).1,
        ),
{
    let right: i32 = steps_past(bounds.1, king.x, true);
    let left: i32 = steps_past(bounds.0, king.x, false);
    let up: i32 = steps_past(bounds.3, king.y, true);
    let down: i32 = steps_past(bounds.2, king.y, false);
    match ray {
        0 => min_i32(right, up),
        1 => min_i32(right, down),
        2 => min_i32(left, up),
        3 => min_i32(left, down),
        4 => right,
        5 => left,
        6 => up,
        _ => down,
    }
}

/// By how many percent a blocker of value `v` at distance `d` shields: cheap
/// and near ones best.
pub open spec fn blocker_reduction(v: int, d: int) -> int {
    tdiv(clamp(90 - tdiv(v, 10), 0, 80) * clamp(125 - d * 25, 30, 100), 100)
}

fn blocker_reduction_pct(v: i32, d: i32) -> (r: i32)
    ensures
        r == blocker_reduction(v as int, d as int),
        0 <= r <= 80,
{
    let val_pct: i32 = clamp_i32(90 - v / 10, 0, 80);
    let dist_mult: i32 = clamp_i64(125 - d as i64 * 25, 30, 100) as i32;
    assert(0 <= val_pct * dist_mult <= 8000) by (nonlinear_arith)
        requires
            0 <= val_pct <= 80,
            30 <= dist_mult <= 100,
    ;
    val_pct * dist_mult / 100
}

/// What stops a ray within eight squares.
pub enum RayStop {
    /// Nothing does.
    Open,
    /// A friendly or neutral piece, or the edge, with its value and distance.
    Blocked(i32, i32),
    /// An enemy piece.
    Enemy,
}

/// The edge and a void shield like a cheap piece next to the king.
pub open spec fn ray_stop(ray: KingRay, border: int, color: PlayerColor) -> RayStop {
    let at_border = border < ray.0;
    if (if at_border {
        border
    } else {
        ray.0 as int
    }) > 8 {
        RayStop::Open
    } else if at_border {
        RayStop::Blocked(0, 1)
    } else if ray.2 == color {
        RayStop::Blocked(ray.1, ray.0)
    } else if ray.2 is Neutral {
        if ray.3 is Void {
            RayStop::Blocked(0, 1)
        } else {
            RayStop::Blocked(0, ray.0)
        }
    } else {
        RayStop::Enemy
    }
}

fn find_ray_stop(ray: KingRay, border: i32, color: PlayerColor) -> (r: RayStop)
    ensures
        r == ray_stop(ray, border as int, color),
{
    let (dist, val, c, pt) = ray;
    let is_border_closest = border < dist;
    let actual_dist: i32 = if is_border_closest {
        border
    } else {
        dist
    };
    if actual_dist > 8 {
        RayStop::Open
    } else if is_border_closest {
        RayStop::Blocked(0, 1)
    } else if c == color {
        RayStop::Blocked(val, dist)
    } else if c == PlayerColor::Neutral {
        if pt == PieceType::Void {
            RayStop::Blocked(0, 1)
        } else {
            RayStop::Blocked(0, dist)
        }
    } else {
        RayStop::Enemy
    }
}

/// The penalty of a ray after what stops it is taken off.
pub open spec fn ray_penalty(base: int, stop: RayStop) -> int {
    match stop {
        RayStop::Open => base,
        RayStop::Blocked(v, d) => tdiv(base * (100 - blocker_reduction(v as int, d as int)), 100),
        RayStop::Enemy => tdiv(base * 60, 100),
    }
}

fn ray_penalty_of(base: i32, stop: &RayStop) -> (r: i32)
    requires
        0 <= base <= 100,
    ensures
        r == ray_penalty(base as int, *stop),
        0 <= r <= base,
{
    match stop {
        RayStop::Open => base,
        RayStop::Blocked(v, d) => {
            let kept: i32 = 100 - blocker_reduction_pct(*v, *d);
            assert(0 <= base * kept <= base * 100) by (nonlinear_arith)
                requires
                    0 <= base,
                    0 <= kept <= 100,
            ;
            base * kept / 100
        },
        RayStop::Enemy => base * 60 / 100,
    }
}

/// The penalty of ray `i`, and a tie for an expensive friendly piece on it
/// that must stay where it is.
pub open spec fn ray_danger(
    ray: KingRay,
    i: int,
    bounds: (i64, i64, i64, i64),
    king: Coordinate,
    color: PlayerColor,
) -> int {
    let (dx, dy) = ray_direction(i);
    let border = border_distance(bounds, king, dx, dy);
    let base = if i < 4 {
        BASE_DIAG_RAY_PENALTY
    } else {
        BASE_ORTHO_RAY_PENALTY
    };
    let tied = ray.2 == color && border >= ray.0 && ray.0 <= 8 && ray.1 >= 600;
    ray_penalty(base as int, ray_stop(ray, border, color)) + (if tied {
        if i < 4 {
            10int
        } else {
            12
        }
    } else {
        0
    })
}

/// The danger along the first `n` rays.
pub open spec fn rays_danger(
    rays: Seq<KingRay>,
    n: nat,
    bounds: (i64, i64, i64, i64),
    king: Coordinate,
    color: PlayerColor,
) -> int
    decreases n,
{
    if n == 0 {
        0
    } else {
        rays_danger(rays, (n - 1) as nat, bounds, king, color) + ray_danger(
            rays[n - 1],
            n - 1,
            bounds,
            king,
            color,
        )
    }
}

/// Danger grows faster than the sum of the rays, with the urgency of the
/// defense, up to 400.
pub open spec fn danger_penalty(danger: int, enemy_queen: bool, urgency: int) -> int {
    let d = if enemy_queen {
        danger
    } else {
        tdiv(danger * 70, 100)
    };
    min(tdiv((d + tdiv(d * d, 800)) * urgency, 100), 400)
}

/// Whether one of the pawns within two files of a king is in front of it (or
/// behind it).
pub open spec fn pawn_near_king(
    pawns: Seq<(i64, i64)>,
    king: Coordinate,
    above: bool,
) -> bool {
    exists|i: int|
        0 <= i < pawns.len() && abs((#[trigger] pawns[i]).0 - king.x) <= 2 && (if above {
            pawns[i].1 > king.y
        } else {
            pawns[i].1 < king.y
        })
}

/// The score of the pawns around a king, and of an open file under attack.
pub open spec fn shield_score(
    pawns: Seq<(i64, i64)>,
    king: Coordinate,
    white: bool,
    ortho_attackers: int,
    phase: int,
) -> int {
    let ahead = pawn_near_king(pawns, king, white);
    let behind = pawn_near_king(pawns, king, !white);
    (if ahead && !behind {
        tapered(MG_KING_PAWN_SHIELD_BONUS as int, EG_KING_PAWN_SHIELD_BONUS as int, phase)
    } else if !ahead && behind {
        -tapered(MG_KING_PAWN_AHEAD_PENALTY as int, EG_KING_PAWN_AHEAD_PENALTY as int, phase)
    } else {
        0
    }) - (if !on_file(pawns, king.x as int) && ortho_attackers > 0 {
        tapered(MG_KING_OPEN_FILE_PENALTY as int, EG_KING_OPEN_FILE_PENALTY as int, phase)
    } else {
        0
    })
}

/// The shelter of a king: cover next to it, pawns around it, and the danger
/// along its rays where the defense is urgent.
pub open spec fn shelter_score(
    bounds: (i64, i64, i64, i64),
    king: Coordinate,
    color: PlayerColor,
    phase: int,
    urgency: int,
    enemy_queen: bool,
    ortho_attackers: int,
    pawns: Seq<(i64, i64)>,
    rays: Seq<KingRay>,
    ring_covered: bool,
) -> int {
    (if ring_covered {
        0
    } else {
        -tapered(
            MG_KING_RING_MISSING_PENALTY as int,
            EG_KING_RING_MISSING_PENALTY as int,
            phase,
        )
    }) + shield_score(pawns, king, color is White, ortho_attackers, phase) - (if urgency <= 10 {
        0
    } else {
        danger_penalty(rays_danger(rays, 8, bounds, king, color), enemy_queen, urgency)
    })
}

/// Which pawns within two files of a king stand above it, and which below.
fn pawns_near_king(pawns: &[(i64, i64)], king: &Coordinate) -> (r: (bool, bool))
    requires
        pawn_list(pawns@),
        in_range(king.x as int, king.y as int),
    ensures
        r.0 == pawn_near_king(pawns@, *king, true),
        r.1 == pawn_near_king(pawns@, *king, false),
{
    let mut above = false;
    let mut below = false;
    let mut i: usize = 0;
    while i < pawns.len()
        invariant
            i <= pawns@.len(),
            pawn_list(pawns@),
            in_range(king.x as int, king.y as int),
            above == exists|k: int|
                0 <= k < i && abs((#[trigger] pawns@[k]).0 - king.x) <= 2 && pawns@[k].1 > king.y,
            below == exists|k: int|
                0 <= k < i && abs((#[trigger] pawns@[k]).0 - king.x) <= 2 && pawns@[k].1 < king.y,
        decreases pawns@.len() - i,
    {
        let (px, py) = pawns[i];
        assert(pawns@[i as int] == (px, py));
        if abs_i64(px - king.x) <= 2 {
            if py > king.y {
                above = true;
            } else if py < king.y {
                below = true;
            }
        }
        i += 1;
    }
    (above, below)
}

/// The danger along all rays from a king.
fn sum_ray_danger(
    game: &GameState,
    king: &Coordinate,
    color: PlayerColor,
    king_rays: &[KingRay; 8],
) -> (r: i32)
    ensures
        r == rays_danger(king_rays@, 8, game.bounds, *king, color),
        0 <= r <= 376,
{
    let mut danger: i32 = 0;
    let mut i: usize = 0;
    while i < 8
        invariant
            i <= 8,
            danger == rays_danger(king_rays@, i as nat, game.bounds, *king, color),
            0 <= danger <= 47 * i,
        decreases 8 - i,
    {
        let ray = king_rays[i];
        let border: i32 = get_border_dist(game.bounds, king, i);
        let stop = find_ray_stop(ray, border, color);
        let base: i32 = if i < 4 {
            BASE_DIAG_RAY_PENALTY
        } else {
            BASE_ORTHO_RAY_PENALTY
        };
        danger += ray_penalty_of(base, &stop);
        if border >= ray.0 && ray.0 <= 8 && ray.2 == color && ray.1 >= 600 {
            danger += if i < 4 {
                10
            } else {
                12
            };
        }
        i += 1;
    }
    danger
}

fn danger_penalty_of(danger: i32, enemy_queen: bool, urgency: i32) -> (r: i32)
    requires
        0 <= danger <= 376,
        0 <= urgency <= METRIC_LIMIT,
    ensures
        r == danger_penalty(danger as int, enemy_queen, urgency as int),
        0 <= r <= 400,
{
    let d: i32 = if enemy_queen {
        danger
    } else {
        danger * 70 / 100
    };
    assert(0 <= d * d <= 376 * 376) by (nonlinear_arith)
        requires
            0 <= d <= 376,
    ;
    let amplified: i32 = d + (d * d / 800);
    assert(0 <= amplified * urgency <= 600 * urgency) by (nonlinear_arith)
        requires
            0 <= amplified <= 600,
            0 <= urgency,
    ;
    min_i32(amplified * urgency / 100, 400)
}

/// The shelter of a king, with what is missing of it noted.
pub fn evaluate_king_shelter(
    game: &GameState,
    king: &Coordinate,
    color: PlayerColor,
    phase: i32,
    defense_urgency: i32,
    has_enemy_queen_possible: bool,
    orthogonal_attackers_count: i32,
    pawns: &[(i64, i64)],
    king_rays: &[KingRay; 8],
    has_ring_cover: bool,
    features: &mut EvalFeatures,
) -> (r: i32)
    requires
        in_range(king.x as int, king.y as int),
        is_phase(phase as int),
        defense_urgency <= METRIC_LIMIT,
        pawn_list(pawns@),
    ensures
        r == shelter_score(
            game.bounds,
            *king,
            color,
            phase as int,
            defense_urgency as int,
            has_enemy_queen_possible,
            orthogonal_attackers_count as int,
            pawns@,
            king_rays@,
            has_ring_cover,
        ),
        *final(features) == (if has_ring_cover {
            *old(features)
        } else {
            with_missing_ring(*old(features))
        }),
        -490 <= r <= 18,
{
    let mut safety: i32 = 0;
    if !has_ring_cover {
        safety -= taper(MG_KING_RING_MISSING_PENALTY, EG_KING_RING_MISSING_PENALTY, phase);
        features.bump_missing_ring();
    }
    let (above, below) = pawns_near_king(pawns, king);
    let white = color == PlayerColor::White;
    let has_pawn_ahead = if white {
        above
    } else {
        below
    };
    let has_pawn_behind = if white {
        below
    } else {
        above
    };
    if orthogonal_attackers_count > 0 && !has_pawn_on_file(pawns, king.x) {
        safety -= taper(MG_KING_OPEN_FILE_PENALTY, EG_KING_OPEN_FILE_PENALTY, phase);
    }
    if has_pawn_ahead && !has_pawn_behind {
        safety += taper(MG_KING_PAWN_SHIELD_BONUS, EG_KING_PAWN_SHIELD_BONUS, phase);
    } else if !has_pawn_ahead && has_pawn_behind {
        safety -= taper(MG_KING_PAWN_AHEAD_PENALTY, EG_KING_PAWN_AHEAD_PENALTY, phase);
    }
    assert(-90 <= safety <= 18);
    if defense_urgency <= 10 {
        return safety;
    }
    let danger: i32 = sum_ray_danger(game, king, color, king_rays);
    safety -= danger_penalty_of(danger, has_enemy_queen_possible, defense_urgency);
    safety
}

/// What the first pass over the pieces found out about attacks.
pub struct KingSafetyMetrics {
    /// White's sliders on diagonals, and on ranks and files.
    pub white_slider_counts: (i32, i32),
    pub black_slider_counts: (i32, i32),
    /// How urgent White's and Black's defense is.
    pub urgency: (i32, i32),
    /// Whether White and Black face a queen.
    pub has_enemy_queen: (bool, bool),
}

impl KingSafetyMetrics {
    pub open spec fn wf(self) -> bool {
        &&& self.white_slider_counts.0 <= METRIC_LIMIT
        &&& self.white_slider_counts.1 <= METRIC_LIMIT
        &&& self.black_slider_counts.0 <= METRIC_LIMIT
        &&& self.black_slider_counts.1 <= METRIC_LIMIT
        &&& self.urgency.0 <= METRIC_LIMIT
        &&& self.urgency.1 <= METRIC_LIMIT
    }
}

/// The shelter and the attack of one side, where `color` is White or Black.
pub open spec fn side_safety(
    bounds: (i64, i64, i64, i64),
    king: Option<Coordinate>,
    color: PlayerColor,
    phase: int,
    metrics: KingSafetyMetrics,
    pawns: Seq<(i64, i64)>,
    rays: Seq<KingRay>,
    ring_covered: bool,
) -> int {
    match king {
        Some(k) => if color is White {
            shelter_score(
                bounds,
                k,
                color,
                phase,
                metrics.urgency.0 as int,
                metrics.has_enemy_queen.0,
                metrics.white_slider_counts.1 as int,
                pawns,
                rays,
                ring_covered,
            )
        } else {
            shelter_score(
                bounds,
                k,
                color,
                phase,
                metrics.urgency.1 as int,
                metrics.has_enemy_queen.1,
                metrics.black_slider_counts.1 as int,
                pawns,
                rays,
                ring_covered,
            )
        },
        None => 0,
    }
}

/// The attack of `slider_counts` against the king on `rays`, where there is one.
pub open spec fn side_attack(
    enemy_king: Option<Coordinate>,
    rays: Seq<KingRay>,
    slider_counts: (i32, i32),
) -> int {
    if enemy_king is Some {
        attack_bonus(rays, slider_counts)
    } else {
        0
    }
}

/// The feature counters after the kings were looked at.
pub open spec fn king_features(
    f: EvalFeatures,
    white_king: Option<Coordinate>,
    black_king: Option<Coordinate>,
    w_ring_covered: bool,
    b_ring_covered: bool,
) -> EvalFeatures {
    let f1 = if white_king is Some && !w_ring_covered {
        with_missing_ring(f)
    } else {
        f
    };
    if black_king is Some && !b_ring_covered {
        with_missing_ring(f1)
    } else {
        f1
    }
}

/// The shelter of both kings and the attacks on them, White's minus Black's.
pub fn evaluate_king_safety_traced<T: EvaluationTracer>(
    game: &GameState,
    white_king: &Option<Coordinate>,
    black_king: &Option<Coordinate>,
    phase: i32,
    tracer: &mut T,
    metrics: &KingSafetyMetrics,
    white_pawns: &[(i64, i64)],
    black_pawns: &[(i64, i64)],
    w_king_rays: &[KingRay; 8],
    b_king_rays: &[KingRay; 8],
    w_ring_covered: bool,
    b_ring_covered: bool,
    features: &mut EvalFeatures,
) -> (r: i32)
    requires
        king_in_range(*white_king),
        king_in_range(*black_king),
        is_phase(phase as int),
        metrics.wf(),
        pawn_list(white_pawns@),
        pawn_list(black_pawns@),
    ensures
        ({
            let w_safety = side_safety(
                game.bounds,
                *white_king,
                PlayerColor::White,
                phase as int,
                *metrics,
                white_pawns@,
                w_king_rays@,
                w_ring_covered,
            );
            let b_safety = side_safety(
                game.bounds,
                *black_king,
                PlayerColor::Black,
                phase as int,
                *metrics,
                black_pawns@,
                b_king_rays@,
                b_ring_covered,
            );
            let w_attack = side_attack(*black_king, b_king_rays@, metrics.white_slider_counts);
            let b_attack = side_attack(*white_king, w_king_rays@, metrics.black_slider_counts);
            &&& r == (w_safety + w_attack) - (b_safety + b_attack)
            &&& final(tracer).recorded() == traced(
                old(tracer).recorded(),
                old(tracer).active(),
                seq![
                    ("King: Shelter"@, w_safety, b_safety),
                    ("King: Attack"@, w_attack, b_attack),
                ],
            )
        }),
        final(tracer).active() == old(tracer).active(),
        *final(features) == king_features(
            *old(features),
            *white_king,
            *black_king,
            w_ring_covered,
            b_ring_covered,
        ),
        metrics.white_slider_counts.0 <= MAX_PIECES && metrics.white_slider_counts.1 <= MAX_PIECES
            && metrics.black_slider_counts.0 <= MAX_PIECES && metrics.black_slider_counts.1
            <= MAX_PIECES ==> -1_000_000 <= r <= 1_000_000,
{
    let mut w_safety: i32 = 0;
    let mut b_safety: i32 = 0;
    let mut w_attack: i32 = 0;
    let mut b_attack: i32 = 0;
    if let Some(wk) = white_king {
        w_safety +=
        evaluate_king_shelter(
            game,
            wk,
            PlayerColor::White,
            phase,
            metrics.urgency.0,
            metrics.has_enemy_queen.0,
            metrics.white_slider_counts.1,
            white_pawns,
            w_king_rays,
            w_ring_covered,
            features,
        );
    }
    if let Some(bk) = black_king {
        b_safety +=
        evaluate_king_shelter(
            game,
            bk,
            PlayerColor::Black,
            phase,
            metrics.urgency.1,
            metrics.has_enemy_queen.1,
            metrics.black_slider_counts.1,
            black_pawns,
            b_king_rays,
            b_ring_covered,
            features,
        );
    }
    if black_king.is_some() {
        w_attack += compute_attack_bonus_optimized(b_king_rays, metrics.white_slider_counts);
    }
    if white_king.is_some() {
        b_attack += compute_attack_bonus_optimized(w_king_rays, metrics.black_slider_counts);
    }
    tracer.record("King: Shelter", w_safety, b_safety);
    tracer.record("King: Attack", w_attack, b_attack);
    assert(tracer.recorded() =~= traced(
        old(tracer).recorded(),
        old(tracer).active(),
        seq![
            ("King: Shelter"@, w_safety as int, b_safety as int),
            ("King: Attack"@, w_attack as int, b_attack as int),
        ],
    ));
    (w_safety + w_attack) - (b_safety + b_attack)
}

proof fn lemma_ray_danger(
    ray: KingRay,
    i: int,
    bounds: (i64, i64, i64, i64),
    king: Coordinate,
    color: PlayerColor,
)
    ensures
        0 <= ray_danger(ray, i, bounds, king, color) <= 47,
{
    let (dx, dy) = ray_direction(i);
    let border = border_distance(bounds, king, dx, dy);
    let base: int = if i < 4 {
        BASE_DIAG_RAY_PENALTY as int
    } else {
        BASE_ORTHO_RAY_PENALTY as int
    };
    match ray_stop(ray, border, color) {
        RayStop::Blocked(v, d) => {
            let val_pct = clamp(90 - tdiv(v as int, 10), 0, 80);
            let dist_mult = clamp(125 - d * 25, 30, 100);
            assert(0 <= val_pct * dist_mult <= 8000) by (nonlinear_arith)
                requires
                    0 <= val_pct <= 80,
                    30 <= dist_mult <= 100,
            ;
            let kept = 100 - blocker_reduction(v as int, d as int);
            assert(0 <= kept <= 100);
            assert(0 <= base * kept <= base * 100) by (nonlinear_arith)
                requires
                    0 <= base,
                    0 <= kept <= 100,
            ;
        },
        _ => {},
    }
}

proof fn lemma_rays_danger(
    rays: Seq<KingRay>,
    n: nat,
    bounds: (i64, i64, i64, i64),
    king: Coordinate,
    color: PlayerColor,
)
    ensures
        0 <= rays_danger(rays, n, bounds, king, color) <= 47 * n,
    decreases n,
{
    if n > 0 {
        lemma_rays_danger(rays, (n - 1) as nat, bounds, king, color);
        lemma_ray_danger(rays[n - 1], n - 1, bounds, king, color);
    }
}

/// The shelter of a king costs at most 490 and brings at most 18.
pub proof fn shelter_is_bounded(
    bounds: (i64, i64, i64, i64),
    king: Coordinate,
    color: PlayerColor,
    phase: int,
    urgency: int,
    enemy_queen: bool,
    ortho_attackers: int,
    pawns: Seq<(i64, i64)>,
    rays: Seq<KingRay>,
    ring_covered: bool,
)
    requires
        is_phase(phase),
    ensures
        -490 <= shelter_score(
            bounds,
            king,
            color,
            phase,
            urgency,
            enemy_queen,
            ortho_attackers,
            pawns,
            rays,
            ring_covered,
        ) <= 18,
{
    let danger = rays_danger(rays, 8, bounds, king, color);
    lemma_rays_danger(rays, 8, bounds, king, color);
    let d = if enemy_queen {
        danger
    } else {
        tdiv(danger * 70, 100)
    };
    assert(0 <= d);
    assert(0 <= d * d) by (nonlinear_arith);
    if urgency > 10 {
        let amplified = d + tdiv(d * d, 800);
        assert(0 <= amplified * urgency) by (nonlinear_arith)
            requires
                0 <= amplified,
                0 <= urgency,
        ;
    }
}

/// Where the defense is not urgent, the rays of a king do not matter, nor whether
/// the enemy can have a queen.
pub proof fn calm_shelter_ignores_rays(
    bounds: (i64, i64, i64, i64),
    king: Coordinate,
    color: PlayerColor,
    phase: int,
    urgency: int,
    ortho_attackers: int,
    pawns: Seq<(i64, i64)>,
    ring_covered: bool,
    enemy_queen: bool,
    rays: Seq<KingRay>,
    other_queen: bool,
    other_rays: Seq<KingRay>,
)
    requires
        urgency <= 10,
    ensures
        shelter_score(
            bounds,
            king,
            color,
            phase,
            urgency,
            enemy_queen,
            ortho_attackers,
            pawns,
            rays,
            ring_covered,
        ) == shelter_score(
            bounds,
            king,
            color,
            phase,
            urgency,
            other_queen,
            ortho_attackers,
            pawns,
            other_rays,
            ring_covered,
        ),
{
}

} // verus!
