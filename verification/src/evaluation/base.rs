//! The evaluation of a whole position.
use crate::arith::{
    cheb, clamp, clamp_i32, lemma_sum_bounds, lemma_sum_step, min, min_i32, sum_of, tdiv,
};
use crate::board::{Board, Coordinate, Piece, PlayerColor};
use crate::evaluation::features::{EvalFeatures, no_features};
use crate::evaluation::king_safety::{
    attack_readiness, compute_attack_readiness_optimized, evaluate_king_safety_traced,
    king_features, side_attack, side_safety, KingRay, KingSafetyMetrics,
};
use crate::evaluation::metrics::{
    active_among, active_pieces, attack_tropism_term, bishop_term, cloud_center, collect_active,
    collect_officers, collect_supporters, compute_cloud_center, count_phase, defense_tropism_term,
    diag_term, find_front_rank, find_king_rays, front_bonus, front_bonus_of, front_rank,
    has_bishop_on, has_queen, is_ring_covered, king_rays, minor_threat_term, officers, ortho_term,
    pawn_bonus_term, pawn_penalty_term, pawn_threat_term, phase_term, points_term, ring_covered,
    soldier_term, tally_attackers, tally_minors, tally_pawns, tally_presence, tally_threats,
    tropism_defined, undeveloped_term, zone_term, KingPresence,
};
use crate::evaluation::pawn_cache::{
    cached_score, empty_bucket, PawnCache, PawnCacheBucket, PAWN_CACHE_SIZE,
};
use crate::evaluation::pawns::{
    black_side, collect_pawns, evaluate_pawn_structure_traced, lemma_pawn_structure_bounds,
    lemma_sorted_pawns, pawn_list, pawn_rows, pawn_structure_cache, pawn_structure_result,
    pieces_in_range, sorted_pawns, white_side, PawnSide,
};
use crate::evaluation::pieces::{
    evaluate_pieces_processed, king_in_range, piece_setting, pieces_features, pieces_rows,
    pieces_score, PieceMetrics, PieceSetting,
};
use crate::evaluation::tracing::{
    lemma_traced_twice, traced, ActiveTrace, EvaluationTracer, NoTrace, TraceRow,
};
use crate::evaluation::values::{
    get_piece_value, in_range, is_phase, piece_value, taper, tapered, MAX_PHASE, MAX_PIECES,
    PROMO_LIMIT,
};
use crate::game::GameState;
use vstd::prelude::*;

verus! {

/// Material scores lie within this distance of zero.
pub const MATERIAL_LIMIT: i32 = 0x4000_0000;

/// Mop-up scores lie within this distance of zero.
pub const MOP_UP_LIMIT: i32 = 0x2000_0000;

/// What evaluation keeps from one position to the next.
pub struct EvalContext {
    pub pawn_cache: PawnCache,
    pub features: EvalFeatures,
}

impl EvalContext {
    pub open spec fn wf(&self) -> bool {
        self.pawn_cache.wf()
    }

    pub fn new() -> (r: EvalContext)
        ensures
            r.wf(),
            r.features == no_features(),
            r.pawn_cache@ == Seq::new(PAWN_CACHE_SIZE as nat, |i: int| empty_bucket()),
    {
        EvalContext { pawn_cache: PawnCache::new(), features: EvalFeatures::default() }
    }
}

/// What endgame knowledge says of a position.
#[derive(Clone, Copy)]
pub struct EndgameTerms {
    /// `Some(0)` for a dead draw, `Some(d)` where the score is to be divided
    /// by `d`, `None` where there is enough material.
    pub insufficient: Option<i32>,
    /// The score for driving the bare black king, where that applies.
    pub white_mop_up: Option<i32>,
    /// The score for driving the bare white king, where that applies.
    pub black_mop_up: Option<i32>,
}

/// The pieces of a position that evaluation counts.
pub open spec fn counted(game: GameState) -> Seq<(i64, i64, Piece)> {
    active_pieces(game.board@)
}

pub open spec fn white_pawns(game: GameState) -> Seq<(i64, i64)> {
    sorted_pawns(counted(game), true, game.white_promo_rank as int)
}

pub open spec fn black_pawns(game: GameState) -> Seq<(i64, i64)> {
    sorted_pawns(counted(game), false, game.black_promo_rank as int)
}

/// The phase of the counted pieces.
pub open spec fn counted_phase(game: GameState) -> int {
    min(sum_of(counted(game), phase_term()), MAX_PHASE as int)
}

/// Advanced pawns count less, in percent, while many pieces can stop them.
pub open spec fn advancement_percent(game: GameState) -> int {
    clamp(190 - 18 * sum_of(counted(game), soldier_term()), 10, 100)
}

/// A side's score for advancing its pawns.
pub open spec fn advancement(game: GameState, white: bool) -> int {
    let s = counted(game);
    let (pawns, promo) = if white {
        (white_pawns(game), game.white_promo_rank as int)
    } else {
        (black_pawns(game), game.black_promo_rank as int)
    };
    tdiv(
        (sum_of(s, pawn_bonus_term(white, promo)) + front_bonus(
            front_rank(pawns, white),
            white,
            promo,
        )) * advancement_percent(game),
        100,
    ) + sum_of(s, pawn_penalty_term(white, promo))
}

/// A side's pieces other than pawns, by the game's own counts.
pub open spec fn officer_count(pieces: u32, pawns: u32) -> int {
    if pieces >= pawns {
        pieces - pawns
    } else {
        0
    }
}

/// Whether White drives a bare black king.
pub open spec fn white_mops_up(game: GameState, terms: EndgameTerms) -> bool {
    &&& officer_count(game.black_piece_count, game.black_pawn_count) < 3
    &&& officer_count(game.white_piece_count, game.white_pawn_count) > 1
    &&& white_pawns(game).len() == 0
    &&& game.black_king_pos is Some
    &&& terms.white_mop_up is Some
}

/// Whether Black drives a bare white king.
pub open spec fn black_mops_up(game: GameState, terms: EndgameTerms) -> bool {
    &&& !white_mops_up(game, terms)
    &&& officer_count(game.white_piece_count, game.white_pawn_count) < 3
    &&& officer_count(game.black_piece_count, game.black_pawn_count) > 1
    &&& black_pawns(game).len() == 0
    &&& game.white_king_pos is Some
    &&& terms.black_mop_up is Some
}

/// How urgent the defense against so many threat points is.
pub open spec fn urgency(points: int) -> int {
    min(10 + points + tdiv(points, 4), 100)
}

fn urgency_of(points: i32) -> (r: i32)
    requires
        0 <= points <= 40 * MAX_PIECES,
    ensures
        r == urgency(points as int),
        10 <= r <= 100,
{
    min_i32(10 + points + (points / 4), 100)
}

pub open spec fn piece_metrics(game: GameState) -> PieceMetrics {
    let s = counted(game);
    PieceMetrics {
        white_undeveloped: sum_of(s, undeveloped_term(game.starting_squares@, true)) as i32,
        black_undeveloped: sum_of(s, undeveloped_term(game.starting_squares@, false)) as i32,
        white_bishops: sum_of(s, bishop_term(true)) as i32,
        black_bishops: sum_of(s, bishop_term(false)) as i32,
        white_bishop_colors: (has_bishop_on(s, true, true), has_bishop_on(s, true, false)),
        black_bishop_colors: (has_bishop_on(s, false, true), has_bishop_on(s, false, false)),
        cloud_center: cloud_center(s, game.white_king_pos, game.black_king_pos),
    }
}

pub open spec fn king_safety_metrics(game: GameState) -> KingSafetyMetrics {
    let s = counted(game);
    KingSafetyMetrics {
        white_slider_counts: (
            sum_of(s, diag_term(true)) as i32,
            sum_of(s, ortho_term(true)) as i32,
        ),
        black_slider_counts: (
            sum_of(s, diag_term(false)) as i32,
            sum_of(s, ortho_term(false)) as i32,
        ),
        urgency: (
            urgency(sum_of(s, points_term(false))) as i32,
            urgency(sum_of(s, points_term(true))) as i32,
        ),
        has_enemy_queen: (has_queen(s, false), has_queen(s, true)),
    }
}

/// What the activity of the pieces depends on.
pub open spec fn setting(game: GameState) -> PieceSetting {
    let s = counted(game);
    piece_setting(
        game,
        game.white_king_pos,
        game.black_king_pos,
        counted_phase(game),
        piece_metrics(game),
        attack_readiness(
            king_rays(s, game.black_king_pos),
            game.black_king_pos is Some,
            sum_of(s, zone_term(true, game.black_king_pos)),
        ),
        attack_readiness(
            king_rays(s, game.white_king_pos),
            game.white_king_pos is Some,
            sum_of(s, zone_term(false, game.white_king_pos)),
        ),
        white_pawns(game),
        black_pawns(game),
    )
}

/// A king's shelter.
pub open spec fn shelter(game: GameState, white: bool) -> int {
    let s = counted(game);
    if white {
        side_safety(
            game.bounds,
            game.white_king_pos,
            PlayerColor::White,
            counted_phase(game),
            king_safety_metrics(game),
            white_pawns(game),
            king_rays(s, game.white_king_pos),
            ring_covered(s, game.white_king_pos, true),
        )
    } else {
        side_safety(
            game.bounds,
            game.black_king_pos,
            PlayerColor::Black,
            counted_phase(game),
            king_safety_metrics(game),
            black_pawns(game),
            king_rays(s, game.black_king_pos),
            ring_covered(s, game.black_king_pos, false),
        )
    }
}

/// A side's attack on the enemy king.
pub open spec fn king_attack(game: GameState, white: bool) -> int {
    let s = counted(game);
    if white {
        side_attack(
            game.black_king_pos,
            king_rays(s, game.black_king_pos),
            king_safety_metrics(game).white_slider_counts,
        )
    } else {
        side_attack(
            game.white_king_pos,
            king_rays(s, game.white_king_pos),
            king_safety_metrics(game).black_slider_counts,
        )
    }
}

/// A side's nearness to both kings.
pub open spec fn global_tropism(game: GameState, white: bool) -> int {
    let s = counted(game);
    let phase = min(game.total_phase as int, MAX_PHASE as int);
    let (own, enemy) = if white {
        (game.white_king_pos, game.black_king_pos)
    } else {
        (game.black_king_pos, game.white_king_pos)
    };
    tdiv(sum_of(s, attack_tropism_term(white, enemy)) * tapered(180, 360, phase), 100) + tdiv(
        sum_of(s, defense_tropism_term(white, own)) * tapered(120, 60, phase),
        100,
    )
}

/// White's pawns in their setting.
pub open spec fn counted_white_side(game: GameState) -> PawnSide {
    white_side(
        game,
        counted_phase(game),
        game.white_king_pos,
        game.black_king_pos,
        white_pawns(game),
        black_pawns(game),
    )
}

/// Black's pawns in their setting.
pub open spec fn counted_black_side(game: GameState) -> PawnSide {
    black_side(
        game,
        counted_phase(game),
        game.white_king_pos,
        game.black_king_pos,
        white_pawns(game),
        black_pawns(game),
    )
}

/// The score of threats and of nearness to the kings, White's minus Black's.
pub open spec fn threat_score(game: GameState) -> int {
    let s = counted(game);
    ((sum_of(s, pawn_threat_term(game.board@, true)) + sum_of(
        s,
        minor_threat_term(game.board@, true),
    )) - (sum_of(s, pawn_threat_term(game.board@, false)) + sum_of(
        s,
        minor_threat_term(game.board@, false),
    ))) + (global_tropism(game, true) - global_tropism(game, false))
}

/// The positional score, from White's point of view. `pawns` is the score of
/// the pawn structure.
pub open spec fn positional_score(game: GameState, pawns: int) -> int {
    pieces_score(setting(game), piece_metrics(game), officers(counted(game))) + ((shelter(
        game,
        true,
    ) + king_attack(game, true)) - (shelter(game, false) + king_attack(game, false))) + pawns
        + threat_score(game)
}

pub open spec fn king_rows(game: GameState) -> Seq<TraceRow> {
    seq![
        ("King: Shelter"@, shelter(game, true), shelter(game, false)),
        ("King: Attack"@, king_attack(game, true), king_attack(game, false)),
    ]
}

pub open spec fn threat_rows(game: GameState) -> Seq<TraceRow> {
    let s = counted(game);
    seq![
        (
            "Threats: Pawn"@,
            sum_of(s, pawn_threat_term(game.board@, true)),
            sum_of(s, pawn_threat_term(game.board@, false)),
        ),
        (
            "Threats: Minor"@,
            sum_of(s, minor_threat_term(game.board@, true)),
            sum_of(s, minor_threat_term(game.board@, false)),
        ),
        ("Global Tropism"@, global_tropism(game, true), global_tropism(game, false)),
    ]
}

/// The terms of the positional score, as they are recorded.
pub open spec fn positional_rows(game: GameState) -> Seq<TraceRow> {
    pieces_rows(setting(game), piece_metrics(game), officers(counted(game))) + king_rows(game)
        + pawn_rows(counted_white_side(game), counted_black_side(game)) + threat_rows(game)
}

/// The feature counters after a positional evaluation.
pub open spec fn positional_features(game: GameState, f: EvalFeatures) -> EvalFeatures {
    let s = counted(game);
    king_features(
        pieces_features(f, piece_metrics(game)),
        game.white_king_pos,
        game.black_king_pos,
        ring_covered(s, game.white_king_pos, true),
        ring_covered(s, game.black_king_pos, false),
    )
}

/// The score of a position from White's point of view.
pub open spec fn white_score(
    game: GameState,
    terms: EndgameTerms,
    cache: Seq<PawnCacheBucket>,
    active: bool,
) -> int {
    game.material_score + (advancement(game, true) - advancement(game, false)) + (if white_mops_up(
        game,
        terms,
    ) {
        terms.white_mop_up->0 as int
    } else if black_mops_up(game, terms) {
        -(terms.black_mop_up->0)
    } else {
        positional_score(
            game,
            pawn_structure_result(
                cache,
                active,
                game.pawn_hash,
                counted_white_side(game),
                counted_black_side(game),
            ),
        )
    })
}

/// The score of a position from the point of view of the side to move.
pub open spec fn inner_score(
    game: GameState,
    terms: EndgameTerms,
    cache: Seq<PawnCacheBucket>,
    active: bool,
) -> int {
    let score = white_score(game, terms, cache, active);
    if game.turn is Black {
        -score
    } else {
        score
    }
}

/// The pawn cache after an evaluation.
pub open spec fn cache_after(
    game: GameState,
    terms: EndgameTerms,
    cache: Seq<PawnCacheBucket>,
    active: bool,
) -> Seq<PawnCacheBucket> {
    if white_mops_up(game, terms) || black_mops_up(game, terms) {
        cache
    } else {
        pawn_structure_cache(
            cache,
            active,
            game.pawn_hash,
            counted_white_side(game),
            counted_black_side(game),
        )
    }
}

/// The feature counters after an evaluation.
pub open spec fn features_after(
    game: GameState,
    terms: EndgameTerms,
    f: EvalFeatures,
) -> EvalFeatures {
    if white_mops_up(game, terms) || black_mops_up(game, terms) {
        f
    } else {
        positional_features(game, f)
    }
}

/// The terms of an evaluation, as they are recorded.
pub open spec fn evaluation_rows(game: GameState, terms: EndgameTerms) -> Seq<TraceRow> {
    seq![("Pawn Advancement"@, advancement(game, true), advancement(game, false))] + (
    if white_mops_up(game, terms) {
        seq![("Mop-up"@, terms.white_mop_up->0 as int, 0int)]
    } else if black_mops_up(game, terms) {
        seq![("Mop-up"@, 0int, terms.black_mop_up->0 as int)]
    } else {
        positional_rows(game)
    })
}

/// A position that can be evaluated: its squares, counts and scores leave room
/// for the arithmetic, and no distance to a king makes a tropism divisor zero.
pub open spec fn evaluable(game: GameState, terms: EndgameTerms) -> bool {
    &&& game.board.wf()
    &&& pieces_in_range(game.board@)
    &&& game.spatial_indices.wf()
    &&& king_in_range(game.white_king_pos)
    &&& king_in_range(game.black_king_pos)
    &&& tropism_defined(game.board@, game.white_king_pos)
    &&& tropism_defined(game.board@, game.black_king_pos)
    &&& -PROMO_LIMIT <= game.white_promo_rank <= PROMO_LIMIT
    &&& -PROMO_LIMIT <= game.black_promo_rank <= PROMO_LIMIT
    &&& 0 <= game.total_phase
    &&& -MATERIAL_LIMIT <= game.material_score <= MATERIAL_LIMIT
    &&& terms.white_mop_up matches Some(v) ==> -MOP_UP_LIMIT <= v <= MOP_UP_LIMIT
    &&& terms.black_mop_up matches Some(v) ==> -MOP_UP_LIMIT <= v <= MOP_UP_LIMIT
}

fn advancement_of(
    game: &GameState,
    pieces: &[(i64, i64, Piece)],
    white: bool,
    pawns: &[(i64, i64)],
    soldiers: i32,
) -> (r: i32)
    requires
        pieces@ == counted(*game),
        pieces_in_range(pieces@),
        pawns@ == (if white {
            white_pawns(*game)
        } else {
            black_pawns(*game)
        }),
        pawn_list(pawns@),
        soldiers == sum_of(pieces@, soldier_term()),
        0 <= soldiers <= MAX_PIECES,
        -PROMO_LIMIT <= game.white_promo_rank <= PROMO_LIMIT,
        -PROMO_LIMIT <= game.black_promo_rank <= PROMO_LIMIT,
    ensures
        r == advancement(*game, white),
        -10_000_000 <= r <= 2_000_000,
{
    let promo: i64 = if white {
        game.white_promo_rank
    } else {
        game.black_promo_rank
    };
    let percent: i32 = clamp_i32(190 - 18 * soldiers, 10, 100);
    let (bonus, penalty) = tally_pawns(pieces, white, promo);
    let front = find_front_rank(pawns, white);
    let total: i32 = bonus + front_bonus_of(&front, white, promo);
    assert(-50 * MAX_PIECES * 100 <= total * percent <= 100 * (20 * MAX_PIECES + 500))
        by (nonlinear_arith)
        requires
            -50 * MAX_PIECES <= total <= 20 * MAX_PIECES + 500,
            10 <= percent <= 100,
            MAX_PIECES == 65536,
    ;
    (total * percent / 100) + penalty
}

fn global_tropism_of(presence: &KingPresence, phase: i32) -> (r: i32)
    requires
        is_phase(phase as int),
        -1600 * MAX_PIECES <= presence.attacking_tropism <= 1600 * MAX_PIECES,
        -350 * MAX_PIECES <= presence.defensive_tropism <= 350 * MAX_PIECES,
    ensures
        r == tdiv(presence.attacking_tropism * tapered(180, 360, phase as int), 100) + tdiv(
            presence.defensive_tropism * tapered(120, 60, phase as int),
            100,
        ),
        -410_000_000 <= r <= 410_000_000,
{
    let att_mult: i32 = taper(180, 360, phase);
    let def_mult: i32 = taper(120, 60, phase);
    let attack: i64 = presence.attacking_tropism as i64;
    let defense: i64 = presence.defensive_tropism as i64;
    assert(-1600 * 65536 * 360 <= attack * att_mult <= 1600 * 65536 * 360) by (nonlinear_arith)
        requires
            -1600 * 65536 <= attack <= 1600 * 65536,
            0 <= att_mult <= 360,
    ;
    assert(-350 * 65536 * 120 <= defense * def_mult <= 350 * 65536 * 120) by (nonlinear_arith)
        requires
            -350 * 65536 <= defense <= 350 * 65536,
            0 <= def_mult <= 120,
    ;
    (attack * att_mult as i64 / 100 + defense * def_mult as i64 / 100) as i32
}

proof fn lemma_active_tropism(s: Seq<(i64, i64, Piece)>, n: nat, king: Option<Coordinate>)
    requires
        n <= s.len(),
        tropism_defined(s, king),
    ensures
        tropism_defined(active_among(s, n), king),
    decreases n,
{
    if n > 0 {
        lemma_active_tropism(s, (n - 1) as nat, king);
        let t = active_among(s, n);
        let u = active_among(s, (n - 1) as nat);
        if king is Some {
            let k = king->0;
            assert forall|i: int|
                0 <= i < t.len() && !((#[trigger] t[i]).2.piece_type is Pawn)
                    && !t[i].2.piece_type.royal() implies {
                let d = (cheb(t[i].0 as int, t[i].1 as int, k.x as int, k.y as int) as i32) as int;
                d + 10 != 0 && d + 10 <= i32::MAX
            } by {
                if i < u.len() {
                    assert(t[i] == u[i]);
                } else {
                    assert(t[i] == s[n - 1]);
                }
            }
        }
    }
}

/// Evaluates the activity of the pieces.
fn evaluate_activity<T: EvaluationTracer>(
    game: &GameState,
    pieces: &[(i64, i64, Piece)],
    wp: &[(i64, i64)],
    bp: &[(i64, i64)],
    phase: i32,
    w_presence: &KingPresence,
    b_presence: &KingPresence,
    w_rays: &[KingRay; 8],
    b_rays: &[KingRay; 8],
    tracer: &mut T,
    features: &mut EvalFeatures,
) -> (r: i32)
    requires
        game.spatial_indices.wf(),
        king_in_range(game.white_king_pos),
        king_in_range(game.black_king_pos),
        pieces@ == counted(*game),
        pieces_in_range(pieces@),
        wp@ == white_pawns(*game),
        bp@ == black_pawns(*game),
        pawn_list(wp@),
        pawn_list(bp@),
        phase == counted_phase(*game),
        is_phase(phase as int),
        w_presence.sliders_in_zone == sum_of(pieces@, zone_term(true, game.black_king_pos)),
        b_presence.sliders_in_zone == sum_of(pieces@, zone_term(false, game.white_king_pos)),
        w_rays@ == king_rays(pieces@, game.white_king_pos),
        b_rays@ == king_rays(pieces@, game.black_king_pos),
    ensures
        r == pieces_score(setting(*game), piece_metrics(*game), officers(counted(*game))),
        *final(features) == pieces_features(*old(features), piece_metrics(*game)),
        final(tracer).active() == old(tracer).active(),
        final(tracer).recorded() == traced(
            old(tracer).recorded(),
            old(tracer).active(),
            pieces_rows(setting(*game), piece_metrics(*game), officers(counted(*game))),
        ),
        -110_000_000 <= r <= 110_000_000,
{
    let white_king = &game.white_king_pos;
    let black_king = &game.black_king_pos;
    let officer_list = collect_officers(pieces);
    let w_minors = tally_minors(game, pieces, true);
    let b_minors = tally_minors(game, pieces, false);
    let w_ready: i32 = compute_attack_readiness_optimized(
        b_rays,
        black_king.is_some(),
        w_presence.sliders_in_zone,
    );
    let b_ready: i32 = compute_attack_readiness_optimized(
        w_rays,
        white_king.is_some(),
        b_presence.sliders_in_zone,
    );
    let metrics = PieceMetrics {
        white_undeveloped: w_minors.undeveloped,
        black_undeveloped: b_minors.undeveloped,
        white_bishops: w_minors.bishops,
        black_bishops: b_minors.bishops,
        white_bishop_colors: w_minors.bishop_colors,
        black_bishop_colors: b_minors.bishop_colors,
        cloud_center: compute_cloud_center(pieces, white_king, black_king),
    };
    assert(metrics == piece_metrics(*game));
    evaluate_pieces_processed(
        game,
        white_king,
        black_king,
        phase,
        tracer,
        officer_list.as_slice(),
        &metrics,
        w_ready,
        b_ready,
        wp,
        bp,
        features,
    )
}

/// Evaluates the safety of both kings.
fn evaluate_safety<T: EvaluationTracer>(
    game: &GameState,
    pieces: &[(i64, i64, Piece)],
    wp: &[(i64, i64)],
    bp: &[(i64, i64)],
    phase: i32,
    w_rays: &[KingRay; 8],
    b_rays: &[KingRay; 8],
    tracer: &mut T,
    features: &mut EvalFeatures,
) -> (r: i32)
    requires
        king_in_range(game.white_king_pos),
        king_in_range(game.black_king_pos),
        pieces@ == counted(*game),
        pieces_in_range(pieces@),
        wp@ == white_pawns(*game),
        bp@ == black_pawns(*game),
        pawn_list(wp@),
        pawn_list(bp@),
        phase == counted_phase(*game),
        is_phase(phase as int),
        w_rays@ == king_rays(pieces@, game.white_king_pos),
        b_rays@ == king_rays(pieces@, game.black_king_pos),
    ensures
        r == (shelter(*game, true) + king_attack(*game, true)) - (shelter(*game, false)
            + king_attack(*game, false)),
        *final(features) == king_features(
            *old(features),
            game.white_king_pos,
            game.black_king_pos,
            ring_covered(counted(*game), game.white_king_pos, true),
            ring_covered(counted(*game), game.black_king_pos, false),
        ),
        final(tracer).active() == old(tracer).active(),
        final(tracer).recorded() == traced(
            old(tracer).recorded(),
            old(tracer).active(),
            king_rows(*game),
        ),
        -1_000_000 <= r <= 1_000_000,
{
    let w_attackers = tally_attackers(pieces, true);
    let b_attackers = tally_attackers(pieces, false);
    let ks_metrics = KingSafetyMetrics {
        white_slider_counts: w_attackers.sliders,
        black_slider_counts: b_attackers.sliders,
        urgency: (urgency_of(b_attackers.threat_points), urgency_of(w_attackers.threat_points)),
        has_enemy_queen: (b_attackers.has_queen, w_attackers.has_queen),
    };
    assert(ks_metrics == king_safety_metrics(*game));
    let w_ring = is_ring_covered(pieces, &game.white_king_pos, true);
    let b_ring = is_ring_covered(pieces, &game.black_king_pos, false);
    evaluate_king_safety_traced(
        game,
        &game.white_king_pos,
        &game.black_king_pos,
        phase,
        tracer,
        &ks_metrics,
        wp,
        bp,
        w_rays,
        b_rays,
        w_ring,
        b_ring,
        features,
    )
}

/// Evaluates threats and the nearness of pieces to the kings.
fn evaluate_threats<T: EvaluationTracer>(
    game: &GameState,
    pieces: &[(i64, i64, Piece)],
    w_presence: &KingPresence,
    b_presence: &KingPresence,
    tracer: &mut T,
) -> (r: i32)
    requires
        game.board.wf(),
        0 <= game.total_phase,
        pieces@ == counted(*game),
        pieces_in_range(pieces@),
        w_presence.attacking_tropism == sum_of(
            pieces@,
            attack_tropism_term(true, game.black_king_pos),
        ),
        w_presence.defensive_tropism == sum_of(
            pieces@,
            defense_tropism_term(true, game.white_king_pos),
        ),
        b_presence.attacking_tropism == sum_of(
            pieces@,
            attack_tropism_term(false, game.white_king_pos),
        ),
        b_presence.defensive_tropism == sum_of(
            pieces@,
            defense_tropism_term(false, game.black_king_pos),
        ),
        -1600 * MAX_PIECES <= w_presence.attacking_tropism <= 1600 * MAX_PIECES,
        -350 * MAX_PIECES <= w_presence.defensive_tropism <= 350 * MAX_PIECES,
        -1600 * MAX_PIECES <= b_presence.attacking_tropism <= 1600 * MAX_PIECES,
        -350 * MAX_PIECES <= b_presence.defensive_tropism <= 350 * MAX_PIECES,
    ensures
        r == threat_score(*game),
        final(tracer).active() == old(tracer).active(),
        final(tracer).recorded() == traced(
            old(tracer).recorded(),
            old(tracer).active(),
            threat_rows(*game),
        ),
        -850_000_000 <= r <= 850_000_000,
{
    let (w_pawn_threats, w_minor_threats) = tally_threats(&game.board, pieces, true);
    let (b_pawn_threats, b_minor_threats) = tally_threats(&game.board, pieces, false);
    tracer.record("Threats: Pawn", w_pawn_threats, b_pawn_threats);
    tracer.record("Threats: Minor", w_minor_threats, b_minor_threats);
    let threats: i32 = (w_pawn_threats + w_minor_threats) - (b_pawn_threats + b_minor_threats);
    let whole_phase: i32 = min_i32(game.total_phase, MAX_PHASE);
    let w_gt: i32 = global_tropism_of(w_presence, whole_phase);
    let b_gt: i32 = global_tropism_of(b_presence, whole_phase);
    tracer.record("Global Tropism", w_gt, b_gt);
    assert(tracer.recorded() =~= traced(
        old(tracer).recorded(),
        old(tracer).active(),
        threat_rows(*game),
    ));
    threats + (w_gt - b_gt)
}

/// Evaluates everything but material and pawn advancement, from White's point
/// of view.
fn evaluate_positional<T: EvaluationTracer>(
    game: &GameState,
    pieces: &[(i64, i64, Piece)],
    wp: &[(i64, i64)],
    bp: &[(i64, i64)],
    phase: i32,
    tracer: &mut T,
    ctx: &mut EvalContext,
) -> (r: i32)
    requires
        old(ctx).wf(),
        game.board.wf(),
        game.spatial_indices.wf(),
        king_in_range(game.white_king_pos),
        king_in_range(game.black_king_pos),
        -PROMO_LIMIT <= game.white_promo_rank <= PROMO_LIMIT,
        -PROMO_LIMIT <= game.black_promo_rank <= PROMO_LIMIT,
        0 <= game.total_phase,
        pieces@ == counted(*game),
        pieces_in_range(pieces@),
        tropism_defined(pieces@, game.white_king_pos),
        tropism_defined(pieces@, game.black_king_pos),
        wp@ == white_pawns(*game),
        bp@ == black_pawns(*game),
        pawn_list(wp@),
        pawn_list(bp@),
        phase == counted_phase(*game),
        is_phase(phase as int),
    ensures
        r == positional_score(
            *game,
            pawn_structure_result(
                old(ctx).pawn_cache@,
                old(tracer).active(),
                game.pawn_hash,
                counted_white_side(*game),
                counted_black_side(*game),
            ),
        ),
        final(ctx).pawn_cache@ == pawn_structure_cache(
            old(ctx).pawn_cache@,
            old(tracer).active(),
            game.pawn_hash,
            counted_white_side(*game),
            counted_black_side(*game),
        ),
        final(ctx).features == positional_features(*game, old(ctx).features),
        final(ctx).wf(),
        final(tracer).active() == old(tracer).active(),
        final(tracer).recorded() == traced(
            old(tracer).recorded(),
            old(tracer).active(),
            positional_rows(*game),
        ),
        -1_050_000_000 <= r <= 1_050_000_000,
{
    let white_king = &game.white_king_pos;
    let black_king = &game.black_king_pos;
    let ghost active = tracer.active();
    let ghost rows0 = tracer.recorded();
    let w_presence = tally_presence(pieces, true, white_king, black_king);
    let b_presence = tally_presence(pieces, false, black_king, white_king);
    let w_rays = find_king_rays(pieces, white_king);
    let b_rays = find_king_rays(pieces, black_king);
    let activity: i32 = evaluate_activity(
        game,
        pieces,
        wp,
        bp,
        phase,
        &w_presence,
        &b_presence,
        &w_rays,
        &b_rays,
        tracer,
        &mut ctx.features,
    );
    let ghost rows1 = pieces_rows(setting(*game), piece_metrics(*game), officers(counted(*game)));
    let safety: i32 = evaluate_safety(
        game,
        pieces,
        wp,
        bp,
        phase,
        &w_rays,
        &b_rays,
        tracer,
        &mut ctx.features,
    );
    let ghost rows2 = king_rows(*game);
    let w_rq = collect_supporters(pieces, true);
    let b_rq = collect_supporters(pieces, false);
    let pawns: i32 = evaluate_pawn_structure_traced(
        game,
        phase,
        white_king,
        black_king,
        tracer,
        wp,
        bp,
        w_rq.as_slice(),
        b_rq.as_slice(),
        &mut ctx.pawn_cache,
    );
    let ghost rows3 = pawn_rows(counted_white_side(*game), counted_black_side(*game));
    let threats: i32 = evaluate_threats(game, pieces, &w_presence, &b_presence, tracer);
    proof {
        lemma_traced_twice(rows0, active, rows1, rows2);
        lemma_traced_twice(rows0, active, rows1 + rows2, rows3);
        lemma_traced_twice(rows0, active, rows1 + rows2 + rows3, threat_rows(*game));
    }
    activity + safety + pawns + threats
}

/// Evaluates a position from the point of view of the side to move and hands
/// the terms to `tracer`. Whether there is enough material to win is not
/// looked at.
pub fn evaluate_inner_traced<T: EvaluationTracer>(
    game: &GameState,
    terms: &EndgameTerms,
    tracer: &mut T,
    ctx: &mut EvalContext,
) -> (r: i32)
    requires
        evaluable(*game, *terms),
        old(ctx).wf(),
    ensures
        r == inner_score(*game, *terms, old(ctx).pawn_cache@, old(tracer).active()),
        final(ctx).pawn_cache@ == cache_after(
            *game,
            *terms,
            old(ctx).pawn_cache@,
            old(tracer).active(),
        ),
        final(ctx).features == features_after(*game, *terms, old(ctx).features),
        final(ctx).wf(),
        final(tracer).active() == old(tracer).active(),
        final(tracer).recorded() == traced(
            old(tracer).recorded(),
            old(tracer).active(),
            evaluation_rows(*game, *terms),
        ),
        r > i32::MIN,
{
    let list = collect_active(&game.board);
    let pieces = list.as_slice();
    proof {
        lemma_active_tropism(game.board@, game.board@.len(), game.white_king_pos);
        lemma_active_tropism(game.board@, game.board@.len(), game.black_king_pos);
    }
    let (phase, soldiers) = count_phase(pieces);
    let final_phase: i32 = min_i32(phase, MAX_PHASE);
    let white_list = collect_pawns(pieces, true, game.white_promo_rank);
    let black_list = collect_pawns(pieces, false, game.black_promo_rank);
    let wp = white_list.as_slice();
    let bp = black_list.as_slice();
    let w_adv: i32 = advancement_of(game, pieces, true, wp, soldiers);
    let b_adv: i32 = advancement_of(game, pieces, false, bp, soldiers);
    tracer.record("Pawn Advancement", w_adv, b_adv);
    let mut score: i32 = game.material_score + (w_adv - b_adv);
    let white_pieces: u32 = game.white_piece_count.saturating_sub(game.white_pawn_count);
    let black_pieces: u32 = game.black_piece_count.saturating_sub(game.black_pawn_count);
    let white_mop_up: Option<i32> = if black_pieces < 3 && white_pieces > 1 && wp.len() == 0
        && game.black_king_pos.is_some() {
        terms.white_mop_up
    } else {
        None
    };
    let black_mop_up: Option<i32> = if white_mop_up.is_none() && white_pieces < 3 && black_pieces
        > 1 && bp.len() == 0 && game.white_king_pos.is_some() {
        terms.black_mop_up
    } else {
        None
    };
    if let Some(s) = white_mop_up {
        tracer.record("Mop-up", s, 0);
        score += s;
    } else if let Some(s) = black_mop_up {
        tracer.record("Mop-up", 0, s);
        score -= s;
    } else {
        let positional: i32 = evaluate_positional(
            game,
            pieces,
            wp,
            bp,
            final_phase,
            tracer,
            ctx,
        );
        score += positional;
    }
    assert(tracer.recorded() =~= traced(
        old(tracer).recorded(),
        old(tracer).active(),
        evaluation_rows(*game, *terms),
    ));
    if game.turn == PlayerColor::Black {
        -score
    } else {
        score
    }
}

/// Evaluates a position without tracing and without a look at whether there is
/// enough material to win.
pub fn evaluate_inner(game: &GameState, terms: &EndgameTerms, ctx: &mut EvalContext) -> (r: i32)
    requires
        evaluable(*game, *terms),
        old(ctx).wf(),
    ensures
        r == inner_score(*game, *terms, old(ctx).pawn_cache@, false),
        final(ctx).pawn_cache@ == cache_after(*game, *terms, old(ctx).pawn_cache@, false),
        final(ctx).features == features_after(*game, *terms, old(ctx).features),
        final(ctx).wf(),
        r > i32::MIN,
{
    let mut tracer = NoTrace;
    evaluate_inner_traced(game, terms, &mut tracer, ctx)
}

/// The evaluation of a position: zero in a dead draw, damped where material is
/// scarce.
pub open spec fn evaluation(
    game: GameState,
    terms: EndgameTerms,
    cache: Seq<PawnCacheBucket>,
) -> int {
    match terms.insufficient {
        Some(d) => if d == 0 {
            0
        } else {
            tdiv(inner_score(game, terms, cache, false), d as int)
        },
        None => inner_score(game, terms, cache, false),
    }
}

/// Evaluates a position from the point of view of the side to move.
pub fn evaluate(game: &GameState, terms: &EndgameTerms, ctx: &mut EvalContext) -> (r: i32)
    requires
        evaluable(*game, *terms),
        old(ctx).wf(),
    ensures
        r == evaluation(*game, *terms, old(ctx).pawn_cache@),
        final(ctx).pawn_cache@ == (if terms.insufficient == Some(0i32) {
            old(ctx).pawn_cache@
        } else {
            cache_after(*game, *terms, old(ctx).pawn_cache@, false)
        }),
        final(ctx).features == (if terms.insufficient == Some(0i32) {
            old(ctx).features
        } else {
            features_after(*game, *terms, old(ctx).features)
        }),
        final(ctx).wf(),
{
    match terms.insufficient {
        Some(divisor) => {
            if divisor == 0 {
                return 0;
            }
            let score: i32 = evaluate_inner(game, terms, ctx);
            truncated_quotient(score, divisor)
        },
        None => evaluate_inner(game, terms, ctx),
    }
}

/// Division that truncates toward zero, by a divisor of either sign.
fn truncated_quotient(a: i32, b: i32) -> (r: i32)
    requires
        a > i32::MIN,
        b != 0,
    ensures
        r == tdiv(a as int, b as int),
{
    let size: i64 = if b > 0 {
        b as i64
    } else {
        -(b as i64)
    };
    let magnitude: i64 = if a >= 0 {
        a as i64
    } else {
        -(a as i64)
    };
    assert(0 <= magnitude as int / size as int <= magnitude) by (nonlinear_arith)
        requires
            0 <= magnitude,
            1 <= size,
    ;
    let quotient: i32 = (magnitude / size) as i32;
    if (a >= 0) == (b > 0) {
        quotient
    } else {
        -quotient
    }
}

/// Evaluates a position with every term recorded.
pub fn debug_evaluate(game: &GameState, terms: &EndgameTerms, ctx: &mut EvalContext) -> (r:
    ActiveTrace)
    requires
        evaluable(*game, *terms),
        old(ctx).wf(),
    ensures
        r.recorded() == evaluation_rows(*game, *terms),
        final(ctx).pawn_cache@ == cache_after(*game, *terms, old(ctx).pawn_cache@, true),
        final(ctx).features == features_after(*game, *terms, old(ctx).features),
        final(ctx).wf(),
{
    let mut tracer = ActiveTrace::default();
    evaluate_inner_traced(game, terms, &mut tracer, ctx);
    assert(Seq::<TraceRow>::empty() + evaluation_rows(*game, *terms) =~= evaluation_rows(
        *game,
        *terms,
    ));
    tracer
}

/// The winning and the losing side where only one side has pieces other than
/// pawns.
pub open spec fn mop_up_roles(game: GameState) -> Option<(PlayerColor, PlayerColor)> {
    if game.white_non_pawn_material && !game.black_non_pawn_material {
        Some((PlayerColor::White, PlayerColor::Black))
    } else if game.black_non_pawn_material && !game.white_non_pawn_material {
        Some((PlayerColor::Black, PlayerColor::White))
    } else {
        None
    }
}

pub fn mop_up_sides(game: &GameState) -> (r: Option<(PlayerColor, PlayerColor)>)
    ensures
        r == mop_up_roles(*game),
{
    if game.white_non_pawn_material && !game.black_non_pawn_material {
        Some((PlayerColor::White, PlayerColor::Black))
    } else if game.black_non_pawn_material && !game.white_non_pawn_material {
        Some((PlayerColor::Black, PlayerColor::White))
    } else {
        None
    }
}

/// The king that is driven in a mop-up.
pub open spec fn driven_king(game: GameState) -> Option<Coordinate> {
    match mop_up_roles(game) {
        Some((winner, _)) => if winner is White {
            game.black_king_pos
        } else {
            game.white_king_pos
        },
        None => None,
    }
}

/// The mop-up score from the point of view of the side to move. `scale` is the
/// weight of the mop-up in percent for the losing side of [`mop_up_sides`],
/// and `raw` the full score for driving its king; without a losing side, a
/// positive weight or a king to drive there is no score.
pub fn compute_mop_up_term(game: &GameState, scale: Option<u32>, raw: i32) -> (r: i32)
    requires
        scale matches Some(s) ==> i32::MIN < raw * s <= i32::MAX,
    ensures
        r == (if driven_king(*game) is Some && scale is Some && scale->0 > 0 {
            let term = tdiv(raw * scale->0, 100);
            if (mop_up_roles(*game)->0).0 == game.turn {
                term
            } else {
                -term
            }
        } else {
            0
        }),
        // At full weight the side with pieces gains what the other loses.
        scale == Some(100u32) && game.white_non_pawn_material && !game.black_non_pawn_material
            && game.black_king_pos is Some ==> (game.turn is White ==> r == raw) && (
        game.turn is Black ==> r == -raw),
        scale == Some(100u32) && game.black_non_pawn_material && !game.white_non_pawn_material
            && game.white_king_pos is Some ==> (game.turn is Black ==> r == raw) && (
        game.turn is White ==> r == -raw),
        game.black_non_pawn_material == game.white_non_pawn_material ==> r == 0,
{
    let winner = match mop_up_sides(game) {
        Some((winner, _)) => winner,
        None => {
            return 0;
        },
    };
    let weight: u32 = match scale {
        Some(s) => s,
        None => {
            return 0;
        },
    };
    if weight == 0 {
        return 0;
    }
    let enemy_king = if winner == PlayerColor::White {
        &game.black_king_pos
    } else {
        &game.white_king_pos
    };
    if enemy_king.is_none() {
        return 0;
    }
    let product: i64 = raw as i64 * weight as i64;
    let mop_up: i32 = (product / 100) as i32;
    assert(weight == 100 ==> raw * weight == 100 * raw) by (nonlinear_arith);
    if winner == game.turn {
        mop_up
    } else {
        -mop_up
    }
}

/// A piece's value, positive for White and negative for Black.
pub open spec fn material_term() -> spec_fn((i64, i64, Piece)) -> int {
    |p: (i64, i64, Piece)|
        match p.2.color {
            PlayerColor::White => piece_value(p.2.piece_type),
            PlayerColor::Black => -piece_value(p.2.piece_type),
            PlayerColor::Neutral => 0,
        }
}

/// White's material minus Black's.
pub fn calculate_initial_material(board: &Board) -> (r: i32)
    requires
        forall|n: int|
            0 <= n <= board@.len() ==> i32::MIN <= #[trigger] sum_of(
                board@.take(n),
                material_term(),
            ) <= i32::MAX,
    ensures
        r == sum_of(board@, material_term()),
{
    let mut score: i32 = 0;
    let mut i: usize = 0;
    while i < board.pieces.len()
        invariant
            i <= board@.len(),
            forall|n: int|
                0 <= n <= board@.len() ==> i32::MIN <= #[trigger] sum_of(
                    board@.take(n),
                    material_term(),
                ) <= i32::MAX,
            score == sum_of(board@.take(i as int), material_term()),
        decreases board@.len() - i,
    {
        let piece = board.pieces[i].2;
        assert(board@[i as int].2 == piece);
        proof {
            lemma_sum_step(board@, i as int, material_term());
            assert(i32::MIN <= sum_of(board@.take(i + 1), material_term()) <= i32::MAX);
        }
        let value: i32 = get_piece_value(piece.piece_type);
        match piece.color {
            PlayerColor::White => {
                score += value;
            },
            PlayerColor::Black => {
                score -= value;
            },
            PlayerColor::Neutral => {},
        }
        i += 1;
    }
    assert(board@.take(i as int) =~= board@);
    score
}

/// White's pawns among all pieces of a game, at the phase that the game keeps.
pub open spec fn game_white_side(game: GameState) -> PawnSide {
    white_side(
        game,
        min(game.total_phase as int, MAX_PHASE as int),
        game.white_king_pos,
        game.black_king_pos,
        sorted_pawns(game.board@, true, game.white_promo_rank as int),
        sorted_pawns(game.board@, false, game.black_promo_rank as int),
    )
}

/// Black's pawns among all pieces of a game, at the phase that the game keeps.
pub open spec fn game_black_side(game: GameState) -> PawnSide {
    black_side(
        game,
        min(game.total_phase as int, MAX_PHASE as int),
        game.white_king_pos,
        game.black_king_pos,
        sorted_pawns(game.board@, true, game.white_promo_rank as int),
        sorted_pawns(game.board@, false, game.black_promo_rank as int),
    )
}

/// White's pawn structure score minus Black's, by way of the cache.
pub fn evaluate_pawn_structure(game: &GameState, cache: &mut PawnCache) -> (r: i32)
    requires
        old(cache).wf(),
        pieces_in_range(game.board@),
        game.spatial_indices.wf(),
        king_in_range(game.white_king_pos),
        king_in_range(game.black_king_pos),
        -PROMO_LIMIT <= game.white_promo_rank <= PROMO_LIMIT,
        -PROMO_LIMIT <= game.black_promo_rank <= PROMO_LIMIT,
        0 <= game.total_phase,
    ensures
        r == pawn_structure_result(
            old(cache)@,
            false,
            game.pawn_hash,
            game_white_side(*game),
            game_black_side(*game),
        ),
        final(cache)@ == pawn_structure_cache(
            old(cache)@,
            false,
            game.pawn_hash,
            game_white_side(*game),
            game_black_side(*game),
        ),
        final(cache).wf(),
{
    let phase: i32 = min_i32(game.total_phase, MAX_PHASE);
    let pieces = game.board.pieces.as_slice();
    let wp = collect_pawns(pieces, true, game.white_promo_rank);
    let bp = collect_pawns(pieces, false, game.black_promo_rank);
    let w_rq = collect_supporters(pieces, true);
    let b_rq = collect_supporters(pieces, false);
    let mut tracer = NoTrace;
    evaluate_pawn_structure_traced(
        game,
        phase,
        &game.white_king_pos,
        &game.black_king_pos,
        &mut tracer,
        wp.as_slice(),
        bp.as_slice(),
        w_rq.as_slice(),
        b_rq.as_slice(),
        cache,
    )
}

/// The pawns of a position that can be evaluated can be evaluated too.
proof fn lemma_counted_sides(game: GameState, terms: EndgameTerms)
    requires
        evaluable(game, terms),
    ensures
        counted_white_side(game).wf(),
        counted_black_side(game).wf(),
{
    let s = counted(game);
    lemma_active_range(game.board@, game.board@.len());
    lemma_sorted_pawns(s, true, game.white_promo_rank as int);
    lemma_sorted_pawns(s, false, game.black_promo_rank as int);
    assert forall|i: int| 0 <= i < s.len() implies 0 <= #[trigger] phase_term()(s[i]) <= 4 by {}
    lemma_sum_bounds(s, phase_term(), 0, 4);
}

proof fn lemma_active_range(s: Seq<(i64, i64, Piece)>, n: nat)
    requires
        n <= s.len(),
        pieces_in_range(s),
    ensures
        pieces_in_range(active_among(s, n)),
        active_among(s, n).len() <= n,
    decreases n,
{
    if n > 0 {
        lemma_active_range(s, (n - 1) as nat);
        let t = active_among(s, n);
        let u = active_among(s, (n - 1) as nat);
        assert forall|i: int| 0 <= i < t.len() implies in_range(
            (#[trigger] t[i]).0 as int,
            t[i].1 as int,
        ) by {
            if i < u.len() {
                assert(t[i] == u[i]);
            } else {
                assert(t[i] == s[n - 1]);
            }
        }
    }
}

/// Evaluating a position again, with the cache that the first evaluation left,
/// gives the first score.
pub proof fn repeated_evaluation_agrees(
    game: GameState,
    terms: EndgameTerms,
    ctx: EvalContext,
)
    requires
        evaluable(game, terms),
        ctx.wf(),
    ensures
        inner_score(game, terms, cache_after(game, terms, ctx.pawn_cache@, false), false)
            == inner_score(game, terms, ctx.pawn_cache@, false),
        evaluation(game, terms, cache_after(game, terms, ctx.pawn_cache@, false)) == evaluation(
            game,
            terms,
            ctx.pawn_cache@,
        ),
        cache_after(game, terms, cache_after(game, terms, ctx.pawn_cache@, false), false)
            == cache_after(game, terms, ctx.pawn_cache@, false),
{
    let w = counted_white_side(game);
    let b = counted_black_side(game);
    lemma_counted_sides(game, terms);
    lemma_pawn_structure_bounds(w, b);
}

/// Where the cache holds no score for the pawns, tracing does not change the
/// score.
pub proof fn tracing_keeps_the_score(
    game: GameState,
    terms: EndgameTerms,
    cache: Seq<PawnCacheBucket>,
)
    requires
        cached_score(cache, game.pawn_hash) is None,
    ensures
        inner_score(game, terms, cache, true) == inner_score(game, terms, cache, false),
{
}

/// The score is from the point of view of the side to move: the same position
/// with the other side to move has the opposite score.
pub proof fn score_flips_with_the_side_to_move(
    game: GameState,
    other: GameState,
    terms: EndgameTerms,
    cache: Seq<PawnCacheBucket>,
)
    requires
        game.turn is White,
        other == (GameState { turn: PlayerColor::Black, ..game }),
    ensures
        inner_score(other, terms, cache, false) == -inner_score(game, terms, cache, false),
{
}

} // verus!
