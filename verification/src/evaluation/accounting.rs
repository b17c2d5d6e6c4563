//! A score is the material and the terms that are recorded, each to the credit of
//! its side.
use crate::arith::{abs, lemma_sum_bounds, sum_of, tdiv};
use crate::board::PlayerColor;
use crate::evaluation::base::{
    advancement, black_mops_up, counted, counted_black_side, counted_phase, counted_white_side,
    evaluable, evaluation, evaluation_rows, global_tropism, inner_score, king_attack, king_rows,
    piece_metrics, positional_rows, positional_score, setting, shelter, threat_rows, white_mops_up,
    white_score, EndgameTerms,
};
use crate::evaluation::metrics::{minor_threat_term, officers, pawn_threat_term, phase_term};
use crate::evaluation::pawn_cache::{cached_score, PawnCacheBucket};
use crate::evaluation::pawns::{
    doubled_pawns, pawn_rows, pawn_structure, pawn_structure_result, PawnSide,
};
use crate::evaluation::pieces::{bishop_pair, pieces_rows};
use crate::evaluation::tracing::TraceRow;
use crate::evaluation::values::{is_phase, tapered};
use crate::game::GameState;
use vstd::prelude::*;

verus! {

/// The rows that record how much a side loses.
pub open spec fn is_penalty(name: Seq<char>) -> bool {
    name == "Pawn: Doubled"@ || name == "Pawn: Isolated"@ || name == "Pawn: Backward"@
}

/// What a row adds to White's score: White's entry minus Black's, or the other way
/// round where the row records a loss.
pub open spec fn credit() -> spec_fn(TraceRow) -> int {
    |row: TraceRow|
        if is_penalty(row.0) {
            row.2 - row.1
        } else {
            row.1 - row.2
        }
}

proof fn lemma_sum_concat<A>(a: Seq<A>, b: Seq<A>, f: spec_fn(A) -> int)
    ensures
        sum_of(a + b, f) == sum_of(a, f) + sum_of(b, f),
    decreases b.len(),
{
    if b.len() == 0 {
        assert(a + b =~= a);
    } else {
        assert((a + b).drop_last() =~= a + b.drop_last());
        assert((a + b).last() == b.last());
        lemma_sum_concat(a, b.drop_last(), f);
    }
}

/// The terms of pawns that record a loss are not positive.
proof fn lemma_losses(side: PawnSide)
    requires
        is_phase(side.phase),
    ensures
        side.doubled_score() <= 0,
        sum_of(side.own, side.isolated_term()) <= 0,
        sum_of(side.own, side.backward_term()) <= 0,
{
    let s = side.own;
    assert forall|i: int| 0 <= i < s.len() implies -20 <= #[trigger] side.isolated_term()(s[i])
        <= 0 by {}
    lemma_sum_bounds(s, side.isolated_term(), -20, 0);
    assert forall|i: int| 0 <= i < s.len() implies -12 <= #[trigger] side.backward_term()(s[i])
        <= 0 by {}
    lemma_sum_bounds(s, side.backward_term(), -12, 0);
    let n = doubled_pawns(s);
    let penalty = tapered(8, 12, side.phase);
    assert(0 <= n * penalty) by (nonlinear_arith)
        requires
            0 <= n,
            0 <= penalty,
    ;
}

/// Only three rows record losses.
proof fn lemma_names()
    ensures
        is_penalty("Pawn: Doubled"@),
        is_penalty("Pawn: Isolated"@),
        is_penalty("Pawn: Backward"@),
        !is_penalty("Pawn Advancement"@),
        !is_penalty("Mop-up"@),
        !is_penalty("Piece: Activity"@),
        !is_penalty("Piece: Bishop Pair"@),
        !is_penalty("King: Shelter"@),
        !is_penalty("King: Attack"@),
        !is_penalty("Pawn: Passed"@),
        !is_penalty("Pawn: Candidate"@),
        !is_penalty("Pawn: Connected"@),
        !is_penalty("Threats: Pawn"@),
        !is_penalty("Threats: Minor"@),
        !is_penalty("Global Tropism"@),
{
    reveal_strlit("Pawn: Doubled");
    assert("Pawn: Doubled"@.len() == 13);
    reveal_strlit("Pawn: Isolated");
    assert("Pawn: Isolated"@.len() == 14);
    reveal_strlit("Pawn: Backward");
    assert("Pawn: Backward"@.len() == 14);
    reveal_strlit("Pawn Advancement");
    assert("Pawn Advancement"@.len() == 16);
    reveal_strlit("Mop-up");
    assert("Mop-up"@.len() == 6);
    reveal_strlit("Piece: Activity");
    assert("Piece: Activity"@.len() == 15);
    reveal_strlit("Piece: Bishop Pair");
    assert("Piece: Bishop Pair"@.len() == 18);
    reveal_strlit("King: Shelter");
    assert("King: Shelter"@.len() == 13);
    reveal_strlit("King: Attack");
    assert("King: Attack"@.len() == 12);
    reveal_strlit("Pawn: Passed");
    assert("Pawn: Passed"@.len() == 12);
    reveal_strlit("Pawn: Candidate");
    assert("Pawn: Candidate"@.len() == 15);
    reveal_strlit("Pawn: Connected");
    assert("Pawn: Connected"@.len() == 15);
    reveal_strlit("Threats: Pawn");
    assert("Threats: Pawn"@.len() == 13);
    reveal_strlit("Threats: Minor");
    assert("Threats: Minor"@.len() == 14);
    reveal_strlit("Global Tropism");
    assert("Global Tropism"@.len() == 14);
    assert("King: Shelter"@[0] != "Pawn: Doubled"@[0]);
    assert("Threats: Pawn"@[0] != "Pawn: Doubled"@[0]);
    assert("Threats: Minor"@[0] != "Pawn: Isolated"@[0]);
    assert("Threats: Minor"@[0] != "Pawn: Backward"@[0]);
    assert("Global Tropism"@[0] != "Pawn: Isolated"@[0]);
    assert("Global Tropism"@[0] != "Pawn: Backward"@[0]);
}

/// The sum over a few rows, one by one.
proof fn lemma_sum_few(rows: Seq<TraceRow>, f: spec_fn(TraceRow) -> int)
    requires
        rows.len() <= 6,
    ensures
        rows.len() == 1 ==> sum_of(rows, f) == f(rows[0]),
        rows.len() == 2 ==> sum_of(rows, f) == f(rows[0]) + f(rows[1]),
        rows.len() == 3 ==> sum_of(rows, f) == f(rows[0]) + f(rows[1]) + f(rows[2]),
        rows.len() == 6 ==> sum_of(rows, f) == f(rows[0]) + f(rows[1]) + f(rows[2]) + f(rows[3])
            + f(rows[4]) + f(rows[5]),
    decreases rows.len(),
{
    reveal_with_fuel(sum_of, 7);
}

proof fn lemma_pawn_credit(w: PawnSide, b: PawnSide)
    requires
        is_phase(w.phase),
        is_phase(b.phase),
    ensures
        sum_of(pawn_rows(w, b), credit()) == pawn_structure(w, b),
{
    lemma_losses(w);
    lemma_losses(b);
    lemma_names();
    lemma_sum_few(pawn_rows(w, b), credit());
}

/// From White's point of view a score is the material and what every recorded row
/// adds for its side, where the pawns are not taken from the cache.
pub proof fn scores_sum_their_rows(
    game: GameState,
    terms: EndgameTerms,
    cache: Seq<PawnCacheBucket>,
)
    requires
        evaluable(game, terms),
    ensures
        white_score(game, terms, cache, true) == game.material_score + sum_of(
            evaluation_rows(game, terms),
            credit(),
        ),
{
    let w = counted_white_side(game);
    let b = counted_black_side(game);
    let first = seq![("Pawn Advancement"@, advancement(game, true), advancement(game, false))];
    lemma_names();
    lemma_sum_few(first, credit());
    if white_mops_up(game, terms) || black_mops_up(game, terms) {
        let rest = if white_mops_up(game, terms) {
            seq![("Mop-up"@, terms.white_mop_up->0 as int, 0int)]
        } else {
            seq![("Mop-up"@, 0int, terms.black_mop_up->0 as int)]
        };
        lemma_sum_few(rest, credit());
        lemma_sum_concat(first, rest, credit());
    } else {
        let st = setting(game);
        let metrics = piece_metrics(game);
        let pieces = officers(
            counted(game),
        );
        let a = pieces_rows(st, metrics, pieces);
        let k = king_rows(game);
        let p = pawn_rows(w, b);
        let t = threat_rows(game);
        lemma_sum_few(a, credit());
        lemma_sum_few(k, credit());
        lemma_sum_few(t, credit());
        lemma_counted_phase(game);
        lemma_pawn_credit(w, b);
        lemma_sum_concat(a, k, credit());
        lemma_sum_concat(a + k, p, credit());
        lemma_sum_concat(a + k + p, t, credit());
        lemma_sum_concat(first, positional_rows(game), credit());
    }
}

proof fn lemma_counted_phase(game: GameState)
    ensures
        is_phase(counted_phase(game)),
{
    let s = counted(game);
    let f = phase_term();
    assert forall|i: int| 0 <= i < s.len() implies 0 <= #[trigger] f(s[i]) <= 4 by {}
    lemma_sum_bounds(s, f, 0, 4);
}

/// An evaluation is the score for the side to move, without a trace and for a cache
/// that does not know the pawns: material and rows to its credit, and the opposite
/// where Black is to move. Where material is scarce, it is a fraction of that.
pub proof fn evaluations_sum_their_rows(
    game: GameState,
    terms: EndgameTerms,
    cache: Seq<PawnCacheBucket>,
)
    requires
        evaluable(game, terms),
        cached_score(cache, game.pawn_hash) is None,
    ensures
        ({
            let sum = game.material_score + sum_of(evaluation_rows(game, terms), credit());
            let own = if game.turn == PlayerColor::Black {
                -sum
            } else {
                sum
            };
            let r = evaluation(game, terms, cache);
            &&& terms.insufficient is None ==> r == own
            &&& terms.insufficient matches Some(d) ==> if d == 0 {
                r == 0
            } else {
                abs(r) * abs(d as int) <= abs(own) < (abs(r) + 1) * abs(d as int) && (d > 0 ==> r
                    * own >= 0)
            }
        }),
{
    scores_sum_their_rows(game, terms, cache);
    if let Some(d) = terms.insufficient {
        if d != 0 {
            let own = inner_score(game, terms, cache, false);
            lemma_quotient(own, d as int);
        }
    }
}

proof fn lemma_quotient(a: int, d: int)
    requires
        d != 0,
    ensures
        abs(tdiv(a, d)) * abs(d) <= abs(a) < (abs(tdiv(a, d)) + 1) * abs(d),
        d > 0 ==> tdiv(a, d) * a >= 0,
{
    let m = abs(a);
    let n = abs(d);
    let q = m / n;
    assert(0 <= q && q * n <= m < (q + 1) * n) by (nonlinear_arith)
        requires
            q == m / n,
            0 <= m,
            0 < n,
    ;
    assert(abs(tdiv(a, d)) == q);
    if d > 0 {
        assert(q * m >= 0) by (nonlinear_arith)
            requires
                q >= 0,
                m >= 0,
        ;
        if a < 0 {
            assert((-q) * (-m) == q * m) by (nonlinear_arith);
        }
    }
}

/// Two positions that differ in nothing else but their pawns' advancement differ by
/// just that: White's counts for White and Black's for Black.
pub proof fn advancement_counts_for_its_side(
    game: GameState,
    other: GameState,
    terms: EndgameTerms,
    cache: Seq<PawnCacheBucket>,
    active: bool,
)
    requires
        game.material_score == other.material_score,
        game.pawn_hash == other.pawn_hash,
        white_mops_up(game, terms) == white_mops_up(other, terms),
        black_mops_up(game, terms) == black_mops_up(other, terms),
        forall|pawns: int| #[trigger]
            positional_score(game, pawns) == positional_score(other, pawns),
        pawn_structure_result(
            cache,
            active,
            game.pawn_hash,
            counted_white_side(game),
            counted_black_side(game),
        ) == pawn_structure_result(
            cache,
            active,
            other.pawn_hash,
            counted_white_side(other),
            counted_black_side(other),
        ),
    ensures
        white_score(game, terms, cache, active) - white_score(other, terms, cache, active) == (
        advancement(game, true) - advancement(other, true)) - (advancement(game, false)
            - advancement(other, false)),
{
}

/// Every term counts for the side that has it: what White has is added, and what Black
/// has is taken off.
pub proof fn terms_count_for_their_side(
    game: GameState,
    terms: EndgameTerms,
    cache: Seq<PawnCacheBucket>,
)
    ensures
        ({
            let s = counted(game);
            let start = game.material_score + advancement(game, true) - advancement(game, false);
            let pairs = bishop_pair(
                piece_metrics(game).white_bishops as int,
                piece_metrics(game).white_bishop_colors,
                setting(game).phase,
            ) - bishop_pair(
                piece_metrics(game).black_bishops as int,
                piece_metrics(game).black_bishop_colors,
                setting(game).phase,
            );
            let activity = sum_of(officers(s), setting(game).activity_term(true)) - sum_of(
                officers(s),
                setting(game).activity_term(false),
            );
            let threats = sum_of(s, pawn_threat_term(game.board@, true)) - sum_of(
                s,
                pawn_threat_term(game.board@, false),
            ) + sum_of(s, minor_threat_term(game.board@, true)) - sum_of(
                s,
                minor_threat_term(game.board@, false),
            );
            let score = white_score(game, terms, cache, true);
            &&& white_mops_up(game, terms) ==> score == start + terms.white_mop_up->0
            &&& black_mops_up(game, terms) ==> score == start - terms.black_mop_up->0
            &&& !white_mops_up(game, terms) && !black_mops_up(game, terms) ==> score == start
                + activity + pairs + shelter(game, true) - shelter(game, false) + king_attack(
                game,
                true,
            ) - king_attack(game, false) + counted_white_side(game).score() - counted_black_side(
                game,
            ).score() + threats + global_tropism(game, true) - global_tropism(game, false)
        }),
{
}

} // verus!
