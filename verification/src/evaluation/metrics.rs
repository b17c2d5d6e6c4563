//! What one look over all pieces yields: material phase, the centre of the
//! piece cloud, threats, activity around the kings, pawn advancement and the
//! rays from the kings. Each figure is a sum over the pieces of a term of its
//! own.
use crate::arith::{
    abs, abs_i64, cheb, cheb_i64, clamp, clamp_i64, lemma_sum_step, max, max_i32, min, min_i32,
    sum_of, tdiv, trem,
};
use crate::board::{piece_at, Board, Coordinate, Piece, PieceType, PlayerColor};
use crate::evaluation::buffers::{PieceList, SquareList};
use crate::evaluation::king_safety::KingRay;
use crate::evaluation::pawns::{pawn_list, pieces_in_range};
use crate::evaluation::pieces::king_in_range;
use crate::evaluation::values::{
    centrality_weight, diag_slider, get_centrality_weight, get_piece_phase, get_piece_value,
    in_range, is_diag_slider, is_ortho_slider, of_side, ortho_slider, piece_is_white, piece_phase,
    piece_value, COORD_LIMIT, MAX_PIECES, PROMO_LIMIT,
};
use crate::game::{started_on, GameState};
use vstd::prelude::*;

verus! {

pub const ATTACK_ZONE_RADIUS: i64 = 10;

/// A piece draws the centre of the cloud at most this far from the reference
/// point, so that outliers do not dominate it.
pub const CLOUD_CENTER_MAX_SKEW_DIST: i64 = 16;

pub const PAWN_THREATENS_MINOR: i32 = 25;

pub const PAWN_THREATENS_ROOK: i32 = 40;

pub const PAWN_THREATENS_QUEEN: i32 = 60;

pub const MINOR_THREATENS_ROOK: i32 = 20;

pub const MINOR_THREATENS_QUEEN: i32 = 35;

pub const QUEEN_THREAT: i32 = 40;

pub const ROOK_THREAT: i32 = 15;

pub const BISHOP_THREAT: i32 = 10;

pub const KNIGHTRIDER_THREAT: i32 = 8;

pub const MINOR_THREAT: i32 = 3;

/// Pawns within this many ranks of promotion count in full.
pub const PAWN_FULL_VALUE_THRESHOLD: i64 = 6;

pub const PAWN_PAST_PROMO_PENALTY: i32 = 90;

pub const PAWN_FAR_FROM_PROMO_PENALTY: i32 = 50;

/// Pieces that are not White's or Black's count only in a tile of eight by
/// eight squares that holds one of White's or Black's.
pub open spec fn same_tile(a: (i64, i64, Piece), b: (i64, i64, Piece)) -> bool {
    a.0 as int / 8 == b.0 as int / 8 && a.1 as int / 8 == b.1 as int / 8
}

/// Whether piece `p` stands in a tile of `s` that holds a piece of White or
/// Black.
pub open spec fn in_active_tile(s: Seq<(i64, i64, Piece)>, p: (i64, i64, Piece)) -> bool {
    exists|j: int|
        0 <= j < s.len() && same_tile(#[trigger] s[j], p) && !(s[j].2.color is Neutral)
}

/// Those of the first `n` pieces that stand in an active tile, in order.
pub open spec fn active_among(s: Seq<(i64, i64, Piece)>, n: nat) -> Seq<(i64, i64, Piece)>
    decreases n,
{
    if n == 0 {
        Seq::empty()
    } else if in_active_tile(s, s[n - 1]) {
        active_among(s, (n - 1) as nat).push(s[n - 1])
    } else {
        active_among(s, (n - 1) as nat)
    }
}

/// The pieces that evaluation counts.
pub open spec fn active_pieces(s: Seq<(i64, i64, Piece)>) -> Seq<(i64, i64, Piece)> {
    active_among(s, s.len())
}

/// The number of the tile column or row of a coordinate.
fn tile_of(c: i64) -> (r: i64)
    ensures
        r == c as int / 8,
{
    assert((c >> 3) == c / 8) by (bit_vector);
    c >> 3
}

fn is_in_active_tile(board: &Board, p: (i64, i64, Piece)) -> (r: bool)
    ensures
        r == in_active_tile(board@, p),
{
    let tx: i64 = tile_of(p.0);
    let ty: i64 = tile_of(p.1);
    let mut j: usize = 0;
    while j < board.pieces.len()
        invariant
            j <= board@.len(),
            tx == p.0 as int / 8,
            ty == p.1 as int / 8,
            forall|k: int|
                0 <= k < j ==> !(same_tile(#[trigger] board@[k], p) && !(
                board@[k].2.color is Neutral)),
        decreases board@.len() - j,
    {
        let q = board.pieces[j];
        if tile_of(q.0) == tx && tile_of(q.1) == ty && q.2.color != PlayerColor::Neutral {
            assert(same_tile(board@[j as int], p));
            return true;
        }
        j += 1;
    }
    false
}

/// Collects the pieces that evaluation counts.
pub fn collect_active(board: &Board) -> (r: PieceList)
    requires
        pieces_in_range(board@),
    ensures
        r@ == active_pieces(board@),
        pieces_in_range(r@),
{
    let mut r = PieceList::new();
    let mut i: usize = 0;
    while i < board.pieces.len()
        invariant
            i <= board@.len(),
            pieces_in_range(board@),
            r@ == active_among(board@, i as nat),
            r@.len() <= i,
            forall|k: int|
                0 <= k < r@.len() ==> in_range((#[trigger] r@[k]).0 as int, r@[k].1 as int),
        decreases board@.len() - i,
    {
        let p = board.pieces[i];
        assert(board@[i as int] == p);
        if p.2.color != PlayerColor::Neutral {
            assert(same_tile(board@[i as int], p));
            assert(in_active_tile(board@, p));
            r.push(p);
        } else if is_in_active_tile(board, p) {
            r.push(p);
        }
        i += 1;
    }
    r
}

/// The pieces other than pawns, in order.
pub open spec fn officers(s: Seq<(i64, i64, Piece)>) -> Seq<(i64, i64, Piece)>
    decreases s.len(),
{
    if s.len() == 0 {
        Seq::empty()
    } else if s.last().2.piece_type is Pawn {
        officers(s.drop_last())
    } else {
        officers(s.drop_last()).push(s.last())
    }
}

pub fn collect_officers(pieces: &[(i64, i64, Piece)]) -> (r: PieceList)
    requires
        pieces_in_range(pieces@),
    ensures
        r@ == officers(pieces@),
        pieces_in_range(r@),
{
    let mut r = PieceList::new();
    let mut i: usize = 0;
    while i < pieces.len()
        invariant
            i <= pieces@.len(),
            pieces_in_range(pieces@),
            r@ == officers(pieces@.take(i as int)),
            r@.len() <= i,
            forall|k: int|
                0 <= k < r@.len() ==> in_range((#[trigger] r@[k]).0 as int, r@[k].1 as int),
        decreases pieces@.len() - i,
    {
        let p = pieces[i];
        assert(pieces@[i as int] == p);
        assert(pieces@.take(i + 1).drop_last() =~= pieces@.take(i as int));
        assert(pieces@.take(i + 1).last() == p);
        if p.2.piece_type != PieceType::Pawn {
            r.push(p);
        }
        i += 1;
    }
    assert(pieces@.take(i as int) =~= pieces@);
    r
}

/// The kinds of pieces that support pawns from behind.
pub open spec fn file_supporter(pt: PieceType) -> bool {
    pt is Rook || pt is Queen || pt is Amazon || pt is Chancellor || pt is RoyalQueen
}

/// The squares of a side's rooks and queens, in order.
pub open spec fn supporters(s: Seq<(i64, i64, Piece)>, white: bool) -> Seq<(i64, i64)>
    decreases s.len(),
{
    if s.len() == 0 {
        Seq::empty()
    } else if file_supporter(s.last().2.piece_type) && of_side(s.last().2, white) {
        supporters(s.drop_last(), white).push((s.last().0, s.last().1))
    } else {
        supporters(s.drop_last(), white)
    }
}

pub fn collect_supporters(pieces: &[(i64, i64, Piece)], white: bool) -> (r: SquareList)
    requires
        pieces_in_range(pieces@),
    ensures
        r@ == supporters(pieces@, white),
{
    let mut r = SquareList::new();
    let mut i: usize = 0;
    while i < pieces.len()
        invariant
            i <= pieces@.len(),
            pieces@.len() <= MAX_PIECES,
            r@ == supporters(pieces@.take(i as int), white),
            r@.len() <= i,
        decreases pieces@.len() - i,
    {
        let (x, y, piece) = pieces[i];
        assert(pieces@.take(i + 1).drop_last() =~= pieces@.take(i as int));
        assert(pieces@.take(i + 1).last() == (x, y, piece));
        let supports = matches!(
            piece.piece_type,
            PieceType::Rook
                | PieceType::Queen
                | PieceType::Amazon
                | PieceType::Chancellor
                | PieceType::RoyalQueen
        );
        if supports && piece_is_white(piece) == white {
            r.push((x, y));
        }
        i += 1;
    }
    assert(pieces@.take(i as int) =~= pieces@);
    r
}

/// The point around which the piece cloud is measured: between the kings, or
/// the one king there is, or the origin.
pub open spec fn cloud_reference(
    white_king: Option<Coordinate>,
    black_king: Option<Coordinate>,
) -> (int, int) {
    match (white_king, black_king) {
        (Some(w), Some(b)) => (midpoint(w.x as int, b.x as int), midpoint(w.y as int, b.y as int)),
        (Some(w), None) => (w.x as int, w.y as int),
        (None, Some(b)) => (b.x as int, b.y as int),
        (None, None) => (0, 0),
    }
}

/// Half of each coordinate, and half of what the halves leave over.
pub open spec fn midpoint(a: int, b: int) -> int {
    tdiv(a, 2) + tdiv(b, 2) + tdiv(trem(a, 2) + trem(b, 2), 2)
}

fn midpoint_of(a: i64, b: i64) -> (r: i64)
    requires
        -COORD_LIMIT <= a <= COORD_LIMIT,
        -COORD_LIMIT <= b <= COORD_LIMIT,
    ensures
        r == midpoint(a as int, b as int),
        -COORD_LIMIT <= r <= COORD_LIMIT,
{
    a / 2 + b / 2 + (a % 2 + b % 2) / 2
}

pub fn cloud_reference_of(
    white_king: &Option<Coordinate>,
    black_king: &Option<Coordinate>,
) -> (r: (i64, i64))
    requires
        king_in_range(*white_king),
        king_in_range(*black_king),
    ensures
        (r.0 as int, r.1 as int) == cloud_reference(*white_king, *black_king),
        in_range(r.0 as int, r.1 as int),
{
    match (white_king, black_king) {
        (Some(w), Some(b)) => (midpoint_of(w.x, b.x), midpoint_of(w.y, b.y)),
        (Some(w), None) => (w.x, w.y),
        (None, Some(b)) => (b.x, b.y),
        (None, None) => (0, 0),
    }
}

/// The weight with which a piece draws the cloud.
pub open spec fn cloud_weight() -> spec_fn((i64, i64, Piece)) -> int {
    |p: (i64, i64, Piece)| centrality_weight(p.2.piece_type)
}

/// How far a piece draws the cloud along `x`.
pub open spec fn cloud_pull_x(ref_x: int) -> spec_fn((i64, i64, Piece)) -> int {
    |p: (i64, i64, Piece)|
        centrality_weight(p.2.piece_type) * clamp(
            p.0 - ref_x,
            -CLOUD_CENTER_MAX_SKEW_DIST,
            CLOUD_CENTER_MAX_SKEW_DIST as int,
        )
}

/// How far a piece draws the cloud along `y`.
pub open spec fn cloud_pull_y(ref_y: int) -> spec_fn((i64, i64, Piece)) -> int {
    |p: (i64, i64, Piece)|
        centrality_weight(p.2.piece_type) * clamp(
            p.1 - ref_y,
            -CLOUD_CENTER_MAX_SKEW_DIST,
            CLOUD_CENTER_MAX_SKEW_DIST as int,
        )
}

/// The weighted centre of the pieces, where any has weight.
pub open spec fn cloud_center(
    s: Seq<(i64, i64, Piece)>,
    white_king: Option<Coordinate>,
    black_king: Option<Coordinate>,
) -> Option<Coordinate> {
    let (rx, ry) = cloud_reference(white_king, black_king);
    let weight = sum_of(s, cloud_weight());
    if weight > 0 {
        Some(
            Coordinate {
                x: (rx + tdiv(sum_of(s, cloud_pull_x(rx)), weight)) as i64,
                y: (ry + tdiv(sum_of(s, cloud_pull_y(ry)), weight)) as i64,
            },
        )
    } else {
        None
    }
}

fn average(sum: i64, weight: i64) -> (r: i64)
    requires
        0 < weight,
        -16 * weight <= sum <= 16 * weight,
        weight <= 200_000_000,
    ensures
        r == tdiv(sum as int, weight as int),
        -16 <= r <= 16,
{
    let r: i64 = sum / weight;
    let ghost q = abs(sum as int) / (weight as int);
    assert(0 <= q <= 16) by (nonlinear_arith)
        requires
            0 < weight,
            -16 * weight <= sum <= 16 * weight,
            q == abs(sum as int) / (weight as int),
    {
        let s = abs(sum as int);
        let w = weight as int;
        assert(s / w <= 16) by (nonlinear_arith)
            requires
                0 <= s <= 16 * w,
                0 < w,
        ;
        assert(s / w >= 0) by (nonlinear_arith)
            requires
                0 <= s,
                0 < w,
        ;
    }
    r
}

pub fn compute_cloud_center(
    pieces: &[(i64, i64, Piece)],
    white_king: &Option<Coordinate>,
    black_king: &Option<Coordinate>,
) -> (r: Option<Coordinate>)
    requires
        pieces_in_range(pieces@),
        king_in_range(*white_king),
        king_in_range(*black_king),
    ensures
        r == cloud_center(pieces@, *white_king, *black_king),
        r matches Some(c) ==> -COORD_LIMIT - 16 <= c.x <= COORD_LIMIT + 16 && -COORD_LIMIT - 16
            <= c.y <= COORD_LIMIT + 16,
{
    let (ref_x, ref_y) = cloud_reference_of(white_king, black_king);
    let mut sum_dx: i64 = 0;
    let mut sum_dy: i64 = 0;
    let mut count: i64 = 0;
    let mut i: usize = 0;
    while i < pieces.len()
        invariant
            i <= pieces@.len(),
            pieces_in_range(pieces@),
            in_range(ref_x as int, ref_y as int),
            sum_dx == sum_of(pieces@.take(i as int), cloud_pull_x(ref_x as int)),
            sum_dy == sum_of(pieces@.take(i as int), cloud_pull_y(ref_y as int)),
            count == sum_of(pieces@.take(i as int), cloud_weight()),
            0 <= count <= 2000 * i,
            -16 * count <= sum_dx <= 16 * count,
            -16 * count <= sum_dy <= 16 * count,
        decreases pieces@.len() - i,
    {
        let (x, y, piece) = pieces[i];
        assert(pieces@[i as int] == (x, y, piece));
        proof {
            lemma_sum_step(pieces@, i as int, cloud_pull_x(ref_x as int));
            lemma_sum_step(pieces@, i as int, cloud_pull_y(ref_y as int));
            lemma_sum_step(pieces@, i as int, cloud_weight());
        }
        let weight: i64 = get_centrality_weight(piece.piece_type);
        let cdx: i64 = clamp_i64(
            x - ref_x,
            -CLOUD_CENTER_MAX_SKEW_DIST,
            CLOUD_CENTER_MAX_SKEW_DIST,
        );
        let cdy: i64 = clamp_i64(
            y - ref_y,
            -CLOUD_CENTER_MAX_SKEW_DIST,
            CLOUD_CENTER_MAX_SKEW_DIST,
        );
        assert(-16 * weight <= weight * cdx <= 16 * weight) by (nonlinear_arith)
            requires
                0 <= weight,
                -16 <= cdx <= 16,
        ;
        assert(-16 * weight <= weight * cdy <= 16 * weight) by (nonlinear_arith)
            requires
                0 <= weight,
                -16 <= cdy <= 16,
        ;
        sum_dx += weight * cdx;
        sum_dy += weight * cdy;
        count += weight;
        i += 1;
    }
    assert(pieces@.take(i as int) =~= pieces@);
    if count > 0 {
        let ax: i64 = average(sum_dx, count);
        let ay: i64 = average(sum_dy, count);
        Some(Coordinate { x: ref_x + ax, y: ref_y + ay })
    } else {
        None
    }
}

/// What a piece adds to the phase.
pub open spec fn phase_term() -> spec_fn((i64, i64, Piece)) -> int {
    |p: (i64, i64, Piece)| piece_phase(p.2.piece_type)
}

/// Counts the pieces that are neither pawns nor royal.
pub open spec fn soldier_term() -> spec_fn((i64, i64, Piece)) -> int {
    |p: (i64, i64, Piece)|
        if p.2.piece_type is Pawn || p.2.piece_type.royal() {
            0
        } else {
            1
        }
}

/// The phase of the pieces and the number of those neither pawns nor royal.
pub fn count_phase(pieces: &[(i64, i64, Piece)]) -> (r: (i32, i32))
    requires
        pieces@.len() <= MAX_PIECES,
    ensures
        r.0 == sum_of(pieces@, phase_term()),
        r.1 == sum_of(pieces@, soldier_term()),
        0 <= r.0 <= 4 * MAX_PIECES,
        0 <= r.1 <= MAX_PIECES,
{
    let mut phase: i32 = 0;
    let mut soldiers: i32 = 0;
    let mut i: usize = 0;
    while i < pieces.len()
        invariant
            i <= pieces@.len(),
            pieces@.len() <= MAX_PIECES,
            phase == sum_of(pieces@.take(i as int), phase_term()),
            soldiers == sum_of(pieces@.take(i as int), soldier_term()),
            0 <= phase <= 4 * i,
            0 <= soldiers <= i,
        decreases pieces@.len() - i,
    {
        let pt = pieces[i].2.piece_type;
        assert(pieces@[i as int].2.piece_type == pt);
        proof {
            lemma_sum_step(pieces@, i as int, phase_term());
            lemma_sum_step(pieces@, i as int, soldier_term());
        }
        phase += get_piece_phase(pt);
        if pt != PieceType::Pawn && !pt.is_royal() {
            soldiers += 1;
        }
        i += 1;
    }
    assert(pieces@.take(i as int) =~= pieces@);
    (phase, soldiers)
}

/// Counts a side's sliders near the enemy king.
pub open spec fn zone_term(white: bool, enemy_king: Option<Coordinate>) -> spec_fn(
    (i64, i64, Piece),
) -> int {
    |p: (i64, i64, Piece)|
        {
            let pt = p.2.piece_type;
            let slider = diag_slider(pt) || ortho_slider(pt) || pt is Knightrider;
            match enemy_king {
                Some(k) => if slider && of_side(p.2, white) && abs(p.0 - k.x) <= ATTACK_ZONE_RADIUS
                    && abs(p.1 - k.y) <= ATTACK_ZONE_RADIUS {
                    1
                } else {
                    0
                },
                None => 0,
            }
        }
}

/// Nearness to a king, weighed by value; the distance is taken as a 32-bit
/// number.
pub open spec fn tropism(value: int, dist: int) -> int {
    tdiv(value, (dist as i32) as int + 10)
}

/// The divisor of [`tropism`] is a 32-bit number other than zero.
pub open spec fn tropism_defined(s: Seq<(i64, i64, Piece)>, king: Option<Coordinate>) -> bool {
    king matches Some(k) ==> forall|i: int|
        0 <= i < s.len() && !((#[trigger] s[i]).2.piece_type is Pawn)
            && !s[i].2.piece_type.royal() ==> {
            let d = (cheb(s[i].0 as int, s[i].1 as int, k.x as int, k.y as int) as i32) as int;
            d + 10 != 0 && d + 10 <= i32::MAX
        }
}

/// A side's nearness to the enemy king.
pub open spec fn attack_tropism_term(white: bool, king: Option<Coordinate>) -> spec_fn(
    (i64, i64, Piece),
) -> int {
    |p: (i64, i64, Piece)|
        match king {
            Some(k) => if of_side(p.2, white) && !(p.2.piece_type is Pawn)
                && !p.2.piece_type.royal() {
                tropism(
                    piece_value(p.2.piece_type),
                    cheb(p.0 as int, p.1 as int, k.x as int, k.y as int),
                )
            } else {
                0
            },
            None => 0,
        }
}

/// A side's nearness to its own king; expensive pieces count no more than 350.
pub open spec fn defense_tropism_term(white: bool, king: Option<Coordinate>) -> spec_fn(
    (i64, i64, Piece),
) -> int {
    |p: (i64, i64, Piece)|
        match king {
            Some(k) => if of_side(p.2, white) && !(p.2.piece_type is Pawn)
                && !p.2.piece_type.royal() {
                tropism(
                    min(piece_value(p.2.piece_type), 350),
                    cheb(p.0 as int, p.1 as int, k.x as int, k.y as int),
                )
            } else {
                0
            },
            None => 0,
        }
}

fn tropism_of(value: i32, dist: i64) -> (r: i32)
    requires
        0 <= value <= 1600,
        (dist as i32) as int + 10 != 0,
        (dist as i32) as int + 10 <= i32::MAX,
    ensures
        r == tropism(value as int, dist as int),
        -value <= r <= value,
{
    let d: i32 = #[verifier::truncate]
    (dist as i32);
    let b: i32 = d + 10;
    let size: i32 = if b > 0 {
        b
    } else {
        -b
    };
    assert(0 <= value as int / size as int <= value) by (nonlinear_arith)
        requires
            0 <= value,
            1 <= size,
    ;
    let quotient: i32 = value / size;
    if b > 0 {
        quotient
    } else {
        -quotient
    }
}

/// A side's presence around the kings.
pub struct KingPresence {
    pub sliders_in_zone: i32,
    pub attacking_tropism: i32,
    pub defensive_tropism: i32,
}

pub fn tally_presence(
    pieces: &[(i64, i64, Piece)],
    white: bool,
    own_king: &Option<Coordinate>,
    enemy_king: &Option<Coordinate>,
) -> (r: KingPresence)
    requires
        pieces_in_range(pieces@),
        king_in_range(*own_king),
        king_in_range(*enemy_king),
        tropism_defined(pieces@, *own_king),
        tropism_defined(pieces@, *enemy_king),
    ensures
        r.sliders_in_zone == sum_of(pieces@, zone_term(white, *enemy_king)),
        r.attacking_tropism == sum_of(pieces@, attack_tropism_term(white, *enemy_king)),
        r.defensive_tropism == sum_of(pieces@, defense_tropism_term(white, *own_king)),
        0 <= r.sliders_in_zone <= MAX_PIECES,
        -1600 * MAX_PIECES <= r.attacking_tropism <= 1600 * MAX_PIECES,
        -350 * MAX_PIECES <= r.defensive_tropism <= 350 * MAX_PIECES,
{
    let mut zone: i32 = 0;
    let mut attack: i32 = 0;
    let mut defense: i32 = 0;
    let mut i: usize = 0;
    while i < pieces.len()
        invariant
            i <= pieces@.len(),
            pieces_in_range(pieces@),
            king_in_range(*own_king),
            king_in_range(*enemy_king),
            tropism_defined(pieces@, *own_king),
            tropism_defined(pieces@, *enemy_king),
            zone == sum_of(pieces@.take(i as int), zone_term(white, *enemy_king)),
            attack == sum_of(pieces@.take(i as int), attack_tropism_term(white, *enemy_king)),
            defense == sum_of(pieces@.take(i as int), defense_tropism_term(white, *own_king)),
            0 <= zone <= i,
            -1600 * i <= attack <= 1600 * i,
            -350 * i <= defense <= 350 * i,
        decreases pieces@.len() - i,
    {
        let (x, y, piece) = pieces[i];
        let pt = piece.piece_type;
        assert(pieces@[i as int] == (x, y, piece));
        proof {
            lemma_sum_step(pieces@, i as int, zone_term(white, *enemy_king));
            lemma_sum_step(pieces@, i as int, attack_tropism_term(white, *enemy_king));
            lemma_sum_step(pieces@, i as int, defense_tropism_term(white, *own_king));
        }
        if piece_is_white(piece) == white {
            let soldier = pt != PieceType::Pawn && !pt.is_royal();
            let value: i32 = get_piece_value(pt);
            if let Some(k) = enemy_king {
                let slider = is_diag_slider(pt) || is_ortho_slider(pt) || pt
                    == PieceType::Knightrider;
                if slider && abs_i64(x - k.x) <= ATTACK_ZONE_RADIUS && abs_i64(y - k.y)
                    <= ATTACK_ZONE_RADIUS {
                    zone += 1;
                }
                if soldier {
                    attack += tropism_of(value, cheb_i64(x, y, k.x, k.y));
                }
            }
            if let Some(k) = own_king {
                if soldier {
                    defense += tropism_of(min_i32(value, 350), cheb_i64(x, y, k.x, k.y));
                }
            }
        }
        i += 1;
    }
    assert(pieces@.take(i as int) =~= pieces@);
    KingPresence { sliders_in_zone: zone, attacking_tropism: attack, defensive_tropism: defense }
}

/// What a pawn gains by attacking the piece on `(x, y)`, if it is `enemy`'s.
pub open spec fn pawn_threat_at(
    board: Seq<(i64, i64, Piece)>,
    x: int,
    y: int,
    enemy: PlayerColor,
) -> int {
    match piece_at(board, x, y) {
        Some(t) => if t.color != enemy {
            0
        } else if piece_value(t.piece_type) >= 600 {
            PAWN_THREATENS_QUEEN as int
        } else if piece_value(t.piece_type) >= 400 {
            PAWN_THREATENS_ROOK as int
        } else if piece_value(t.piece_type) >= 200 {
            PAWN_THREATENS_MINOR as int
        } else {
            0
        },
        None => 0,
    }
}

/// What a knight-like piece of value `own` gains by attacking a more valuable
/// piece on `(x, y)`.
pub open spec fn minor_threat_at(
    board: Seq<(i64, i64, Piece)>,
    x: int,
    y: int,
    enemy: PlayerColor,
    own: int,
) -> int {
    match piece_at(board, x, y) {
        Some(t) => if t.color != enemy {
            0
        } else if piece_value(t.piece_type) >= 600 && own < 600 {
            MINOR_THREATENS_QUEEN as int
        } else if piece_value(t.piece_type) >= 400 && own < 400 {
            MINOR_THREATENS_ROOK as int
        } else {
            0
        },
        None => 0,
    }
}

/// The color that a side attacks.
pub open spec fn enemy_color(white: bool) -> PlayerColor {
    if white {
        PlayerColor::Black
    } else {
        PlayerColor::White
    }
}

/// The threats by a side's pawns.
pub open spec fn pawn_threat_term(board: Seq<(i64, i64, Piece)>, white: bool) -> spec_fn(
    (i64, i64, Piece),
) -> int {
    |p: (i64, i64, Piece)|
        if p.2.piece_type is Pawn && of_side(p.2, white) {
            let y = if white {
                p.1 + 1
            } else {
                p.1 - 1
            };
            pawn_threat_at(board, p.0 - 1, y, enemy_color(white)) + pawn_threat_at(
                board,
                p.0 + 1,
                y,
                enemy_color(white),
            )
        } else {
            0
        }
}

pub open spec fn knight_like(pt: PieceType) -> bool {
    pt is Knight || pt is Centaur || pt is RoyalCentaur
}

/// The threats by a side's pieces that move like knights.
pub open spec fn minor_threat_term(board: Seq<(i64, i64, Piece)>, white: bool) -> spec_fn(
    (i64, i64, Piece),
) -> int {
    |p: (i64, i64, Piece)|
        if knight_like(p.2.piece_type) && of_side(p.2, white) {
            let e = enemy_color(white);
            let v = piece_value(p.2.piece_type);
            minor_threat_at(board, p.0 + 2, p.1 + 1, e, v) + minor_threat_at(
                board,
                p.0 + 2,
                p.1 - 1,
                e,
                v,
            ) + minor_threat_at(board, p.0 - 2, p.1 + 1, e, v) + minor_threat_at(
                board,
                p.0 - 2,
                p.1 - 1,
                e,
                v,
            ) + minor_threat_at(board, p.0 + 1, p.1 + 2, e, v) + minor_threat_at(
                board,
                p.0 + 1,
                p.1 - 2,
                e,
                v,
            ) + minor_threat_at(board, p.0 - 1, p.1 + 2, e, v) + minor_threat_at(
                board,
                p.0 - 1,
                p.1 - 2,
                e,
                v,
            )
        } else {
            0
        }
}

fn pawn_threat_of(board: &Board, x: i64, y: i64, enemy: PlayerColor) -> (r: i32)
    requires
        board.wf(),
    ensures
        r == pawn_threat_at(board@, x as int, y as int, enemy),
        0 <= r <= 60,
{
    match board.get_piece(x, y) {
        Some(target) => {
            let tv: i32 = get_piece_value(target.piece_type);
            if target.color != enemy {
                0
            } else if tv >= 600 {
                PAWN_THREATENS_QUEEN
            } else if tv >= 400 {
                PAWN_THREATENS_ROOK
            } else if tv >= 200 {
                PAWN_THREATENS_MINOR
            } else {
                0
            }
        },
        None => 0,
    }
}

fn minor_threat_of(board: &Board, x: i64, y: i64, enemy: PlayerColor, own: i32) -> (r: i32)
    requires
        board.wf(),
    ensures
        r == minor_threat_at(board@, x as int, y as int, enemy, own as int),
        0 <= r <= 35,
{
    match board.get_piece(x, y) {
        Some(target) => {
            let tv: i32 = get_piece_value(target.piece_type);
            if target.color != enemy {
                0
            } else if tv >= 600 && own < 600 {
                MINOR_THREATENS_QUEEN
            } else if tv >= 400 && own < 400 {
                MINOR_THREATENS_ROOK
            } else {
                0
            }
        },
        None => 0,
    }
}

/// A side's threats: by pawns, and by pieces that move like knights.
pub fn tally_threats(board: &Board, pieces: &[(i64, i64, Piece)], white: bool) -> (r: (i32, i32))
    requires
        board.wf(),
        pieces_in_range(pieces@),
    ensures
        r.0 == sum_of(pieces@, pawn_threat_term(board@, white)),
        r.1 == sum_of(pieces@, minor_threat_term(board@, white)),
        0 <= r.0 <= 120 * MAX_PIECES,
        0 <= r.1 <= 280 * MAX_PIECES,
{
    let enemy = if white {
        PlayerColor::Black
    } else {
        PlayerColor::White
    };
    let mut pawn_threats: i32 = 0;
    let mut minor_threats: i32 = 0;
    let mut i: usize = 0;
    while i < pieces.len()
        invariant
            i <= pieces@.len(),
            board.wf(),
            pieces_in_range(pieces@),
            enemy == enemy_color(white),
            pawn_threats == sum_of(pieces@.take(i as int), pawn_threat_term(board@, white)),
            minor_threats == sum_of(pieces@.take(i as int), minor_threat_term(board@, white)),
            0 <= pawn_threats <= 120 * i,
            0 <= minor_threats <= 280 * i,
        decreases pieces@.len() - i,
    {
        let (x, y, piece) = pieces[i];
        let pt = piece.piece_type;
        assert(pieces@[i as int] == (x, y, piece));
        proof {
            lemma_sum_step(pieces@, i as int, pawn_threat_term(board@, white));
            lemma_sum_step(pieces@, i as int, minor_threat_term(board@, white));
        }
        if piece_is_white(piece) == white {
            if pt == PieceType::Pawn {
                let ty: i64 = if white {
                    y + 1
                } else {
                    y - 1
                };
                pawn_threats += pawn_threat_of(board, x - 1, ty, enemy) + pawn_threat_of(
                    board,
                    x + 1,
                    ty,
                    enemy,
                );
            } else if pt == PieceType::Knight || pt == PieceType::Centaur || pt
                == PieceType::RoyalCentaur {
                let v: i32 = get_piece_value(pt);
                minor_threats += minor_threat_of(board, x + 2, y + 1, enemy, v) + minor_threat_of(
                    board,
                    x + 2,
                    y - 1,
                    enemy,
                    v,
                ) + minor_threat_of(board, x - 2, y + 1, enemy, v) + minor_threat_of(
                    board,
                    x - 2,
                    y - 1,
                    enemy,
                    v,
                ) + minor_threat_of(board, x + 1, y + 2, enemy, v) + minor_threat_of(
                    board,
                    x + 1,
                    y - 2,
                    enemy,
                    v,
                ) + minor_threat_of(board, x - 1, y + 2, enemy, v) + minor_threat_of(
                    board,
                    x - 1,
                    y - 2,
                    enemy,
                    v,
                );
            }
        }
        i += 1;
    }
    assert(pieces@.take(i as int) =~= pieces@);
    (pawn_threats, minor_threats)
}

/// Counts a side's knights and bishops on starting squares.
pub open spec fn undeveloped_term(starts: Seq<Coordinate>, white: bool) -> spec_fn(
    (i64, i64, Piece),
) -> int {
    |p: (i64, i64, Piece)|
        if of_side(p.2, white) && (p.2.piece_type is Knight || p.2.piece_type is Bishop)
            && started_on(starts, p.0 as int, p.1 as int) {
            1
        } else {
            0
        }
}

/// Counts a side's bishops.
pub open spec fn bishop_term(white: bool) -> spec_fn((i64, i64, Piece)) -> int {
    |p: (i64, i64, Piece)|
        if of_side(p.2, white) && p.2.piece_type is Bishop {
            1
        } else {
            0
        }
}

/// Whether a side has a bishop on squares whose coordinate sum is even (or
/// odd).
pub open spec fn has_bishop_on(s: Seq<(i64, i64, Piece)>, white: bool, even: bool) -> bool {
    exists|i: int|
        0 <= i < s.len() && of_side((#[trigger] s[i]).2, white) && s[i].2.piece_type is Bishop && (
        ((s[i].0 + s[i].1) % 2 == 0) == even)
}

/// A side's minor pieces.
pub struct MinorCounts {
    pub undeveloped: i32,
    pub bishops: i32,
    pub bishop_colors: (bool, bool),
}

pub fn tally_minors(game: &GameState, pieces: &[(i64, i64, Piece)], white: bool) -> (r: MinorCounts)
    requires
        pieces_in_range(pieces@),
    ensures
        r.undeveloped == sum_of(pieces@, undeveloped_term(game.starting_squares@, white)),
        r.bishops == sum_of(pieces@, bishop_term(white)),
        r.bishop_colors.0 == has_bishop_on(pieces@, white, true),
        r.bishop_colors.1 == has_bishop_on(pieces@, white, false),
        0 <= r.undeveloped <= MAX_PIECES,
        0 <= r.bishops <= MAX_PIECES,
{
    let mut undeveloped: i32 = 0;
    let mut bishops: i32 = 0;
    let mut even = false;
    let mut odd = false;
    let mut i: usize = 0;
    while i < pieces.len()
        invariant
            i <= pieces@.len(),
            pieces_in_range(pieces@),
            undeveloped == sum_of(pieces@.take(i as int), undeveloped_term(game.starting_squares@, white)),
            bishops == sum_of(pieces@.take(i as int), bishop_term(white)),
            even == exists|k: int|
                0 <= k < i && of_side((#[trigger] pieces@[k]).2, white)
                    && pieces@[k].2.piece_type is Bishop && (((pieces@[k].0 + pieces@[k].1) % 2
                    == 0) == true),
            odd == exists|k: int|
                0 <= k < i && of_side((#[trigger] pieces@[k]).2, white)
                    && pieces@[k].2.piece_type is Bishop && (((pieces@[k].0 + pieces@[k].1) % 2
                    == 0) == false),
            0 <= undeveloped <= i,
            0 <= bishops <= i,
        decreases pieces@.len() - i,
    {
        let (x, y, piece) = pieces[i];
        let pt = piece.piece_type;
        assert(pieces@[i as int] == (x, y, piece));
        proof {
            lemma_sum_step(pieces@, i as int, undeveloped_term(game.starting_squares@, white));
            lemma_sum_step(pieces@, i as int, bishop_term(white));
        }
        if piece_is_white(piece) == white {
            if (pt == PieceType::Knight || pt == PieceType::Bishop) && game.is_starting_square(
                x,
                y,
            ) {
                undeveloped += 1;
            }
            if pt == PieceType::Bishop {
                bishops += 1;
                if (x + y) % 2 == 0 {
                    even = true;
                } else {
                    odd = true;
                }
            }
        }
        i += 1;
    }
    assert(pieces@.take(i as int) =~= pieces@);
    MinorCounts { undeveloped, bishops, bishop_colors: (even, odd) }
}

/// Counts a side's sliders on diagonals.
pub open spec fn diag_term(white: bool) -> spec_fn((i64, i64, Piece)) -> int {
    |p: (i64, i64, Piece)|
        if of_side(p.2, white) && diag_slider(p.2.piece_type) {
            1
        } else {
            0
        }
}

/// Counts a side's sliders on ranks and files.
pub open spec fn ortho_term(white: bool) -> spec_fn((i64, i64, Piece)) -> int {
    |p: (i64, i64, Piece)|
        if of_side(p.2, white) && ortho_slider(p.2.piece_type) {
            1
        } else {
            0
        }
}

/// How much a kind of piece threatens the enemy king.
pub open spec fn threat_points(pt: PieceType) -> int {
    if diag_slider(pt) && ortho_slider(pt) {
        QUEEN_THREAT as int
    } else if ortho_slider(pt) {
        ROOK_THREAT as int
    } else if diag_slider(pt) {
        BISHOP_THREAT as int
    } else if pt is Knightrider {
        KNIGHTRIDER_THREAT as int
    } else {
        MINOR_THREAT as int
    }
}

/// The threat points of a side's pieces, pawns and royal pieces left out.
pub open spec fn points_term(white: bool) -> spec_fn((i64, i64, Piece)) -> int {
    |p: (i64, i64, Piece)|
        if of_side(p.2, white) && !(p.2.piece_type is Pawn) && !p.2.piece_type.royal() {
            threat_points(p.2.piece_type)
        } else {
            0
        }
}

/// Whether a side has a piece that moves along all lines and is not royal.
pub open spec fn has_queen(s: Seq<(i64, i64, Piece)>, white: bool) -> bool {
    exists|i: int|
        0 <= i < s.len() && of_side((#[trigger] s[i]).2, white) && !s[i].2.piece_type.royal()
            && diag_slider(s[i].2.piece_type) && ortho_slider(s[i].2.piece_type)
}

/// A side's attackers.
pub struct AttackerCounts {
    /// Sliders on diagonals, and on ranks and files.
    pub sliders: (i32, i32),
    pub threat_points: i32,
    pub has_queen: bool,
}

pub fn tally_attackers(pieces: &[(i64, i64, Piece)], white: bool) -> (r: AttackerCounts)
    requires
        pieces@.len() <= MAX_PIECES,
    ensures
        r.sliders.0 == sum_of(pieces@, diag_term(white)),
        r.sliders.1 == sum_of(pieces@, ortho_term(white)),
        r.threat_points == sum_of(pieces@, points_term(white)),
        r.has_queen == has_queen(pieces@, white),
        0 <= r.sliders.0 <= MAX_PIECES,
        0 <= r.sliders.1 <= MAX_PIECES,
        0 <= r.threat_points <= 40 * MAX_PIECES,
{
    let mut diag: i32 = 0;
    let mut ortho: i32 = 0;
    let mut points: i32 = 0;
    let mut queen = false;
    let mut i: usize = 0;
    while i < pieces.len()
        invariant
            i <= pieces@.len(),
            pieces@.len() <= MAX_PIECES,
            diag == sum_of(pieces@.take(i as int), diag_term(white)),
            ortho == sum_of(pieces@.take(i as int), ortho_term(white)),
            points == sum_of(pieces@.take(i as int), points_term(white)),
            queen == exists|k: int|
                0 <= k < i && of_side((#[trigger] pieces@[k]).2, white)
                    && !pieces@[k].2.piece_type.royal() && diag_slider(pieces@[k].2.piece_type)
                    && ortho_slider(pieces@[k].2.piece_type),
            0 <= diag <= i,
            0 <= ortho <= i,
            0 <= points <= 40 * i,
        decreases pieces@.len() - i,
    {
        let piece = pieces[i].2;
        let pt = piece.piece_type;
        assert(pieces@[i as int].2 == piece);
        proof {
            lemma_sum_step(pieces@, i as int, diag_term(white));
            lemma_sum_step(pieces@, i as int, ortho_term(white));
            lemma_sum_step(pieces@, i as int, points_term(white));
        }
        if piece_is_white(piece) == white {
            let is_diag = is_diag_slider(pt);
            let is_ortho = is_ortho_slider(pt);
            if is_diag {
                diag += 1;
            }
            if is_ortho {
                ortho += 1;
            }
            if !pt.is_royal() && pt != PieceType::Pawn {
                points += if is_diag && is_ortho {
                    queen = true;
                    QUEEN_THREAT
                } else if is_ortho {
                    ROOK_THREAT
                } else if is_diag {
                    BISHOP_THREAT
                } else if pt == PieceType::Knightrider {
                    KNIGHTRIDER_THREAT
                } else {
                    MINOR_THREAT
                };
            }
        }
        i += 1;
    }
    assert(pieces@.take(i as int) =~= pieces@);
    AttackerCounts { sliders: (diag, ortho), threat_points: points, has_queen: queen }
}

/// The ranks that a pawn of a side has to go to promote.
pub open spec fn promo_distance(y: int, white: bool, promo: int) -> int {
    if white {
        promo - y
    } else {
        y - promo
    }
}

/// What a side's pawns short of promotion are worth by their distance to it.
pub open spec fn pawn_bonus_term(white: bool, promo: int) -> spec_fn((i64, i64, Piece)) -> int {
    |p: (i64, i64, Piece)|
        {
            let dist = promo_distance(p.1 as int, white, promo);
            if !(p.2.piece_type is Pawn) || !of_side(p.2, white) || dist <= 0 {
                0
            } else if dist > PAWN_FULL_VALUE_THRESHOLD {
                -PAWN_FAR_FROM_PROMO_PENALTY
            } else {
                (PAWN_FULL_VALUE_THRESHOLD - dist) * 4
            }
        }
}

/// The penalty for a side's pawns past promotion.
pub open spec fn pawn_penalty_term(white: bool, promo: int) -> spec_fn((i64, i64, Piece)) -> int {
    |p: (i64, i64, Piece)|
        if p.2.piece_type is Pawn && of_side(p.2, white) && promo_distance(
            p.1 as int,
            white,
            promo,
        ) <= 0 {
            -PAWN_PAST_PROMO_PENALTY
        } else {
            0
        }
}

/// The bonus and the penalty for a side's pawns by their distance to
/// promotion.
pub fn tally_pawns(pieces: &[(i64, i64, Piece)], white: bool, promo: i64) -> (r: (i32, i32))
    requires
        pieces_in_range(pieces@),
        -PROMO_LIMIT <= promo <= PROMO_LIMIT,
    ensures
        r.0 == sum_of(pieces@, pawn_bonus_term(white, promo as int)),
        r.1 == sum_of(pieces@, pawn_penalty_term(white, promo as int)),
        -50 * MAX_PIECES <= r.0 <= 20 * MAX_PIECES,
        -90 * MAX_PIECES <= r.1 <= 0,
{
    let mut bonus: i32 = 0;
    let mut penalty: i32 = 0;
    let mut i: usize = 0;
    while i < pieces.len()
        invariant
            i <= pieces@.len(),
            pieces_in_range(pieces@),
            -PROMO_LIMIT <= promo <= PROMO_LIMIT,
            bonus == sum_of(pieces@.take(i as int), pawn_bonus_term(white, promo as int)),
            penalty == sum_of(pieces@.take(i as int), pawn_penalty_term(white, promo as int)),
            -50 * i <= bonus <= 20 * i,
            -90 * i <= penalty <= 0,
        decreases pieces@.len() - i,
    {
        let (x, y, piece) = pieces[i];
        assert(pieces@[i as int] == (x, y, piece));
        proof {
            lemma_sum_step(pieces@, i as int, pawn_bonus_term(white, promo as int));
            lemma_sum_step(pieces@, i as int, pawn_penalty_term(white, promo as int));
        }
        if piece.piece_type == PieceType::Pawn && piece_is_white(piece) == white {
            let dist: i64 = if white {
                promo - y
            } else {
                y - promo
            };
            if dist <= 0 {
                penalty -= PAWN_PAST_PROMO_PENALTY;
            } else if dist > PAWN_FULL_VALUE_THRESHOLD {
                bonus -= PAWN_FAR_FROM_PROMO_PENALTY;
            } else {
                bonus += (PAWN_FULL_VALUE_THRESHOLD - dist) as i32 * 4;
            }
        }
        i += 1;
    }
    assert(pieces@.take(i as int) =~= pieces@);
    (bonus, penalty)
}

/// The rank of the farthest advanced pawn.
pub open spec fn front_rank(s: Seq<(i64, i64)>, white: bool) -> Option<i64>
    decreases s.len(),
{
    if s.len() == 0 {
        None
    } else {
        let y = s.last().1;
        match front_rank(s.drop_last(), white) {
            Some(m) => if (white && y > m) || (!white && y < m) {
                Some(y)
            } else {
                Some(m)
            },
            None => Some(y),
        }
    }
}

pub fn find_front_rank(pawns: &[(i64, i64)], white: bool) -> (r: Option<i64>)
    requires
        pawn_list(pawns@),
    ensures
        r == front_rank(pawns@, white),
        r is Some <==> pawns@.len() > 0,
        r matches Some(y) ==> -COORD_LIMIT <= y <= COORD_LIMIT,
{
    let mut front: Option<i64> = None;
    let mut i: usize = 0;
    while i < pawns.len()
        invariant
            i <= pawns@.len(),
            pawn_list(pawns@),
            front == front_rank(pawns@.take(i as int), white),
            front is Some <==> i > 0,
            front matches Some(y) ==> -COORD_LIMIT <= y <= COORD_LIMIT,
        decreases pawns@.len() - i,
    {
        let y: i64 = pawns[i].1;
        assert(pawns@[i as int].1 == y);
        assert(in_range(pawns@[i as int].0 as int, y as int));
        assert(pawns@.take(i + 1).drop_last() =~= pawns@.take(i as int));
        front =
        match front {
            Some(m) => if (white && y > m) || (!white && y < m) {
                Some(y)
            } else {
                Some(m)
            },
            None => Some(y),
        };
        i += 1;
    }
    assert(pawns@.take(i as int) =~= pawns@);
    front
}

/// The bonus for the farthest advanced pawn: 500 next to promotion, 350 one
/// rank before, then 40 for each rank below ten.
pub open spec fn front_bonus(front: Option<i64>, white: bool, promo: int) -> int {
    match front {
        Some(y) => {
            let dist = clamp(promo_distance(y as int, white, promo), 1, 100);
            max(max(500 - (dist - 1) * 150, (10 - dist) * 40), 0)
        },
        None => 0,
    }
}

pub fn front_bonus_of(front: &Option<i64>, white: bool, promo: i64) -> (r: i32)
    requires
        -PROMO_LIMIT <= promo <= PROMO_LIMIT,
        front matches Some(y) ==> -COORD_LIMIT <= *y <= COORD_LIMIT,
    ensures
        r == front_bonus(*front, white, promo as int),
        0 <= r <= 500,
{
    match front {
        Some(y) => {
            let raw: i64 = if white {
                promo - *y
            } else {
                *y - promo
            };
            let dist: i32 = clamp_i64(raw, 1, 100) as i32;
            max_i32(max_i32(500 - (dist - 1) * 150, (10 - dist) * 40), 0)
        },
        None => 0,
    }
}

/// The ray from a king on which a square lies, given its offset: diagonals
/// first, then ranks and files.
pub open spec fn ray_of(dx: int, dy: int) -> Option<int> {
    if dx != 0 && dy == 0 {
        Some(
            if dx > 0 {
                4
            } else {
                5
            },
        )
    } else if dx == 0 && dy != 0 {
        Some(
            if dy > 0 {
                6
            } else {
                7
            },
        )
    } else if abs(dx) == abs(dy) && dx != 0 {
        Some(
            if dx > 0 {
                if dy > 0 {
                    0
                } else {
                    1
                }
            } else {
                if dy > 0 {
                    2
                } else {
                    3
                }
            },
        )
    } else {
        None
    }
}

/// A ray without a piece.
pub open spec fn empty_ray() -> KingRay {
    (i32::MAX, 0, PlayerColor::Neutral, PieceType::Void)
}

/// The nearest piece on ray `i` from a king, by distances taken as 32-bit
/// numbers; of pieces at one distance the first.
pub open spec fn king_ray(s: Seq<(i64, i64, Piece)>, king: Coordinate, i: int) -> KingRay
    decreases s.len(),
{
    if s.len() == 0 {
        empty_ray()
    } else {
        let before = king_ray(s.drop_last(), king, i);
        let p = s.last();
        let dist = cheb(p.0 as int, p.1 as int, king.x as int, king.y as int) as i32;
        if ray_of(p.0 - king.x, p.1 - king.y) == Some(i) && dist < before.0 {
            (dist, piece_value(p.2.piece_type) as i32, p.2.color, p.2.piece_type)
        } else {
            before
        }
    }
}

/// The nearest pieces on the eight rays from a king, where there is a king.
pub open spec fn king_rays(s: Seq<(i64, i64, Piece)>, king: Option<Coordinate>) -> Seq<KingRay> {
    match king {
        Some(k) => Seq::new(8, |i: int| king_ray(s, k, i)),
        None => Seq::new(8, |i: int| empty_ray()),
    }
}

fn find_ray(dx: i64, dy: i64) -> (r: Option<usize>)
    requires
        dx > i64::MIN,
        dy > i64::MIN,
    ensures
        match r {
            Some(i) => i < 8 && ray_of(dx as int, dy as int) == Some(i as int),
            None => ray_of(dx as int, dy as int) is None,
        },
{
    if dx != 0 && dy == 0 {
        Some(
            if dx > 0 {
                4
            } else {
                5
            },
        )
    } else if dx == 0 && dy != 0 {
        Some(
            if dy > 0 {
                6
            } else {
                7
            },
        )
    } else if abs_i64(dx) == abs_i64(dy) && dx != 0 {
        Some(
            if dx > 0 {
                if dy > 0 {
                    0
                } else {
                    1
                }
            } else if dy > 0 {
                2
            } else {
                3
            },
        )
    } else {
        None
    }
}

pub fn find_king_rays(pieces: &[(i64, i64, Piece)], king: &Option<Coordinate>) -> (r: [KingRay; 8])
    requires
        pieces_in_range(pieces@),
        king_in_range(*king),
    ensures
        r@ == king_rays(pieces@, *king),
{
    let mut rays: [KingRay; 8] = [(i32::MAX, 0, PlayerColor::Neutral, PieceType::Void);8];
    let k = match king {
        Some(k) => *k,
        None => {
            assert(rays@ =~= king_rays(pieces@, *king));
            return rays;
        },
    };
    let mut i: usize = 0;
    while i < pieces.len()
        invariant
            i <= pieces@.len(),
            pieces_in_range(pieces@),
            in_range(k.x as int, k.y as int),
            rays@.len() == 8,
            forall|j: int|
                0 <= j < 8 ==> #[trigger] rays@[j] == king_ray(pieces@.take(i as int), k, j),
        decreases pieces@.len() - i,
    {
        let (x, y, piece) = pieces[i];
        assert(pieces@[i as int] == (x, y, piece));
        assert(pieces@.take(i + 1).drop_last() =~= pieces@.take(i as int));
        assert(pieces@.take(i + 1).last() == (x, y, piece));
        let dist: i32 = #[verifier::truncate]
        (cheb_i64(x, y, k.x, k.y) as i32);
        if let Some(ray) = find_ray(x - k.x, y - k.y) {
            if dist < rays[ray].0 {
                rays[ray] =
                (dist, get_piece_value(piece.piece_type), piece.color, piece.piece_type);
            }
        }
        i += 1;
    }
    assert(pieces@.take(i as int) =~= pieces@);
    assert(rays@ =~= king_rays(pieces@, *king));
    rays
}

/// Whether a pawn, a guard or a void of a side stands next to its king.
pub open spec fn ring_covered(
    s: Seq<(i64, i64, Piece)>,
    king: Option<Coordinate>,
    white: bool,
) -> bool {
    king matches Some(k) && exists|i: int|
        0 <= i < s.len() && of_side((#[trigger] s[i]).2, white) && (s[i].2.piece_type is Pawn
            || s[i].2.piece_type is Guard || s[i].2.piece_type is Void) && cheb(
            s[i].0 as int,
            s[i].1 as int,
            k.x as int,
            k.y as int,
        ) == 1
}

pub fn is_ring_covered(
    pieces: &[(i64, i64, Piece)],
    king: &Option<Coordinate>,
    white: bool,
) -> (r: bool)
    requires
        pieces_in_range(pieces@),
        king_in_range(*king),
    ensures
        r == ring_covered(pieces@, *king, white),
{
    let k = match king {
        Some(k) => *k,
        None => {
            return false;
        },
    };
    let mut i: usize = 0;
    while i < pieces.len()
        invariant
            i <= pieces@.len(),
            pieces_in_range(pieces@),
            in_range(k.x as int, k.y as int),
            *king == Some(k),
            forall|j: int|
                0 <= j < i ==> !(of_side((#[trigger] pieces@[j]).2, white) && (
                pieces@[j].2.piece_type is Pawn || pieces@[j].2.piece_type is Guard
                    || pieces@[j].2.piece_type is Void) && cheb(
                    pieces@[j].0 as int,
                    pieces@[j].1 as int,
                    k.x as int,
                    k.y as int,
                ) == 1),
        decreases pieces@.len() - i,
    {
        let (x, y, piece) = pieces[i];
        assert(pieces@[i as int] == (x, y, piece));
        let covers = matches!(
            piece.piece_type,
            PieceType::Pawn | PieceType::Guard | PieceType::Void
        );
        if covers && piece_is_white(piece) == white && cheb_i64(x, y, k.x, k.y) == 1 {
            assert(of_side(pieces@[i as int].2, white));
            return true;
        }
        i += 1;
    }
    false
}

/// A ray shows the nearest piece on it, where one is there: no piece on the ray
/// is nearer. Distances have to fit the 32-bit numbers that rays hold.
pub proof fn king_ray_is_nearest(s: Seq<(i64, i64, Piece)>, king: Coordinate, i: int)
    requires
        forall|k: int|
            0 <= k < s.len() ==> cheb(
                (#[trigger] s[k]).0 as int,
                s[k].1 as int,
                king.x as int,
                king.y as int,
            ) < i32::MAX,
    ensures
        forall|k: int|
            0 <= k < s.len() && ray_of((#[trigger] s[k]).0 - king.x, s[k].1 - king.y) == Some(i)
                ==> king_ray(s, king, i).0 <= cheb(
                s[k].0 as int,
                s[k].1 as int,
                king.x as int,
                king.y as int,
            ),
        king_ray(s, king, i) == empty_ray() || exists|k: int|
            0 <= k < s.len() && ray_of((#[trigger] s[k]).0 - king.x, s[k].1 - king.y) == Some(i)
                && king_ray(s, king, i) == (
                cheb(s[k].0 as int, s[k].1 as int, king.x as int, king.y as int) as i32,
                piece_value(s[k].2.piece_type) as i32,
                s[k].2.color,
                s[k].2.piece_type,
            ),
    decreases s.len(),
{
    if s.len() > 0 {
        let t = s.drop_last();
        assert forall|k: int| 0 <= k < t.len() implies cheb(
            (#[trigger] t[k]).0 as int,
            t[k].1 as int,
            king.x as int,
            king.y as int,
        ) < i32::MAX by {
            assert(t[k] == s[k]);
        }
        king_ray_is_nearest(t, king, i);
        let n = s.len() - 1;
        let p = s[n];
        assert(p == s.last());
        assert(0 <= cheb(p.0 as int, p.1 as int, king.x as int, king.y as int) < i32::MAX);
        assert forall|k: int|
            0 <= k < s.len() && ray_of((#[trigger] s[k]).0 - king.x, s[k].1 - king.y) == Some(
                i,
            ) implies king_ray(s, king, i).0 <= cheb(
            s[k].0 as int,
            s[k].1 as int,
            king.x as int,
            king.y as int,
        ) by {
            if k < n {
                assert(t[k] == s[k]);
            }
        }
        if king_ray(s, king, i) != empty_ray() && king_ray(s, king, i) == king_ray(t, king, i) {
            let k = choose|k: int|
                0 <= k < t.len() && ray_of((#[trigger] t[k]).0 - king.x, t[k].1 - king.y) == Some(
                    i,
                ) && king_ray(t, king, i) == (
                    cheb(t[k].0 as int, t[k].1 as int, king.x as int, king.y as int) as i32,
                    piece_value(t[k].2.piece_type) as i32,
                    t[k].2.color,
                    t[k].2.piece_type,
                );
            assert(s[k] == t[k]);
        }
    }
}

} // verus!
