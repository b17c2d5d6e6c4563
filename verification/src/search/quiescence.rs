//! Quiescence search: captures only, or evasions, until a position is quiet.
use crate::arith::{max, max_i32};
use crate::board::{occupied, Coordinate, Piece};
use crate::game::GameState;
use crate::moves::{Move, MoveList};
use crate::search::decisions::{
    apply_repetition, flag_of, halved, is_score, read_tt, refine_eval, refined, score_without_moves,
    soften_stand_pat, tt_flag, tt_reading, TtView, Window,
};
use crate::search::host::{
    probe_tt_with_shared, probed, raw_eval, raw_eval_of, store_tt_with_shared, table_told,
    SearchHost,
};
use crate::search::params::{delta_margin, DEFAULT_DELTA_MARGIN};
use crate::search::searcher::{ClockReading, Searcher, SearcherHot};
use crate::search::sorting::{captures_ordered, sort_captures};
use crate::search::steps::{
    at, game_kept, lemma_back_move, lemma_back_same, lemma_back_then, taken_back,
    taking_back_keeps_the_game, Point,
};
use crate::search::tt_defs::{TTFlag, TTProbeResult};
use crate::search::{
    decisive, draw_value, is_decisive, is_loss, losing, mated_in, value_draw, NodeType,
    ProbeContext, StoreContext, INFINITY, MATE_VALUE, MAX_PLY, NO_VALUE, VALUE_DRAW,
};
use vstd::prelude::*;

verus! {

/// A quiescence node, or its score.
pub enum QuietEntry {
    Closed(i32),
    Open {
        alpha: i32,
        in_check: bool,
        must_escape: bool,
        tt: TtView,
    },
}

/// A table's score, where its bound alone allows to cut off.
pub open spec fn quiet_tt_score(tt: TtView, beta: int) -> Option<i32> {
    match tt.value {
        Some(v) => if tt.hit && (if v >= beta {
            tt.bound.lower()
        } else {
            tt.bound.upper()
        }) {
            Some(v)
        } else {
            None
        },
        None => None,
    }
}

pub fn quiet_tt_cutoff(tt: &TtView, beta: i32) -> (r: Option<i32>)
    ensures
        r == quiet_tt_score(*tt, beta as int),
{
    match tt.value {
        Some(v) => {
            let fits = if v >= beta {
                tt.bound.is_lower()
            } else {
                tt.bound.is_upper()
            };
            if tt.hit && fits {
                Some(v)
            } else {
                None
            }
        },
        None => None,
    }
}

/// The evaluation to stand pat with: the table's score where its bound makes
/// that the better estimate and it is no mate.
pub open spec fn standing(eval: int, tt: TtView) -> int {
    match tt.value {
        Some(v) => if decisive(v as int) {
            eval
        } else {
            refined(eval, tt)
        },
        None => eval,
    }
}

pub fn standing_eval(eval: i32, tt: &TtView) -> (r: i32)
    requires
        tt.wf(),
        is_score(eval as int),
    ensures
        r == standing(eval as int, *tt),
        is_score(r as int),
{
    match tt.value {
        Some(v) => if is_decisive(v) {
            eval
        } else {
            refine_eval(eval, tt)
        },
        None => eval,
    }
}

/// Whether a capture is not worth looking at: it loses in exchanges, or cannot
/// raise alpha by what it wins.
pub open spec fn capture_is_hopeless(see: int, best_value: int, alpha: int) -> bool {
    see < 0 || best_value + see + DEFAULT_DELTA_MARGIN < alpha
}

pub fn is_capture_hopeless(see: i32, best_value: i32, alpha: i32) -> (r: bool)
    ensures
        r == capture_is_hopeless(see as int, best_value as int, alpha as int),
{
    see < 0 || (best_value as i64 + see as i64 + delta_margin() as i64) < alpha as i64
}

/// What the game answers when a quiescence node is opened.
pub struct QuietAnswers {
    pub repeats: bool,
    pub in_check: bool,
    pub draw: bool,
    pub clock: ClockReading,
    pub game: GameState,
    pub found: Option<TTProbeResult>,
    pub lost: bool,
    pub must_escape: bool,
}

/// The figures after a quiescence node was counted.
pub open spec fn quiet_counted(hot: SearcherHot, ply: usize) -> SearcherHot {
    SearcherHot {
        nodes: (if hot.nodes == u64::MAX {
            u64::MAX
        } else {
            (hot.nodes + 1) as u64
        }),
        qnodes: (if hot.qnodes == u64::MAX {
            u64::MAX
        } else {
            (hot.qnodes + 1) as u64
        }),
        seldepth: (if ply > hot.seldepth {
            ply
        } else {
            hot.seldepth
        }),
        ..hot
    }
}

/// What opening a quiescence node gives, by what the game answers. A question
/// is only asked where the ones before it left the node open.
pub open spec fn quiet_entry_fits<H: SearchHost>(
    host: &H,
    searcher: Searcher,
    ply: usize,
    alpha: i32,
    beta: i32,
    is_pv: bool,
    a: QuietAnswers,
    r: QuietEntry,
    after: Searcher,
) -> bool {
    let hot = searcher.hot;
    let asks = alpha < VALUE_DRAW;
    let draw = draw_value(hot.nodes);
    let alpha1 = if asks && a.repeats && alpha < draw {
        draw as i32
    } else {
        alpha
    };
    let tt = tt_reading(a.found);
    let counted = quiet_counted(hot, ply);
    let polled = Searcher { hot: counted.polled(a.clock), ..searcher };
    &&& asks ==> call_ensures(H::upcoming_repetition, (host, ply), a.repeats)
    &&& if asks && a.repeats && draw >= beta {
        r == QuietEntry::Closed(draw as i32) && after == searcher
    } else {
        &&& call_ensures(H::is_in_check, (host,), a.in_check)
        &&& call_ensures(H::is_draw, (host, ply, a.in_check), a.draw)
        &&& if a.draw {
            r == QuietEntry::Closed(VALUE_DRAW) && after == (Searcher { hot: counted, ..searcher })
        } else {
            &&& call_ensures(H::read_clock, (host,), a.clock)
            &&& after == polled
            &&& if counted.must_stop(a.clock) {
                r == QuietEntry::Closed(0)
            } else {
                &&& call_ensures(H::game, (host,), &a.game)
                &&& probed(
                    host,
                    ProbeContext {
                        hash: a.game.hash,
                        alpha: alpha1,
                        beta,
                        depth: 0,
                        ply,
                        rule50_count: a.game.halfmove_clock,
                        rule_limit: searcher.move_rule_limit,
                    },
                    a.found,
                )
                &&& if !is_pv && quiet_tt_score(tt, beta as int) is Some {
                    r == QuietEntry::Closed(quiet_tt_score(tt, beta as int)->0)
                } else {
                    &&& call_ensures(H::has_lost_by_royal_capture, (host,), a.lost)
                    &&& if a.lost {
                        r == QuietEntry::Closed((-MATE_VALUE + ply) as i32)
                    } else {
                        &&& a.in_check ==> call_ensures(
                            H::must_escape_check,
                            (host,),
                            a.must_escape,
                        )
                        &&& r == (QuietEntry::Open {
                            alpha: alpha1,
                            in_check: a.in_check,
                            must_escape: a.in_check && a.must_escape,
                            tt,
                        })
                    }
                }
            }
        }
    }
}

/// A quiescence node was opened like this, for some answers of the game.
pub open spec fn quiet_entered<H: SearchHost>(
    host: &H,
    searcher: Searcher,
    ply: usize,
    alpha: i32,
    beta: i32,
    is_pv: bool,
    r: QuietEntry,
    after: Searcher,
) -> bool {
    exists|a: QuietAnswers| #[trigger]
        quiet_entry_fits(host, searcher, ply, alpha, beta, is_pv, a, r, after)
}

/// Opens a quiescence node: repetitions, draws, time, the table and lost royal
/// pieces may close it at once.
fn open_quiescence<H: SearchHost>(
    searcher: &mut Searcher,
    host: &H,
    ply: usize,
    alpha: i32,
    beta: i32,
    is_pv: bool,
) -> (r: QuietEntry)
    requires
        old(searcher).valid(),
        ply + 1 < MAX_PLY,
        is_score(alpha as int),
        is_score(beta as int),
        alpha < beta,
    ensures
        final(searcher).goes_on(old(searcher)),
        *final(searcher) == (Searcher { hot: final(searcher).hot, ..*old(searcher) }),
        quiet_entered(host, *old(searcher), ply, alpha, beta, is_pv, r, *final(searcher)),
        match r {
            QuietEntry::Closed(v) => is_score(v as int),
            QuietEntry::Open { alpha: a, tt, .. } => is_score(a as int) && alpha <= a < beta
                && tt.wf(),
        },
{
    let ghost s0 = *searcher;
    let ghost alpha0 = alpha;
    let ghost mut a: QuietAnswers = arbitrary();
    let mut alpha: i32 = alpha;
    if alpha < VALUE_DRAW {
        let repeats = host.upcoming_repetition(ply);
        proof {
            a = QuietAnswers { repeats, ..a };
        }
        if repeats {
            match apply_repetition(alpha, beta, value_draw(searcher.hot.nodes)) {
                Window::Closed(v) => {
                    let r = QuietEntry::Closed(v);
                    assert(quiet_entry_fits(host, s0, ply, alpha0, beta, is_pv, a, r, *searcher));
                    return r;
                },
                Window::Open(a1, _b) => {
                    alpha = a1;
                },
            }
        }
    }
    searcher.enter_quiescence(ply);
    let in_check = host.is_in_check();
    let draw = host.is_draw(ply, in_check);
    proof {
        a = QuietAnswers { in_check, draw, ..a };
    }
    if draw {
        let r = QuietEntry::Closed(VALUE_DRAW);
        assert(quiet_entry_fits(host, s0, ply, alpha0, beta, is_pv, a, r, *searcher));
        return r;
    }
    let clock = host.read_clock();
    proof {
        a = QuietAnswers { clock, ..a };
    }
    if searcher.poll_time(&clock) {
        let r = QuietEntry::Closed(0);
        assert(quiet_entry_fits(host, s0, ply, alpha0, beta, is_pv, a, r, *searcher));
        return r;
    }
    let game = host.game();
    let found = probe_tt_with_shared(
        host,
        &ProbeContext {
            hash: game.hash,
            alpha,
            beta,
            depth: 0,
            ply,
            rule50_count: game.halfmove_clock,
            rule_limit: searcher.move_rule_limit,
        },
    );
    let tt = read_tt(found);
    proof {
        a = QuietAnswers { game: *game, found, ..a };
    }
    if !is_pv {
        if let Some(v) = quiet_tt_cutoff(&tt, beta) {
            let r = QuietEntry::Closed(v);
            assert(quiet_entry_fits(host, s0, ply, alpha0, beta, is_pv, a, r, *searcher));
            return r;
        }
    }
    let lost = host.has_lost_by_royal_capture();
    proof {
        a = QuietAnswers { lost, ..a };
    }
    if lost {
        let r = QuietEntry::Closed(mated_in(ply));
        assert(quiet_entry_fits(host, s0, ply, alpha0, beta, is_pv, a, r, *searcher));
        return r;
    }
    let must_escape = in_check && host.must_escape_check();
    proof {
        a = QuietAnswers { must_escape, ..a };
    }
    let r = QuietEntry::Open { alpha, in_check, must_escape, tt };
    assert(quiet_entry_fits(host, s0, ply, alpha0, beta, is_pv, a, r, *searcher));
    r
}

/// What a quiescence node has found so far.
pub struct QuietProgress {
    pub alpha: i32,
    pub best_value: i32,
    pub best_move: Option<Move>,
    pub legal_moves: usize,
}

impl QuietProgress {
    pub open spec fn wf(&self, beta: int) -> bool {
        is_score(self.alpha as int) && is_score(self.best_value as int) && self.alpha < beta
    }
}

/// What standing pat gives, with the evaluation that it rests on: a score where
/// the value already fails high, else what the captures have to beat.
pub open spec fn stood(
    searcher: Searcher,
    game: GameState,
    ply: int,
    tt: TtView,
    alpha: int,
    beta: int,
    r: (Result<i32, QuietProgress>, i32),
) -> bool {
    let value = standing(searcher.corrected(game, r.1 as int, ply), tt);
    match r.0 {
        Ok(v) => value >= beta && v == halved(value, beta),
        Err(p) => {
            &&& value < beta
            &&& p.best_value == value
            &&& p.alpha == max(alpha, value)
            &&& p.best_move is None
            &&& p.legal_moves == 0
        },
    }
}

/// The evaluation of a quiescence node without corrections: the table's, or the
/// game's where the table has none. The game only changes where it is asked.
pub open spec fn evaluated<H: SearchHost>(before: &H, after: &H, tt: TtView, raw: i32) -> bool {
    if tt.hit && tt.eval != NO_VALUE {
        raw == tt.eval && *after == *before
    } else {
        raw_eval_of(before, raw, after)
    }
}

/// The table is told of a node that fails high by standing pat, where it did not
/// know it.
pub open spec fn standing_told<H: SearchHost>(
    before: &H,
    after: &H,
    game: GameState,
    tt: TtView,
    r: (Result<i32, QuietProgress>, i32),
) -> bool {
    match r.0 {
        Ok(v) => if tt.hit {
            *after == *before
        } else {
            table_told(before, standing_entry(game, v, r.1), after)
        },
        Err(_) => *after == *before,
    }
}

/// Standing pat gives `r`, and leaves the game at `after`.
pub open spec fn stood_in<H: SearchHost>(
    before: &H,
    after: &H,
    searcher: Searcher,
    ply: int,
    tt: TtView,
    alpha: int,
    beta: int,
    r: (Result<i32, QuietProgress>, i32),
) -> bool {
    exists|asked: H, game: GameState|
        #![trigger
            evaluated(before, &asked, tt, r.1),
            call_ensures(H::game, (&asked,), &game)
        ]
        evaluated(before, &asked, tt, r.1) && call_ensures(H::game, (&asked,), &game) && stood(
            searcher,
            game,
            ply,
            tt,
            alpha,
            beta,
            r,
        ) && standing_told(&asked, after, game, tt, r)
}

/// What the table is told of a node that fails high by standing pat.
pub open spec fn standing_entry(game: GameState, score: i32, raw: i32) -> StoreContext {
    StoreContext {
        hash: game.hash,
        depth: 0,
        flag: TTFlag::LowerBound,
        score,
        static_eval: raw,
        is_pv: false,
        best_move: None,
        ply: 0,
    }
}

/// Stands pat: the score where the evaluation already fails high, else what
/// the captures have to beat. Also gives the evaluation without corrections.
fn stand_pat<H: SearchHost>(
    searcher: &Searcher,
    host: &mut H,
    ply: usize,
    alpha: i32,
    beta: i32,
    tt: &TtView,
) -> (r: (Result<i32, QuietProgress>, i32))
    requires
        searcher.valid(),
        ply + 1 < MAX_PLY,
        is_score(alpha as int),
        is_score(beta as int),
        alpha < beta,
        tt.wf(),
    ensures
        is_score(r.1 as int),
        match r.0 {
            Ok(v) => is_score(v as int),
            Err(p) => p.wf(beta as int),
        },
        stood_in(
            &*old(host),
            &*final(host),
            *searcher,
            ply as int,
            *tt,
            alpha as int,
            beta as int,
            r,
        ),
        taken_back(*old(host), *final(host)),
{
    let raw: i32 = if tt.hit && tt.eval != NO_VALUE {
        tt.eval
    } else {
        raw_eval(host)
    };
    let ghost h1 = *host;
    proof {
        lemma_back_same(*old(host));
    }
    assert(evaluated(&*old(host), &h1, *tt, raw));
    let game = host.game();
    let ghost g = *game;
    let eval: i32 = searcher.corrected_eval(game, raw, ply);
    let best_value: i32 = standing_eval(eval, tt);
    if best_value >= beta {
        let score: i32 = soften_stand_pat(best_value, beta);
        if !tt.hit {
            let entry = StoreContext {
                hash: game.hash,
                depth: 0,
                flag: TTFlag::LowerBound,
                score,
                static_eval: raw,
                is_pv: false,
                best_move: None,
                ply: 0,
            };
            assert(entry == standing_entry(g, score, raw));
            store_tt_with_shared(host, &entry);
            proof {
                lemma_back_then(*old(host), h1, *host);
            }
        }
        let r = (Ok(score), raw);
        assert(stood(*searcher, g, ply as int, *tt, alpha as int, beta as int, r));
        assert(standing_told(&h1, &*host, g, *tt, r));
        return r;
    }
    let r = (
        Err(
            QuietProgress {
                alpha: max_i32(alpha, best_value),
                best_value,
                best_move: None,
                legal_moves: 0,
            },
        ),
        raw,
    );
    assert(stood(*searcher, g, ply as int, *tt, alpha as int, beta as int, r));
    assert(standing_told(&h1, &*host, g, *tt, r));
    r
}

/// The square that the opponent's last move went to.
fn last_square(searcher: &Searcher, ply: usize) -> (r: Option<Coordinate>)
    requires
        searcher.valid(),
        ply < MAX_PLY,
    ensures
        r == last_target(*searcher, ply as int),
{
    proof {
        searcher.lemma_valid();
    }
    if ply == 0 {
        return None;
    }
    match searcher.move_history[ply - 1] {
        Some(m) => Some(m.to),
        None => None,
    }
}

/// Whether a move is left out of quiescence. In check, and where it recaptures
/// on the opponent's last square, it is not. After a few moves quiet ones are;
/// and, unless all is lost so far, those that are not worth it in exchanges.
pub open spec fn quietly_skipped(
    p: QuietProgress,
    in_check: bool,
    last: Option<Coordinate>,
    m: Move,
    captures: bool,
    gives_check: bool,
    see: int,
) -> bool {
    !in_check && last != Some(m.to) && ((p.legal_moves > 2 && !captures && !gives_check) || (!losing(
        p.best_value as int,
    ) && capture_is_hopeless(see, p.best_value as int, p.alpha as int)))
}

/// Whether a move takes a piece that can be captured.
pub open spec fn takes_piece(game: GameState, m: Move, r: bool) -> bool {
    if occupied(game.board@, m.to.x as int, m.to.y as int) {
        exists|q: Piece| #[trigger]
            game.board@.contains((m.to.x, m.to.y, q)) && r == !q.piece_type.neutral()
    } else {
        !r
    }
}

pub(crate) fn is_taking(game: &GameState, m: &Move) -> (r: bool)
    ensures
        takes_piece(*game, *m, r),
{
    match game.board.get_piece(m.to.x, m.to.y) {
        Some(q) => {
            let i: Ghost<int> = Ghost(
                choose|i: int| 0 <= i < game.board@.len() && game.board@[i] == (m.to.x, m.to.y, q),
            );
            assert(game.board@[i@].0 == m.to.x);
            !q.piece_type.is_neutral_type()
        },
        None => false,
    }
}

/// Whether a move is left out of quiescence, by what the game answers. The
/// outcome of exchanges is only asked for where it decides.
pub open spec fn skip_answered<H: SearchHost>(
    host: &H,
    m: Move,
    in_check: bool,
    last: Option<Coordinate>,
    p: QuietProgress,
    r: bool,
) -> bool {
    exists|game: &GameState, captures: bool, gives_check: bool, see: i32|
        #![trigger
            takes_piece(*game, m, captures),
            quietly_skipped(p, in_check, last, m, captures, gives_check, see as int)
        ]
        call_ensures(H::game, (host,), game) && takes_piece(*game, m, captures) && call_ensures(
            H::move_gives_check,
            (host, &m),
            gives_check,
        ) && r == quietly_skipped(
            p,
            in_check,
            last,
            m,
            captures,
            gives_check,
            see as int,
        ) && (in_check || last == Some(m.to) || losing(p.best_value as int) || (p.legal_moves > 2
            && !captures && !gives_check) || call_ensures(
            H::static_exchange_eval,
            (host, &m),
            see,
        ))
}

fn skips<H: SearchHost>(
    host: &H,
    m: &Move,
    in_check: bool,
    last: &Option<Coordinate>,
    p: &QuietProgress,
) -> (r: bool)
    ensures
        skip_answered(host, *m, in_check, *last, *p, r),
{
    let gives_check = host.move_gives_check(m);
    let game = host.game();
    let captures = is_taking(game, m);
    let recaptures = match last {
        Some(sq) => *sq == m.to,
        None => false,
    };
    let ghost mut asked: i32 = 0;
    let r = if in_check || recaptures {
        false
    } else if p.legal_moves > 2 && !captures && !gives_check {
        true
    } else if is_loss(p.best_value) {
        false
    } else {
        let see: i32 = host.static_exchange_eval(m);
        proof {
            asked = see;
        }
        is_capture_hopeless(see, p.best_value, p.alpha)
    };
    assert(takes_piece(*game, *m, captures));
    assert(r == quietly_skipped(
        *p,
        in_check,
        *last,
        *m,
        captures,
        gives_check,
        asked as int,
    ));
    r
}

/// Whether a move that was made turns out illegal; that is only asked where it
/// was not known before.
pub open spec fn found_illegal<H: SearchHost>(
    made: &H,
    known: Option<bool>,
    illegal: bool,
) -> bool {
    if known is None {
        call_ensures(H::is_move_illegal, (made,), illegal)
    } else {
        !illegal
    }
}

/// What a quiescence node has found after the score of a move.
pub open spec fn quiet_after(p: QuietProgress, m: Move, score: int) -> QuietProgress {
    QuietProgress {
        legal_moves: (p.legal_moves + 1) as usize,
        best_value: max(p.best_value as int, score) as i32,
        alpha: if score > p.best_value && score > p.alpha {
            score as i32
        } else {
            p.alpha
        },
        best_move: if score > p.best_value && score > p.alpha {
            Some(m)
        } else {
            p.best_move
        },
    }
}

/// The square that the opponent's last move went to.
pub open spec fn last_target(searcher: Searcher, ply: int) -> Option<Coordinate> {
    if ply > 0 && searcher.move_history@[ply - 1] is Some {
        Some((searcher.move_history@[ply - 1]->0).to)
    } else {
        None
    }
}

/// What a quiescence node has found where the search of a legal move was stopped.
pub open spec fn quiet_counting(p: QuietProgress) -> QuietProgress {
    QuietProgress { legal_moves: (p.legal_moves + 1) as usize, ..p }
}

/// One move of a quiescence node, which had found `p` before and has found `q`
/// after it: the move is left out; or it is made, and taken back after it turned
/// out illegal or quiescence scored the position. The search may be stopped on
/// the way.
pub open spec fn quiet_step<H: SearchHost>(
    a: Point<H>,
    ply: usize,
    beta: i32,
    node_type: NodeType,
    in_check: bool,
    last: Option<Coordinate>,
    m: Move,
    p: QuietProgress,
    b: Point<H>,
    q: QuietProgress,
    stopped: bool,
) -> bool
    decreases MAX_PLY - ply, 1nat, 0nat,
{
    exists|skipped: bool| #[trigger]
        skip_answered(&a.host, m, in_check, last, p, skipped) && if skipped {
            q == p && b == a && !stopped
        } else {
            exists|known: Option<bool>| #[trigger]
                call_ensures(H::is_legal_fast, (&a.host, &m, in_check), known) && if known == Some(
                    false,
                ) {
                    q == p && b == a && !stopped
                } else {
                    exists|undo: H::Undo, made: H| #[trigger]
                        a.host.makes(m, undo, &made) && quiet_made(
                            at(made, a.searcher),
                            ply,
                            beta,
                            node_type,
                            m,
                            undo,
                            known,
                            p,
                            b,
                            q,
                            stopped,
                        )
                }
        }
}

/// A move of a quiescence node once it is made: it turns out illegal, or
/// quiescence scores the position. Then it is taken back.
pub open spec fn quiet_made<H: SearchHost>(
    a: Point<H>,
    ply: usize,
    beta: i32,
    node_type: NodeType,
    m: Move,
    undo: H::Undo,
    known: Option<bool>,
    p: QuietProgress,
    b: Point<H>,
    q: QuietProgress,
    stopped: bool,
) -> bool
    decreases MAX_PLY - ply, 0nat, 0nat,
{
    exists|illegal: bool| #[trigger]
        found_illegal(&a.host, known, illegal) && if illegal {
            a.host.unmakes(m, undo, &b.host) && b.searcher == a.searcher && q == p && !stopped
        } else {
            exists|end: H, score: i32|
                #![trigger end.unmakes(m, undo, &b.host), is_score(score as int)]
                is_score(score as int) && end.unmakes(m, undo, &b.host) && ply + 1 < MAX_PLY
                    && quiet_result(
                    a,
                    (ply + 1) as usize,
                    (-beta) as i32,
                    (-p.alpha) as i32,
                    node_type,
                    at(end, b.searcher),
                    score,
                ) && stopped == b.searcher.hot.stopped && q == (if stopped {
                    quiet_counting(p)
                } else {
                    quiet_after(p, m, -score)
                })
        }
}

/// Where a quiescence node stands among its moves, and what it has found.
pub struct QuietPoint<H> {
    pub at: Point<H>,
    pub found: QuietProgress,
}

impl<H> QuietPoint<H> {
    /// Whether more moves are looked at.
    pub open spec fn open(self, beta: i32) -> bool {
        self.at.sound() && self.found.alpha < beta
    }
}

/// The first `n` moves led to `p`, which counts the legal ones among them.
pub open spec fn among_first(moves: Seq<Move>, n: nat, p: QuietProgress) -> bool {
    p.legal_moves <= n <= moves.len()
}

/// A quiescence node that started at `start` stands at `end` after its first `n`
/// moves. Moves are looked at as long as alpha stays below beta.
pub open spec fn quiet_reached<H: SearchHost>(
    start: QuietPoint<H>,
    ply: usize,
    beta: i32,
    node_type: NodeType,
    in_check: bool,
    moves: Seq<Move>,
    n: nat,
    end: QuietPoint<H>,
) -> bool
    decreases MAX_PLY - ply, 2nat, n,
{
    if n == 0 {
        end == start
    } else {
        exists|c: QuietPoint<H>| #[trigger]
            c.open(beta) && quiet_reached(
                start,
                ply,
                beta,
                node_type,
                in_check,
                moves,
                (n - 1) as nat,
                c,
            ) && quiet_step(
                c.at,
                ply,
                beta,
                node_type,
                in_check,
                last_target(start.at.searcher, ply as int),
                moves[n - 1],
                c.found,
                end.at,
                end.found,
                false,
            )
    }
}

/// The game lists these moves for quiescence.
pub open spec fn quiet_listed<H: SearchHost>(
    host: &H,
    must_escape: bool,
    generated: MoveList,
) -> bool {
    if must_escape {
        call_ensures(H::get_evasion_moves, (host,), generated)
    } else {
        call_ensures(H::get_quiescence_captures, (host,), generated)
    }
}

/// The moves of a quiescence node, the most promising first.
pub open spec fn quiet_moves<H: SearchHost>(
    host: &H,
    must_escape: bool,
    moves: Seq<Move>,
) -> bool {
    exists|generated: MoveList| #[trigger]
        quiet_listed(host, must_escape, generated) && captures_ordered(host, generated@, moves)
}

/// Whether a side without legal moves is mated: it is in check, and has to
/// escape.
pub open spec fn mates<H: SearchHost>(host: &H, in_check: bool, mated: bool) -> bool {
    if in_check {
        call_ensures(H::must_escape_check, (host,), mated)
    } else {
        !mated
    }
}

/// A side without legal moves may have lost: it is mated or has no pieces left.
pub open spec fn out_of_moves<H: SearchHost>(
    host: &H,
    in_check: bool,
    legal_moves: usize,
    lost: bool,
) -> bool {
    if legal_moves > 0 {
        !lost
    } else {
        exists|mated: bool, game: &GameState, pieces: bool|
            #![trigger
                mates(host, in_check, mated),
                call_ensures(H::has_pieces, (host, game.turn), pieces)
            ]
            mates(host, in_check, mated) && call_ensures(H::game, (host,), game) && call_ensures(
                H::has_pieces,
                (host, game.turn),
                pieces,
            ) && lost == (mated || !pieces)
    }
}

/// What a quiescence node is closed by: its hash, window and evaluation, and
/// whether it is on a principal variation.
pub struct QuietTerms {
    pub hash: u64,
    pub ply: usize,
    pub alpha: i32,
    pub beta: i32,
    pub in_check: bool,
    pub must_escape: bool,
    pub is_pv: bool,
    pub raw: i32,
}

/// What the table is told of a quiescence node that has looked at its moves.
pub open spec fn quiet_entry(
    hash: u64,
    alpha: int,
    beta: int,
    is_pv: bool,
    raw: i32,
    best_move: Option<Move>,
    score: i32,
) -> StoreContext {
    StoreContext {
        hash,
        depth: 0,
        flag: flag_of(score as int, alpha, beta),
        score,
        static_eval: raw,
        is_pv,
        best_move,
        ply: 0,
    }
}

/// What a quiescence node that has looked at its moves leaves behind: the table is
/// told, and unless the side to move had to escape, the corrections learn.
pub open spec fn quiet_left<H: SearchHost>(
    c: Point<H>,
    p: QuietProgress,
    terms: QuietTerms,
    b: Point<H>,
    score: i32,
) -> bool {
    &&& table_told(
        &c.host,
        quiet_entry(
            terms.hash,
            terms.alpha as int,
            terms.beta as int,
            terms.is_pv,
            terms.raw,
            p.best_move,
            score,
        ),
        &b.host,
    )
    &&& if terms.must_escape {
        b.searcher == c.searcher
    } else {
        exists|game: GameState| #[trigger]
            b.searcher.correction_learned(
                &c.searcher,
                game,
                terms.ply as int,
                0,
                score - terms.raw,
                c.searcher.last_move_index(terms.ply as int),
            ) && call_ensures(H::game, (&b.host,), &game)
    }
}

/// The score of a quiescence node that has looked at its moves: a lost one where
/// there were none and the side has lost; else the best value, drawn halfway to
/// beta where it exceeds beta.
pub open spec fn quiet_closed<H: SearchHost>(
    c: QuietPoint<H>,
    terms: QuietTerms,
    b: Point<H>,
    score: i32,
) -> bool {
    let beta = terms.beta as int;
    exists|lost: bool| #[trigger]
        out_of_moves(&c.at.host, terms.in_check, c.found.legal_moves, lost) && if lost {
            score == -MATE_VALUE + terms.ply && b == c.at
        } else {
            score == (if c.found.best_value > beta {
                halved(c.found.best_value as int, beta)
            } else {
                c.found.best_value as int
            }) && quiet_left(c.at, c.found, terms, b, score)
        }
}

/// A quiescence node that started at `start` may have this score: all moves were
/// looked at, or alpha reached beta; or the search of a move was stopped.
pub open spec fn quiet_tried<H: SearchHost>(
    start: QuietPoint<H>,
    terms: QuietTerms,
    node_type: NodeType,
    b: Point<H>,
    score: i32,
) -> bool
    decreases MAX_PLY - terms.ply, 3nat, 0nat,
{
    exists|moves: Seq<Move>, n: nat, c: QuietPoint<H>|
        quiet_moves(&start.at.host, terms.must_escape, moves) && #[trigger] among_first(
            moves,
            n,
            c.found,
        ) && #[trigger] c.at.sound() && quiet_reached(
            start,
            terms.ply,
            terms.beta,
            node_type,
            terms.in_check,
            moves,
            n,
            c,
        ) && if n == moves.len() || c.found.alpha >= terms.beta {
            quiet_closed(c, terms, b, score)
        } else {
            score == c.found.best_value && quiet_step(
                c.at,
                terms.ply,
                terms.beta,
                node_type,
                terms.in_check,
                last_target(start.at.searcher, terms.ply as int),
                moves[n as int],
                c.found,
                b,
                quiet_counting(c.found),
                true,
            )
        }
}

/// What a quiescence node starts with, or its score, and the evaluation that it
/// rests on. Where it has to escape from check there is nothing to stand pat on.
pub open spec fn quiet_started<H: SearchHost>(
    before: &H,
    after: &H,
    searcher: Searcher,
    ply: int,
    alpha: int,
    beta: int,
    must_escape: bool,
    tt: TtView,
    r: (Result<i32, QuietProgress>, i32),
) -> bool {
    if must_escape {
        *after == *before && r == (
            Err::<i32, QuietProgress>(
                QuietProgress {
                    alpha: alpha as i32,
                    best_value: (-INFINITY) as i32,
                    best_move: None,
                    legal_moves: 0,
                },
            ),
            NO_VALUE,
        )
    } else {
        stood_in(before, after, searcher, ply, tt, alpha, beta, r)
    }
}

/// Quiescence from `a` may score the position like this and lead to `b`. At the
/// last ply the score is the evaluation. Else an entry that closes the node
/// decides, then the value to stand pat on where it fails high, then the moves.
pub open spec fn quiet_result<H: SearchHost>(
    a: Point<H>,
    ply: usize,
    alpha: i32,
    beta: i32,
    node_type: NodeType,
    b: Point<H>,
    score: i32,
) -> bool
    decreases MAX_PLY - ply, 4nat, 0nat,
{
    if ply + 1 >= MAX_PLY {
        raw_eval_of(&a.host, score, &b.host) && b.searcher == a.searcher
    } else {
        exists|e: QuietEntry, s1: Searcher| #[trigger]
            quiet_entered(&a.host, a.searcher, ply, alpha, beta, node_type is PV, e, s1)
                && match e {
                QuietEntry::Closed(v) => score == v && b == at(a.host, s1),
                QuietEntry::Open { alpha: raised, in_check, must_escape, tt } => exists|
                    game: GameState,
                    after: H,
                    stand: (Result<i32, QuietProgress>, i32),
                |
                    #![trigger
                        call_ensures(H::game, (&a.host,), &game),
                        quiet_started(
                            &a.host,
                            &after,
                            s1,
                            ply as int,
                            raised as int,
                            beta as int,
                            must_escape,
                            tt,
                            stand,
                        )
                    ]
                    call_ensures(H::game, (&a.host,), &game) && quiet_started(
                        &a.host,
                        &after,
                        s1,
                        ply as int,
                        raised as int,
                        beta as int,
                        must_escape,
                        tt,
                        stand,
                    ) && match stand.0 {
                        Ok(v) => score == v && b == at(after, s1),
                        Err(found) => quiet_tried(
                            QuietPoint { at: at(after, s1), found },
                            QuietTerms {
                                hash: game.hash,
                                ply,
                                alpha: raised,
                                beta,
                                in_check,
                                must_escape,
                                is_pv: tt.is_pv,
                                raw: stand.1,
                            },
                            node_type,
                            b,
                            score,
                        ),
                    },
            }
    }
}

/// Closes a quiescence node that has looked at its moves: its score, what the
/// table keeps of it, and what the corrections learn from it.
fn close_quiescence<H: SearchHost>(
    searcher: &mut Searcher,
    host: &mut H,
    terms: &QuietTerms,
    p: &QuietProgress,
) -> (r: i32)
    requires
        old(searcher).valid(),
        terms.ply < MAX_PLY,
        is_score(terms.beta as int),
        is_score(p.best_value as int),
        !terms.must_escape ==> is_score(terms.raw as int),
    ensures
        final(searcher).goes_on(old(searcher)),
        final(searcher).same_pv(old(searcher)),
        is_score(r as int),
        r == (if p.best_value > terms.beta {
            halved(p.best_value as int, terms.beta as int)
        } else {
            p.best_value as int
        }),
        quiet_left(
            at(*old(host), *old(searcher)),
            *p,
            *terms,
            at(*final(host), *final(searcher)),
            r,
        ),
        taken_back(*old(host), *final(host)),
{
    let score: i32 = if p.best_value > terms.beta {
        soften_stand_pat(p.best_value, terms.beta)
    } else {
        p.best_value
    };
    let entry = StoreContext {
        hash: terms.hash,
        depth: 0,
        flag: tt_flag(score, terms.alpha, terms.beta),
        score,
        static_eval: terms.raw,
        is_pv: terms.is_pv,
        best_move: p.best_move,
        ply: 0,
    };
    assert(entry == quiet_entry(
        terms.hash,
        terms.alpha as int,
        terms.beta as int,
        terms.is_pv,
        terms.raw,
        p.best_move,
        score,
    ));
    store_tt_with_shared(host, &entry);
    if !terms.must_escape {
        let game = host.game();
        let ghost g = *game;
        searcher.learn_from_result(game, terms.ply, 0, terms.raw, score);
        assert(searcher.correction_learned(
            old(searcher),
            g,
            terms.ply as int,
            0,
            score - terms.raw,
            old(searcher).last_move_index(terms.ply as int),
        ));
    }
    score
}

/// A node that stays open has the score of its moves.
proof fn lemma_quiet_result<H: SearchHost>(
    a: Point<H>,
    ply: usize,
    alpha: i32,
    beta: i32,
    node_type: NodeType,
    e: QuietEntry,
    s1: Searcher,
    game: GameState,
    after: H,
    stand: (Result<i32, QuietProgress>, i32),
    b: Point<H>,
    score: i32,
)
    requires
        ply + 1 < MAX_PLY,
        quiet_entered(&a.host, a.searcher, ply, alpha, beta, node_type is PV, e, s1),
        e is Open,
        call_ensures(H::game, (&a.host,), &game),
        quiet_started(
            &a.host,
            &after,
            s1,
            ply as int,
            e->alpha as int,
            beta as int,
            e->must_escape,
            e->tt,
            stand,
        ),
        stand.0 is Err,
        quiet_tried(
            QuietPoint { at: at(after, s1), found: stand.0->Err_0 },
            QuietTerms {
                hash: game.hash,
                ply,
                alpha: e->alpha,
                beta,
                in_check: e->in_check,
                must_escape: e->must_escape,
                is_pv: e->tt.is_pv,
                raw: stand.1,
            },
            node_type,
            b,
            score,
        ),
    ensures
        quiet_result(a, ply, alpha, beta, node_type, b, score),
{
}

/// Makes a move of a quiescence node and takes up its score, unless it turns out
/// illegal. Whether the search was stopped on the way.
fn try_quiet<H: SearchHost>(
    searcher: &mut Searcher,
    host: &mut H,
    ply: usize,
    beta: i32,
    node_type: NodeType,
    m: &Move,
    known: Option<bool>,
    p: &mut QuietProgress,
) -> (r: bool)
    requires
        old(searcher).valid(),
        ply + 1 < MAX_PLY,
        is_score(beta as int),
        is_score(old(p).alpha as int),
        is_score(old(p).best_value as int),
        old(p).alpha < beta,
        old(p).legal_moves < usize::MAX,
    ensures
        final(searcher).goes_on(old(searcher)),
        final(searcher).same_pv(old(searcher)),
        is_score(final(p).alpha as int),
        is_score(final(p).best_value as int),
        final(p).legal_moves <= old(p).legal_moves + 1,
        r ==> *final(p) == quiet_counting(*old(p)),
        exists|undo: H::Undo, made: H| #[trigger]
            old(host).makes(*m, undo, &made) && quiet_made(
                at(made, *old(searcher)),
                ply,
                beta,
                node_type,
                *m,
                undo,
                known,
                *old(p),
                at(*final(host), *final(searcher)),
                *final(p),
                r,
            ),
        taken_back(*old(host), *final(host)),
    decreases MAX_PLY - ply, 0nat,
{
    let ghost q = *p;
    let ghost h0 = *host;
    let ghost s0 = *searcher;
    let undo = host.make_move(m);
    let illegal = known.is_none() && host.is_move_illegal();
    let ghost made = *host;
    let ghost u = undo;
    assert(found_illegal(&made, known, illegal));
    assert(h0.makes(*m, u, &made));
    if illegal {
        host.undo_move(m, undo);
        proof {
            lemma_back_same(made);
            lemma_back_move(h0, made, made, *host, *m, u);
            let a = at(made, s0);
            let b = at(*host, *searcher);
            assert(found_illegal(&a.host, known, true));
            assert(a.host.unmakes(*m, u, &b.host) && b.searcher == a.searcher);
            assert(quiet_made(
                at(made, s0),
                ply,
                beta,
                node_type,
                *m,
                u,
                known,
                q,
                at(*host, *searcher),
                *p,
                false,
            ));
        }
        return false;
    }
    p.legal_moves += 1;
    let reply: i32 = quiescence(searcher, host, ply + 1, -beta, -p.alpha, node_type);
    let ghost end = *host;
    let score: i32 = -reply;
    host.undo_move(m, undo);
    proof {
        lemma_back_move(h0, made, end, *host, *m, u);
        let b = at(*host, *searcher);
        assert(end.unmakes(*m, u, &b.host));
        assert(is_score(reply as int));
        assert(quiet_result(
            at(made, s0),
            (ply + 1) as usize,
            (-beta) as i32,
            (-q.alpha) as i32,
            node_type,
            at(end, b.searcher),
            reply,
        ));
    }
    if searcher.hot.stopped {
        assert(*p == quiet_counting(q));
        return true;
    }
    if score > p.best_value {
        p.best_value = score;
        if score > p.alpha {
            p.alpha = score;
            p.best_move = Some(*m);
        }
    }
    assert(*p == quiet_after(q, *m, -reply));
    assert(quiet_made(
        at(made, s0),
        ply,
        beta,
        node_type,
        *m,
        u,
        known,
        q,
        at(*host, *searcher),
        *p,
        false,
    ));
    false
}

/// Searches captures, or evasions where the side to move is in check and has
/// to escape, until the position is quiet.
#[verifier::rlimit(40)]
pub fn quiescence<H: SearchHost>(
    searcher: &mut Searcher,
    host: &mut H,
    ply: usize,
    alpha: i32,
    beta: i32,
    node_type: NodeType,
) -> (r: i32)
    requires
        old(searcher).valid(),
        ply < MAX_PLY,
        is_score(alpha as int),
        is_score(beta as int),
        alpha < beta,
    ensures
        final(searcher).goes_on(old(searcher)),
        final(searcher).same_pv(old(searcher)),
        is_score(r as int),
        quiet_result(
            at(*old(host), *old(searcher)),
            ply,
            alpha,
            beta,
            node_type,
            at(*final(host), *final(searcher)),
            r,
        ),
        taken_back(*old(host), *final(host)),
        game_kept(*old(host), *final(host)),
    decreases MAX_PLY - ply, 1nat,
{
    broadcast use taking_back_keeps_the_game;

    if ply >= MAX_PLY - 1 {
        return raw_eval(host);
    }
    let ghost s0 = *searcher;
    let ghost h0 = *host;
    proof {
        lemma_back_same(h0);
    }
    let entry = open_quiescence(searcher, host, ply, alpha, beta, node_type == NodeType::PV);
    let ghost opened = entry;
    let ghost s1 = *searcher;
    assert(quiet_entered(&h0, s0, ply, alpha, beta, node_type is PV, opened, s1));
    let (alpha_orig, in_check, must_escape, tt) = match entry {
        QuietEntry::Closed(v) => {
            return v;
        },
        QuietEntry::Open { alpha: a, in_check, must_escape, tt } => (a, in_check, must_escape, tt),
    };
    let game = host.game();
    let ghost g = *game;
    let hash: u64 = game.hash;
    let mut raw_eval: i32 = NO_VALUE;
    let mut p = QuietProgress {
        alpha: alpha_orig,
        best_value: -INFINITY,
        best_move: None,
        legal_moves: 0,
    };
    let ghost mut stand: (Result<i32, QuietProgress>, i32) = (Err(p), NO_VALUE);
    if !must_escape {
        let (found, raw) = stand_pat(searcher, host, ply, alpha_orig, beta, &tt);
        raw_eval = raw;
        proof {
            stand = (found, raw);
            assert(quiet_started(
                &h0,
                &*host,
                s1,
                ply as int,
                alpha_orig as int,
                beta as int,
                must_escape,
                tt,
                stand,
            ));
        }
        match found {
            Ok(v) => {
                return v;
            },
            Err(q) => {
                p = q;
            },
        }
    }
    let ghost h1 = *host;
    let ghost start = QuietPoint { at: at(h1, s1), found: p };
    assert(quiet_started(
        &h0,
        &h1,
        s1,
        ply as int,
        alpha_orig as int,
        beta as int,
        must_escape,
        tt,
        stand,
    ));
    let generated = if must_escape {
        host.get_evasion_moves()
    } else {
        host.get_quiescence_captures()
    };
    assert(quiet_listed(&h1, must_escape, generated));
    let moves = sort_captures(host, &generated);
    let last = last_square(searcher, ply);
    let terms = QuietTerms {
        hash,
        ply,
        alpha: alpha_orig,
        beta,
        in_check,
        must_escape,
        is_pv: tt.is_pv,
        raw: raw_eval,
    };
    let mut i: usize = 0;
    while i < moves.len() && p.alpha < beta
        invariant
            i <= moves@.len(),
            p.legal_moves <= i,
            ply + 1 < MAX_PLY,
            s0 == *old(searcher),
            h0 == *old(host),
            searcher.goes_on(old(searcher)),
            searcher.same_pv(old(searcher)),
            is_score(beta as int),
            is_score(p.alpha as int),
            is_score(p.best_value as int),
            last == last_target(s1, ply as int),
            start.at == at(h1, s1),
            taken_back(h0, *host),
            quiet_moves(&h1, must_escape, moves@),
            terms == (QuietTerms {
                hash,
                ply,
                alpha: alpha_orig,
                beta,
                in_check,
                must_escape,
                is_pv: tt.is_pv,
                raw: raw_eval,
            }),
            quiet_entered(&h0, s0, ply, alpha, beta, node_type is PV, opened, s1),
            opened == (QuietEntry::Open { alpha: alpha_orig, in_check, must_escape, tt }),
            call_ensures(H::game, (&h0,), &g),
            g.hash == hash,
            quiet_started(
                &h0,
                &h1,
                s1,
                ply as int,
                alpha_orig as int,
                beta as int,
                must_escape,
                tt,
                stand,
            ),
            stand == (Err::<i32, QuietProgress>(start.found), raw_eval),
            quiet_reached(
                start,
                ply,
                beta,
                node_type,
                in_check,
                moves@,
                i as nat,
                QuietPoint { at: at(*host, *searcher), found: p },
            ),
            !must_escape ==> is_score(raw_eval as int),
        decreases moves@.len() - i,
    {
        let m = moves[i];
        let ghost c = QuietPoint { at: at(*host, *searcher), found: p };
        assert(c.open(beta));
        i += 1;
        if skips(host, &m, in_check, &last, &p) {
            assert(quiet_step(
                c.at,
                ply,
                beta,
                node_type,
                in_check,
                last,
                m,
                c.found,
                c.at,
                p,
                false,
            ));
            continue;
        }
        let fast = host.is_legal_fast(&m, in_check);
        if fast == Some(false) {
            assert(quiet_step(
                c.at,
                ply,
                beta,
                node_type,
                in_check,
                last,
                m,
                c.found,
                c.at,
                p,
                false,
            ));
            continue;
        }
        let halted = try_quiet(searcher, host, ply, beta, node_type, &m, fast, &mut p);
        proof {
            lemma_back_then(h0, c.at.host, *host);
        }
        assert(quiet_step(
            c.at,
            ply,
            beta,
            node_type,
            in_check,
            last,
            m,
            c.found,
            at(*host, *searcher),
            p,
            halted,
        ));
        if halted {
            proof {
                taking_back_keeps_the_game(h0, *host);
                assert(among_first(moves@, (i - 1) as nat, c.found));
                assert(c.at.sound());
                assert(quiet_tried(
                    start,
                    terms,
                    node_type,
                    at(*host, *searcher),
                    p.best_value,
                ));
                lemma_quiet_result(
                    at(h0, s0),
                    ply,
                    alpha,
                    beta,
                    node_type,
                    opened,
                    s1,
                    g,
                    h1,
                    stand,
                    at(*host, *searcher),
                    p.best_value,
                );
            }
            return p.best_value;
        }
    }
    let ghost end = QuietPoint { at: at(*host, *searcher), found: p };
    assert(among_first(moves@, i as nat, end.found));
    assert(end.at.sound());
    if p.legal_moves == 0 {
        let checkmate = in_check && host.must_escape_check();
        let turn = host.game().turn;
        let no_pieces = !host.has_pieces(turn);
        proof {
            assert(mates(&end.at.host, in_check, checkmate));
            assert(out_of_moves(
                &end.at.host,
                in_check,
                p.legal_moves,
                checkmate || no_pieces,
            ));
        }
        if checkmate || no_pieces {
            let score: i32 = score_without_moves(checkmate, no_pieces, ply);
            proof {
                assert(out_of_moves(
                    &end.at.host,
                    terms.in_check,
                    end.found.legal_moves,
                    true,
                ));
                assert(quiet_closed(end, terms, end.at, score));
                assert(quiet_tried(start, terms, node_type, end.at, score));
                lemma_quiet_result(
                    at(h0, s0),
                    ply,
                    alpha,
                    beta,
                    node_type,
                    opened,
                    s1,
                    g,
                    h1,
                    stand,
                    at(*host, *searcher),
                    score,
                );
            }
            return score;
        }
    }
    let best_value: i32 = close_quiescence(searcher, host, &terms, &p);
    proof {
        lemma_back_then(h0, end.at.host, *host);
        assert(out_of_moves(&end.at.host, terms.in_check, end.found.legal_moves, false));
        assert(quiet_closed(end, terms, at(*host, *searcher), best_value));
        assert(quiet_tried(start, terms, node_type, at(*host, *searcher), best_value));
        lemma_quiet_result(
            at(h0, s0),
            ply,
            alpha,
            beta,
            node_type,
            opened,
            s1,
            g,
            h1,
            stand,
            at(*host, *searcher),
            best_value,
        );
    }
    best_value
}

/// A result stored with its bound answers the same window again.
pub proof fn stored_result_answers_its_window(tt: TtView, score: i32, alpha: int, beta: int)
    requires
        alpha < beta,
        tt.hit,
        tt.value == Some(score),
        tt.bound == flag_of(score as int, alpha, beta),
    ensures
        quiet_tt_score(tt, beta) == Some(score),
{
}

/// What a quiescence node has found never falls below what it started with.
proof fn lemma_quiet_reached<H: SearchHost>(
    start: QuietPoint<H>,
    ply: usize,
    beta: i32,
    node_type: NodeType,
    in_check: bool,
    moves: Seq<Move>,
    n: nat,
    end: QuietPoint<H>,
)
    requires
        quiet_reached(start, ply, beta, node_type, in_check, moves, n, end),
    ensures
        end.found.best_value >= start.found.best_value,
    decreases n,
{
    if n > 0 {
        let c = choose|c: QuietPoint<H>| #[trigger]
            c.open(beta) && quiet_reached(
                start,
                ply,
                beta,
                node_type,
                in_check,
                moves,
                (n - 1) as nat,
                c,
            ) && quiet_step(
                c.at,
                ply,
                beta,
                node_type,
                in_check,
                last_target(start.at.searcher, ply as int),
                moves[n - 1],
                c.found,
                end.at,
                end.found,
                false,
            );
        lemma_quiet_reached(start, ply, beta, node_type, in_check, moves, (n - 1) as nat, c);
    }
}

/// The value to stand pat on.
pub open spec fn stands_on<H: SearchHost>(
    host: &H,
    searcher: Searcher,
    ply: int,
    tt: TtView,
    value: int,
) -> bool {
    exists|raw: i32, after: H, game: GameState|
        #![trigger evaluated(host, &after, tt, raw), call_ensures(H::game, (&after,), &game)]
        evaluated(host, &after, tt, raw) && call_ensures(H::game, (&after,), &game) && value
            == standing(searcher.corrected(game, raw as int, ply), tt)
}

/// A side that need not escape from check can stand pat: where the node stays
/// open, a value that fails high is the score, drawn halfway to beta, and no
/// score is below the value to stand pat on, except that of a lost position.
pub proof fn standing_pat_is_a_floor<H: SearchHost>(
    a: Point<H>,
    ply: usize,
    alpha: i32,
    beta: i32,
    node_type: NodeType,
    b: Point<H>,
    score: i32,
)
    requires
        ply + 1 < MAX_PLY,
        quiet_result(a, ply, alpha, beta, node_type, b, score),
    ensures
        exists|e: QuietEntry, s1: Searcher| #[trigger]
            quiet_entered(&a.host, a.searcher, ply, alpha, beta, node_type is PV, e, s1)
                && match e {
                QuietEntry::Closed(v) => score == v,
                QuietEntry::Open { must_escape, tt, .. } => must_escape || exists|value: int|
                    #[trigger]
                    stands_on(&a.host, a.searcher, ply as int, tt, value) && if value >= beta {
                        score == halved(value, beta as int)
                    } else {
                        score >= value || score == -MATE_VALUE + ply
                    },
            },
{
    let (e, s1) = choose|e: QuietEntry, s1: Searcher| #[trigger]
        quiet_entered(&a.host, a.searcher, ply, alpha, beta, node_type is PV, e, s1) && match e {
            QuietEntry::Closed(v) => score == v,
            QuietEntry::Open { alpha: raised, in_check, must_escape, tt } => exists|
                game: GameState,
                after: H,
                stand: (Result<i32, QuietProgress>, i32),
            |
                #![trigger
                    call_ensures(H::game, (&a.host,), &game),
                    quiet_started(
                        &a.host,
                        &after,
                        s1,
                        ply as int,
                        raised as int,
                        beta as int,
                        must_escape,
                        tt,
                        stand,
                    )
                ]
                call_ensures(H::game, (&a.host,), &game) && quiet_started(
                    &a.host,
                    &after,
                    s1,
                    ply as int,
                    raised as int,
                    beta as int,
                    must_escape,
                    tt,
                    stand,
                ) && match stand.0 {
                    Ok(v) => score == v,
                    Err(found) => quiet_tried(
                        QuietPoint { at: at(after, s1), found },
                        QuietTerms {
                            hash: game.hash,
                            ply,
                            alpha: raised,
                            beta,
                            in_check,
                            must_escape,
                            is_pv: tt.is_pv,
                            raw: stand.1,
                        },
                        node_type,
                        b,
                        score,
                    ),
                },
        };
    if let QuietEntry::Open { alpha: raised, in_check, must_escape, tt } = e {
        if !must_escape {
            let (game, after, stand) = choose|
                game: GameState,
                after: H,
                stand: (Result<i32, QuietProgress>, i32),
            |
                #![trigger
                    call_ensures(H::game, (&a.host,), &game),
                    quiet_started(
                        &a.host,
                        &after,
                        s1,
                        ply as int,
                        raised as int,
                        beta as int,
                        must_escape,
                        tt,
                        stand,
                    )
                ]
                call_ensures(H::game, (&a.host,), &game) && quiet_started(
                    &a.host,
                    &after,
                    s1,
                    ply as int,
                    raised as int,
                    beta as int,
                    must_escape,
                    tt,
                    stand,
                ) && match stand.0 {
                    Ok(v) => score == v,
                    Err(found) => quiet_tried(
                        QuietPoint { at: at(after, s1), found },
                        QuietTerms {
                            hash: game.hash,
                            ply,
                            alpha: raised,
                            beta,
                            in_check,
                            must_escape,
                            is_pv: tt.is_pv,
                            raw: stand.1,
                        },
                        node_type,
                        b,
                        score,
                    ),
                };
            let (asked, g) = choose|asked: H, g: GameState|
                #![trigger
                    evaluated(&a.host, &asked, tt, stand.1),
                    call_ensures(H::game, (&asked,), &g)
                ]
                evaluated(&a.host, &asked, tt, stand.1) && call_ensures(H::game, (&asked,), &g)
                    && stood(s1, g, ply as int, tt, raised as int, beta as int, stand);
            let value = standing(s1.corrected(g, stand.1 as int, ply as int), tt);
            assert(s1.corrected(g, stand.1 as int, ply as int) == a.searcher.corrected(
                g,
                stand.1 as int,
                ply as int,
            ));
            assert(stands_on(&a.host, a.searcher, ply as int, tt, value));
            if let Err(found) = stand.0 {
                let start = QuietPoint { at: at(after, s1), found };
                let terms = QuietTerms {
                    hash: game.hash,
                    ply,
                    alpha: raised,
                    beta,
                    in_check,
                    must_escape,
                    is_pv: tt.is_pv,
                    raw: stand.1,
                };
                let (moves, n, c) = choose|moves: Seq<Move>, n: nat, c: QuietPoint<H>|
                    quiet_moves(&start.at.host, terms.must_escape, moves) && #[trigger] among_first(
                        moves,
                        n,
                        c.found,
                    ) && #[trigger] c.at.sound() && quiet_reached(
                        start,
                        terms.ply,
                        terms.beta,
                        node_type,
                        terms.in_check,
                        moves,
                        n,
                        c,
                    ) && if n == moves.len() || c.found.alpha >= terms.beta {
                        quiet_closed(c, terms, b, score)
                    } else {
                        score == c.found.best_value
                    };
                lemma_quiet_reached(start, ply, beta, node_type, in_check, moves, n, c);
            }
        }
    }
}

/// A quiescence node that is open and has no moves to look at counts once, as a
/// node and as a quiescence node.
pub proof fn quiet_nodes_without_moves_count_once<H: SearchHost>(
    a: Point<H>,
    ply: usize,
    alpha: i32,
    beta: i32,
    node_type: NodeType,
    b: Point<H>,
    score: i32,
)
    requires
        ply + 1 < MAX_PLY,
        quiet_result(a, ply, alpha, beta, node_type, b, score),
        alpha >= VALUE_DRAW || !call_ensures(H::upcoming_repetition, (&a.host, ply), true),
        forall|h: H, must_escape: bool, moves: Seq<Move>| #[trigger]
            quiet_moves(&h, must_escape, moves) ==> moves.len() == 0,
    ensures
        b.searcher.hot.qnodes == quiet_counted(a.searcher.hot, ply).qnodes,
        b.searcher.hot.nodes == quiet_counted(a.searcher.hot, ply).nodes,
{
}

} // verus!
