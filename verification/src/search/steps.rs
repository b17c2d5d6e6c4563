//! The steps of a search through the states of a game: where it stands, and that
//! every move it makes is taken back.
use crate::game::GameState;
use crate::moves::Move;
use crate::search::host::SearchHost;
use crate::search::searcher::Searcher;
use crate::search::tt_defs::TTStoreParams;
use crate::search::PVLine;
use vstd::prelude::*;

verus! {

/// Where a search stands: the game, and what the searcher keeps.
pub struct Point<H> {
    pub host: H,
    pub searcher: Searcher,
}

impl<H> Point<H> {
    pub open spec fn sound(self) -> bool {
        self.searcher.valid()
    }
}

/// The point at which the game and the searcher are these.
#[verifier::inline]
pub open spec fn at<H>(host: H, searcher: Searcher) -> Point<H> {
    Point { host, searcher }
}

/// Where a search stands among the moves that the game offers.
pub struct Stage<H, G> {
    pub at: Point<H>,
    pub moves: G,
}

impl<H, G> Stage<H, G> {
    pub open spec fn sound(self) -> bool {
        self.at.sound()
    }
}

/// The game offers a move, and stands at `d` after that.
pub open spec fn offered<H: SearchHost>(
    c: Stage<H, H::Generator>,
    m: Move,
    d: Stage<H, H::Generator>,
) -> bool {
    &&& c.at.host.offers(c.at.searcher, c.moves, Some(m), d.moves, &d.at.host)
    &&& d.at.searcher == c.at.searcher
}

/// The game has no more moves to offer, and stands at `b` after that.
pub open spec fn runs_out<H: SearchHost>(c: Stage<H, H::Generator>, b: Point<H>) -> bool {
    &&& b.searcher == c.at.searcher
    &&& exists|left: H::Generator| #[trigger]
        c.at.host.offers(c.at.searcher, c.moves, None, left, &b.host)
}

/// The game was put to work that neither makes a move nor takes one back: an
/// evaluation, the order of moves, the table, the clock or a report.
pub open spec fn steady<H: SearchHost>(a: H, b: H) -> bool {
    ||| exists|answer: i32| #[trigger] a.evaluates(answer, &b)
    ||| exists|
        searcher: Searcher,
        tt_move: Option<Move>,
        ply: usize,
        depth: usize,
        moves: H::Generator,
    | #[trigger]
        a.starts_moves(searcher, tt_move, ply, depth, moves, &b)
    ||| exists|
        searcher: Searcher,
        tt_move: Option<Move>,
        threshold: i32,
        moves: H::Generator,
    | #[trigger]
        a.starts_probcut(searcher, tt_move, threshold, moves, &b)
    ||| exists|
        searcher: Searcher,
        moves: H::Generator,
        answer: Option<Move>,
        left: H::Generator,
    | #[trigger]
        a.offers(searcher, moves, answer, left, &b)
    ||| exists|moves: H::Generator, left: H::Generator| #[trigger]
        a.drops_quiets(moves, left, &b)
    ||| exists|params: TTStoreParams| #[trigger] a.stores_shared(params, &b)
    ||| exists|params: TTStoreParams| #[trigger] a.stores_local(params, &b)
    ||| a.starts_iteration(&b)
    ||| exists|
        searcher: Searcher,
        depth: usize,
        best_score: i32,
        legal_moves: usize,
        used_up: bool,
    | #[trigger]
        a.revises_budget(searcher, depth, best_score, legal_moves, used_up, &b)
    ||| exists|searcher: Searcher, depth: usize, score: i32| #[trigger]
        a.reports(searcher, depth, score, &b)
    ||| exists|searcher: Searcher, depth: usize, lines: Vec<PVLine>| #[trigger]
        a.reports_lines(searcher, depth, lines, &b)
}

/// A relation between states of a game that holds where nothing happens, over
/// steady work and over two stretches if over each, and that a move or a null
/// move around a stretch does not break, if it is taken back.
pub open spec fn survives_search<H: SearchHost>(rel: spec_fn(H, H) -> bool) -> bool {
    &&& forall|a: H| #[trigger] rel(a, a)
    &&& forall|a: H, b: H| steady(a, b) ==> #[trigger] rel(a, b)
    &&& forall|a: H, b: H, c: H| #[trigger] rel(a, b) && #[trigger] rel(b, c) ==> rel(a, c)
    &&& forall|a: H, b: H, c: H, d: H, m: Move, undo: H::Undo| #[trigger]
        a.makes(m, undo, &b) && rel(b, c) && #[trigger] c.unmakes(m, undo, &d) ==> rel(a, d)
    &&& forall|a: H, b: H, c: H, d: H| #[trigger]
        a.passes(&b) && rel(b, c) && #[trigger] c.unpasses(&d) ==> rel(a, d)
}

/// From one state of a game to another every move and null move that was made was
/// taken back, the last one first: whatever steady work and such moves keep, was
/// kept.
#[verifier::opaque]
pub open spec fn taken_back<H: SearchHost>(a: H, b: H) -> bool {
    forall|rel: spec_fn(H, H) -> bool| survives_search(rel) ==> #[trigger] rel(a, b)
}

pub proof fn lemma_back_same<H: SearchHost>(a: H)
    ensures
        taken_back(a, a),
{
    reveal(taken_back);
}

pub proof fn lemma_back_steady<H: SearchHost>(a: H, b: H)
    requires
        steady(a, b),
    ensures
        taken_back(a, b),
{
    reveal(taken_back);
}

pub proof fn lemma_back_then<H: SearchHost>(a: H, b: H, c: H)
    requires
        taken_back(a, b),
        taken_back(b, c),
    ensures
        taken_back(a, c),
{
    reveal(taken_back);
    assert forall|rel: spec_fn(H, H) -> bool| survives_search(rel) implies #[trigger] rel(
        a,
        c,
    ) by {
        assert(rel(a, b) && rel(b, c));
    }
}

pub proof fn lemma_back_move<H: SearchHost>(a: H, b: H, c: H, d: H, m: Move, undo: H::Undo)
    requires
        a.makes(m, undo, &b),
        taken_back(b, c),
        c.unmakes(m, undo, &d),
    ensures
        taken_back(a, d),
{
    reveal(taken_back);
    assert forall|rel: spec_fn(H, H) -> bool| survives_search(rel) implies #[trigger] rel(
        a,
        d,
    ) by {
        assert(rel(b, c));
    }
}

pub proof fn lemma_back_pass<H: SearchHost>(a: H, b: H, c: H, d: H)
    requires
        a.passes(&b),
        taken_back(b, c),
        c.unpasses(&d),
    ensures
        taken_back(a, d),
{
    reveal(taken_back);
    assert forall|rel: spec_fn(H, H) -> bool| survives_search(rel) implies #[trigger] rel(
        a,
        d,
    ) by {
        assert(rel(b, c));
    }
}

/// What steady work keeps of a game, and taking a move back restores, is after a
/// search what it was before.
pub proof fn searches_restore_the_game<H: SearchHost, T>(a: H, b: H, of: spec_fn(H) -> T)
    requires
        taken_back(a, b),
        forall|c: H, d: H| #[trigger] steady(c, d) ==> of(c) == of(d),
        forall|c: H, d: H, e: H, f: H, m: Move, undo: H::Undo| #[trigger]
            c.makes(m, undo, &d) && of(d) == of(e) && #[trigger] e.unmakes(m, undo, &f) ==> of(c)
                == of(f),
        forall|c: H, d: H, e: H, f: H| #[trigger]
            c.passes(&d) && of(d) == of(e) && #[trigger] e.unpasses(&f) ==> of(c) == of(f),
    ensures
        of(a) == of(b),
{
    reveal(taken_back);
    let same = |c: H, d: H| of(c) == of(d);
    assert(survives_search(same));
    assert(same(a, b));
}

/// Both states of a game tell the same of the position: its pieces, the side to move,
/// hashes, en passant and counts.
pub open spec fn same_game<H: SearchHost>(a: H, b: H) -> bool {
    forall|game: GameState| #[trigger]
        call_ensures(H::game, (&a,), &game) == call_ensures(H::game, (&b,), &game)
}

/// The game is one whose moves can be taken back: what it tells of the position is not
/// changed by steady work, and taking a move or a null move back restores it.
pub open spec fn undo_restores<H: SearchHost>() -> bool {
    survives_search(|a: H, b: H| same_game(a, b))
}

/// A game whose moves can be taken back tells the same of the position.
#[verifier::opaque]
pub open spec fn game_kept<H: SearchHost>(a: H, b: H) -> bool {
    undo_restores::<H>() ==> same_game(a, b)
}

/// Where every move was taken back, the game is as it was before.
pub broadcast proof fn taking_back_keeps_the_game<H: SearchHost>(a: H, b: H)
    requires
        taken_back(a, b),
    ensures
        #[trigger] game_kept(a, b),
{
    reveal(taken_back);
    reveal(game_kept);
    let same = |c: H, d: H| same_game(c, d);
    if undo_restores::<H>() {
        assert(survives_search(same));
        assert(same(a, b));
    }
}

} // verus!
