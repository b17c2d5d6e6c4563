//! The entry points of a search, with the state that lasts between searches.
use crate::arith::min;
use crate::evaluation::pawn_cache::{clear_pawn_cache, empty_bucket, PawnCache, PAWN_CACHE_SIZE};
use crate::game::GameState;
use crate::moves::{Move, MoveList};
use crate::search::deepening::{
    answered, build_search_stats, legal_listed, legal_root_moves, looks_ahead,
    search_with_searcher, sound_answer, stats_told,
};
use crate::search::host::SearchHost;
use crate::search::limited::{
    asked_skill, chosen, clamp_skill, draw_numbers, drawn, pick_best, scaled_skill, skill_on_scale,
};
use crate::search::multipv::{
    depth_reached, get_best_moves_multipv_impl, lines_answered, lines_untimed, sound_lines,
};
use crate::search::root::{negamax_root, root_result};
use crate::search::searcher::{Searcher, SearcherHot, NOISE_LIMIT};
use crate::search::steps::{at, lemma_back_then, taken_back, Point};
use crate::search::{
    prng_start, CorrHistMode, MultiPVResult, PVLine, Prng, SearchStats, INFINITY, MAX_PV_COUNT,
    MAX_SITE_SKILL,
};
use vstd::prelude::*;

verus! {

/// What lasts from search to search: what searches have learned, and the pawn
/// structures evaluated so far.
pub struct SearchState {
    pub searcher: Option<Searcher>,
    pub pawn_cache: PawnCache,
}

impl SearchState {
    pub open spec fn wf(&self) -> bool {
        &&& self.searcher matches Some(s) ==> s.wf() && s.excluded_moves@.len() == 0
        &&& self.pawn_cache.wf()
    }

    /// Whether the noise that was asked for can be added to an evaluation.
    pub open spec fn can_search(&self) -> bool {
        self.searcher matches Some(s) ==> s.noise_amp <= NOISE_LIMIT
    }

    /// The thread that the searcher belongs to.
    pub open spec fn thread(&self) -> usize {
        match self.searcher {
            Some(s) => s.thread_id,
            None => 0,
        }
    }

    /// The first move of the principal variation that was left by the last
    /// search.
    pub open spec fn old_head(&self) -> Option<Move> {
        match self.searcher {
            Some(s) => s.pv_table@[0],
            None => None,
        }
    }

    pub fn new() -> (r: SearchState)
        ensures
            r.wf(),
            r.searcher is None,
            r.pawn_cache@ == Seq::new(PAWN_CACHE_SIZE as nat, |i: int| empty_bucket()),
    {
        SearchState { searcher: None, pawn_cache: PawnCache::new() }
    }

    /// Takes the searcher out; where there is none yet, a new one.
    fn take_searcher(&mut self, time_limit_ms: u128) -> (r: Searcher)
        requires
            old(self).wf(),
        ensures
            final(self).wf(),
            final(self).searcher is None,
            final(self).pawn_cache == old(self).pawn_cache,
            old(self).can_search() ==> r.valid() && r.noise_amp <= NOISE_LIMIT,
            r.wf(),
            r.excluded_moves@.len() == 0,
            taken_from(old(self).searcher, r, time_limit_ms),
            r.thread_id == old(self).thread(),
            r.pv_table@[0] == old(self).old_head(),
    {
        let r = match self.searcher.take() {
            Some(s) => s,
            None => Searcher::new(time_limit_ms),
        };
        proof {
            r.lemma_valid();
        }
        r
    }
}

/// A search takes up the searcher that is there, or a new one.
pub open spec fn taken_from(before: Option<Searcher>, s: Searcher, time_limit_ms: u128) -> bool {
    match before {
        Some(kept) => s == kept,
        None => s.is_new(time_limit_ms),
    }
}

/// Figures of the last search; before the first one only the table's.
pub fn get_current_tt_stats<H: SearchHost>(state: &mut SearchState, host: &H) -> (r: SearchStats)
    requires
        old(state).wf(),
    ensures
        final(state).wf(),
        final(state).pawn_cache == old(state).pawn_cache,
        final(state).searcher matches Some(s) && taken_from(old(state).searcher, s, 4000)
            && stats_told(&s, host, r),
{
    let searcher = state.take_searcher(4000);
    let stats = build_search_stats(&searcher, host);
    state.searcher = Some(searcher);
    stats
}

/// Forgets everything, as before a new game.
pub fn reset_search_state<H: SearchHost>(state: &mut SearchState, host: &mut H)
    ensures
        final(state).wf(),
        final(state).searcher is None,
        final(state).pawn_cache@ == Seq::new(PAWN_CACHE_SIZE as nat, |i: int| empty_bucket()),
        // The table is cleared.
        old(host).clears_tt(final(host)),
{
    state.searcher = None;
    clear_pawn_cache(&mut state.pawn_cache);
    host.clear_tt();
}

/// A table that was cleared has no entries in use.
pub open spec fn clearing_empties<H: SearchHost>() -> bool {
    forall|a: H, b: H, used: usize, permille: u32|
        #![trigger
            a.clears_tt(&b),
            call_ensures(H::tt_used_entries, (&b,), used),
            call_ensures(H::tt_fill_permille, (&b,), permille)
        ]
        a.clears_tt(&b) && call_ensures(H::tt_used_entries, (&b,), used) && call_ensures(
            H::tt_fill_permille,
            (&b,),
            permille,
        ) ==> used == 0 && permille == 0
}

/// After everything was forgotten nothing is counted and nothing carries over: the
/// figures are those of a new searcher and of a table that was cleared.
pub proof fn reset_leaves_nothing<H: SearchHost>(
    before: H,
    host: H,
    state: SearchState,
    searcher: Searcher,
    stats: SearchStats,
)
    requires
        clearing_empties::<H>(),
        // The state and the game after a reset.
        state.searcher is None,
        before.clears_tt(&host),
        // The figures that are told next.
        taken_from(state.searcher, searcher, 4000),
        stats_told(&searcher, &host, stats),
    ensures
        stats.nodes == 0,
        stats.tt_used == 0,
        stats.tt_fill_permille == 0,
{
}

/// Sets the seed and the noise of later searches.
pub fn set_global_params(state: &mut SearchState, seed: u64, noise_amp: Option<i32>)
    requires
        old(state).wf(),
    ensures
        final(state).wf(),
        final(state).pawn_cache == old(state).pawn_cache,
        // What was there is kept, or a new searcher made, but for these.
        exists|start: Searcher| #[trigger]
            taken_from(old(state).searcher, start, 1000) && final(state).searcher == Some(
                Searcher {
                    seed,
                    rng: Prng { state: prng_start(seed) },
                    noise_amp: (match noise_amp {
                        Some(n) => n,
                        None => 0,
                    }),
                    ..start
                },
            ),
{
    let mut searcher = state.take_searcher(1000);
    let ghost start = searcher;
    assert(taken_from(old(state).searcher, start, 1000));
    searcher.seed = seed;
    searcher.rng = Prng::new(seed);
    searcher.noise_amp =
    match noise_amp {
        Some(n) => n,
        None => 0,
    };
    proof {
        searcher.lemma_valid();
    }
    state.searcher = Some(searcher);
}

/// The moves without progress that draw, as the searcher keeps it.
pub open spec fn rule_limit_of(limit: Option<u32>) -> i32 {
    match limit {
        Some(l) => l as i32,
        None => i32::MAX,
    }
}

fn rule_limit(game: &GameState) -> (r: i32)
    ensures
        r == rule_limit_of(game.move_rule_limit),
{
    match game.move_rule_limit {
        Some(l) => {
            let l: i32 = #[verifier::truncate]
            (l as i32);
            l
        },
        None => i32::MAX,
    }
}

/// What a search is asked to keep to.
pub struct SearchTerms {
    pub thread_id: usize,
    pub opt_time_ms: u128,
    pub max_time_ms: u128,
    pub silent: bool,
    pub is_soft_limit: bool,
    /// The helper thread that gets a generator of its own.
    pub helper: Option<usize>,
    /// Whether the game's rule on moves without progress is taken over.
    pub takes_rule: bool,
}

/// The terms of a search for one move on a thread.
pub open spec fn thread_terms(
    thread_id: usize,
    opt_time_ms: u128,
    max_time_ms: u128,
    silent: bool,
    is_soft_limit: bool,
) -> SearchTerms {
    SearchTerms {
        thread_id,
        opt_time_ms,
        max_time_ms,
        silent,
        is_soft_limit,
        helper: if thread_id > 0 {
            Some(thread_id)
        } else {
            None
        },
        takes_rule: false,
    }
}

/// The terms of a search for lines.
pub open spec fn lines_terms(
    thread_id: usize,
    opt_time_ms: u128,
    max_time_ms: u128,
    silent: bool,
    is_soft_limit: bool,
) -> SearchTerms {
    SearchTerms {
        thread_id,
        opt_time_ms,
        max_time_ms,
        silent,
        is_soft_limit,
        helper: None,
        takes_rule: true,
    }
}

impl Searcher {
    /// Ready for a search on these terms: the searcher `before`, with a new search
    /// started and the limits set. The first depth is still due. A helper thread
    /// has a generator of its own.
    pub open spec fn readied(&self, before: &Searcher, terms: SearchTerms) -> bool {
        exists|s: Searcher| #[trigger]
            s.search_begun(before) && *self == (Searcher {
                hot: SearcherHot {
                    optimum_time_ms: terms.opt_time_ms,
                    maximum_time_ms: terms.max_time_ms,
                    time_limit_ms: terms.max_time_ms,
                    is_soft_limit: terms.is_soft_limit,
                    ..s.hot
                },
                rng: (match terms.helper {
                    Some(t) => Prng { state: prng_start(before.seed.wrapping_add(t as u64)) },
                    None => s.rng,
                }),
                silent: terms.silent,
                thread_id: terms.thread_id,
                corrhist_mode: self.corrhist_mode,
                move_rule_limit: self.move_rule_limit,
                ..s
            })
    }
}

/// The corrections are those for the variant of the game.
pub open spec fn mode_set<H: SearchHost>(host: &H, searcher: Searcher) -> bool {
    exists|game: GameState| #[trigger]
        call_ensures(H::game, (host,), &game) && searcher.corrhist_mode == Searcher::mode_for(
            game.variant,
        )
}

/// The rule on moves without progress is that of the game.
pub open spec fn rule_set<H: SearchHost>(host: &H, searcher: Searcher) -> bool {
    exists|game: GameState| #[trigger]
        call_ensures(H::game, (host,), &game) && searcher.move_rule_limit == rule_limit_of(
            game.move_rule_limit,
        )
}

/// The game was prepared for a search, and its clock started.
pub open spec fn prepared<H: SearchHost>(host: H, later: H) -> bool {
    exists|ready: H| #[trigger] host.prepares(&ready) && ready.starts_clock(&later)
}

/// A search starts like this from what lasted between searches: the game is
/// prepared, and what was learned is kept.
pub open spec fn search_starts<H: SearchHost>(
    host: H,
    before: Option<Searcher>,
    terms: SearchTerms,
    a: Point<H>,
) -> bool {
    &&& prepared(host, a.host)
    &&& a.searcher.valid()
    &&& mode_set(&a.host, a.searcher)
    &&& exists|start: Searcher| #[trigger]
        taken_from(before, start, terms.max_time_ms) && a.searcher.readied(&start, terms) && (
        if terms.takes_rule {
            rule_set(&a.host, a.searcher)
        } else {
            a.searcher.move_rule_limit == start.move_rule_limit
        })
}

/// A search on these terms, for one move, leads to `b` and gives this answer. The
/// game is left as it was prepared.
#[verifier::opaque]
pub open spec fn search_answered<H: SearchHost>(
    host: H,
    before: Option<Searcher>,
    terms: SearchTerms,
    max_depth: usize,
    b: Point<H>,
    answer: Option<(Move, i32)>,
) -> bool {
    exists|a: Point<H>| #[trigger]
        search_starts(host, before, terms, a) && answered(a, max_depth, b, answer)
            && sound_answer(a.host, a.searcher.pv_table@[0], answer) && taken_back(a.host, b.host)
}

/// The move and the score of a result.
pub open spec fn answer_of(r: Option<(Move, i32, SearchStats)>) -> Option<(Move, i32)> {
    match r {
        Some((m, score, _)) => Some((m, score)),
        None => None,
    }
}

/// A time-limited search on one of several threads. Helper threads have a
/// random generator of their own.
pub fn get_best_move_threaded<H: SearchHost>(
    state: &mut SearchState,
    host: &mut H,
    max_depth: usize,
    opt_time_ms: u128,
    max_time_ms: u128,
    silent: bool,
    thread_id: usize,
    is_soft_limit: bool,
) -> (r: Option<(Move, i32, SearchStats)>)
    requires
        old(state).wf(),
        old(state).can_search(),
        looks_ahead(thread_id) ==> max_depth >= 1,
    ensures
        final(state).wf(),
        final(state).can_search(),
        final(state).pawn_cache == old(state).pawn_cache,
        final(state).searcher matches Some(s) && {
            &&& s.thread_id == thread_id
            &&& s.silent == silent
            &&& s.hot.optimum_time_ms == opt_time_ms
            &&& s.hot.maximum_time_ms == max_time_ms
            &&& s.hot.is_soft_limit == is_soft_limit
            &&& r matches Some((_, _, stats)) ==> stats_told(&s, final(host), stats)
            &&& search_answered(
                *old(host),
                old(state).searcher,
                thread_terms(thread_id, opt_time_ms, max_time_ms, silent, is_soft_limit),
                max_depth,
                at(*final(host), s),
                answer_of(r),
            )
        },
{
    let ghost h0 = *host;
    let ghost before = state.searcher;
    let ghost terms = thread_terms(thread_id, opt_time_ms, max_time_ms, silent, is_soft_limit);
    host.prepare();
    let ghost ready = *host;
    let mut searcher = state.take_searcher(max_time_ms);
    let ghost start = searcher;
    if thread_id > 0 {
        searcher.rng = Prng::new(searcher.seed.wrapping_add(thread_id as u64));
    }
    searcher.new_search();
    let ghost begun = Searcher { rng: start.rng, ..searcher };
    searcher.hot.set_time_limits(opt_time_ms, max_time_ms, is_soft_limit);
    searcher.silent = silent;
    searcher.thread_id = thread_id;
    host.start_clock();
    let game = host.game();
    let ghost g = *game;
    searcher.set_corrhist_mode(game);
    let ghost a = at(*host, searcher);
    proof {
        searcher.lemma_valid();
        reveal(Searcher::bearings);
        assert(h0.prepares(&ready) && ready.starts_clock(&a.host));
        assert(prepared(h0, a.host));
        assert(call_ensures(H::game, (&a.host,), &g));
        assert(begun.search_begun(&start));
        assert(a.searcher.readied(&start, terms));
        assert(taken_from(before, start, max_time_ms));
        assert(search_starts(h0, before, terms, a));
    }
    let found = search_with_searcher(&mut searcher, host, max_depth);
    let stats = build_search_stats(&searcher, host);
    proof {
        searcher.lemma_valid();
        assert(searcher.bearings().settings() == a.searcher.bearings().settings());
        reveal(search_answered);
        assert(search_answered(
            h0,
            before,
            terms,
            max_depth,
            at(*host, searcher),
            found,
        ));
    }
    state.searcher = Some(searcher);
    match found {
        Some((m, score)) => Some((m, score, stats)),
        None => None,
    }
}

/// A time-limited search on this thread.
pub fn get_best_move_parallel<H: SearchHost>(
    state: &mut SearchState,
    host: &mut H,
    max_depth: usize,
    opt_time_ms: u128,
    max_time_ms: u128,
    silent: bool,
    is_soft_limit: bool,
) -> (r: Option<(Move, i32, SearchStats)>)
    requires
        old(state).wf(),
        old(state).can_search(),
    ensures
        final(state).wf(),
        final(state).can_search(),
        final(state).pawn_cache == old(state).pawn_cache,
        final(state).searcher matches Some(s) && {
            &&& s.thread_id == 0
            &&& s.silent == silent
            &&& s.hot.optimum_time_ms == opt_time_ms
            &&& s.hot.maximum_time_ms == max_time_ms
            &&& s.hot.is_soft_limit == is_soft_limit
            &&& r matches Some((_, _, stats)) ==> stats_told(&s, final(host), stats)
            &&& search_answered(
                *old(host),
                old(state).searcher,
                thread_terms(
                    0,
                    opt_time_ms,
                    max_time_ms,
                    silent,
                    is_soft_limit,
                ),
                max_depth,
                at(*final(host), s),
                answer_of(r),
            )
        },
{
    get_best_move_threaded(
        state,
        host,
        max_depth,
        opt_time_ms,
        max_time_ms,
        silent,
        0,
        is_soft_limit,
    )
}

/// The best move, its score for the side to move and figures of the search.
pub fn get_best_move<H: SearchHost>(
    state: &mut SearchState,
    host: &mut H,
    max_depth: usize,
    time_limit_ms: u128,
    silent: bool,
    is_soft_limit: bool,
) -> (r: Option<(Move, i32, SearchStats)>)
    requires
        old(state).wf(),
        old(state).can_search(),
    ensures
        final(state).wf(),
        final(state).can_search(),
        final(state).pawn_cache == old(state).pawn_cache,
        final(state).searcher matches Some(s) && {
            &&& s.thread_id == 0
            &&& s.silent == silent
            &&& s.hot.optimum_time_ms == time_limit_ms
            &&& s.hot.maximum_time_ms == time_limit_ms
            &&& s.hot.is_soft_limit == is_soft_limit
            &&& r matches Some((_, _, stats)) ==> stats_told(&s, final(host), stats)
            &&& search_answered(
                *old(host),
                old(state).searcher,
                thread_terms(
                    0,
                    time_limit_ms,
                    time_limit_ms,
                    silent,
                    is_soft_limit,
                ),
                max_depth,
                at(*final(host), s),
                answer_of(r),
            )
        },
{
    get_best_move_parallel(
        state,
        host,
        max_depth,
        time_limit_ms,
        time_limit_ms,
        silent,
        is_soft_limit,
    )
}

/// The up to `multi_pv` best lines, the better ones first.
pub fn get_best_moves_multipv<H: SearchHost>(
    state: &mut SearchState,
    host: &mut H,
    max_depth: usize,
    opt_time_ms: u128,
    max_time_ms: u128,
    multi_pv: usize,
    silent: bool,
    is_soft_limit: bool,
) -> (r: MultiPVResult)
    requires
        old(state).wf(),
        old(state).can_search(),
        looks_ahead(old(state).thread()) ==> max_depth >= 1,
    ensures
        final(state).wf(),
        final(state).can_search(),
        final(state).pawn_cache == old(state).pawn_cache,
        final(state).searcher matches Some(s) && stats_told(
            &s,
            final(host),
            r.stats,
        ) && lines_found(
            *old(host),
            old(state).searcher,
            lines_terms(
                old(state).thread(),
                opt_time_ms,
                max_time_ms,
                silent,
                is_soft_limit,
            ),
            max_depth,
            multi_pv,
            at(*final(host), s),
            r.lines@,
        ),
{
    let ghost h0 = *host;
    let ghost before = state.searcher;
    let ghost terms = lines_terms(
        state.thread(),
        opt_time_ms,
        max_time_ms,
        silent,
        is_soft_limit,
    );
    host.prepare();
    let ghost ready = *host;
    let wanted: usize = if multi_pv == 0 {
        1
    } else {
        multi_pv
    };
    let mut searcher = state.take_searcher(max_time_ms);
    let ghost start = searcher;
    searcher.new_search();
    let ghost begun = searcher;
    searcher.hot.set_time_limits(opt_time_ms, max_time_ms, is_soft_limit);
    searcher.silent = silent;
    host.start_clock();
    let game = host.game();
    let ghost g = *game;
    searcher.set_corrhist_mode(game);
    searcher.move_rule_limit = rule_limit(game);
    let ghost a = at(*host, searcher);
    proof {
        searcher.lemma_valid();
        reveal(Searcher::bearings);
        assert(h0.prepares(&ready) && ready.starts_clock(&a.host));
        assert(prepared(h0, a.host));
        assert(call_ensures(H::game, (&a.host,), &g));
        assert(rule_set(&a.host, a.searcher));
        assert(begun.search_begun(&start));
        assert(a.searcher.readied(&start, terms));
        assert(taken_from(before, start, max_time_ms));
        assert(search_starts(h0, before, terms, a));
    }
    if wanted == 1 {
        let mut lines: Vec<PVLine> = Vec::new();
        let found = search_with_searcher(&mut searcher, host, max_depth);
        if let Some((m, score)) = found {
            let pv = searcher.extract_pv_only(host, max_depth);
            let reached: usize = if searcher.hot.seldepth > 1 {
                searcher.hot.seldepth
            } else {
                1
            };
            lines.push(
                PVLine {
                    mv: m,
                    score,
                    depth: if max_depth < reached {
                        max_depth
                    } else {
                        reached
                    },
                    pv,
                },
            );
        }
        let stats = build_search_stats(&searcher, host);
        proof {
            let b = at(*host, searcher);
            searcher.lemma_valid();
            assert(line_answered(a, max_depth, b, lines@));
            lemma_lines_found(h0, before, terms, max_depth, multi_pv, a, b, lines@);
        }
        state.searcher = Some(searcher);
        return MultiPVResult { lines, stats };
    }
    let r = get_best_moves_multipv_impl(&mut searcher, host, max_depth, wanted, silent);
    proof {
        let b = at(*host, searcher);
        searcher.lemma_valid();
        lemma_lines_found(h0, before, terms, max_depth, multi_pv, a, b, r.lines@);
    }
    state.searcher = Some(searcher);
    r
}

/// The line of a search for one move, from `a` to `b`: the move, its score, the
/// depth that was reached and the principal variation, extended by the table's
/// moves.
pub open spec fn line_answered<H: SearchHost>(
    a: Point<H>,
    max_depth: usize,
    b: Point<H>,
    lines: Seq<PVLine>,
) -> bool {
    exists|found: Option<(Move, i32)>| #[trigger]
        answered(a, max_depth, b, found) && sound_answer(a.host, a.searcher.pv_table@[0], found)
            && match found {
            Some((m, score)) => lines.len() == 1 && lines[0].mv == m && lines[0].score == score
                && lines[0].depth == depth_reached(max_depth, b.searcher.hot.seldepth)
                && b.searcher.line_shown(&b.host, max_depth as int, lines[0].pv@),
            None => lines.len() == 0,
        }
}

/// A search for the best lines on these terms leads to `b` and finds these. One
/// line is that of a search for one move. The game is left as it was prepared.
#[verifier::opaque]
pub open spec fn lines_found<H: SearchHost>(
    host: H,
    before: Option<Searcher>,
    terms: SearchTerms,
    max_depth: usize,
    multi_pv: usize,
    b: Point<H>,
    lines: Seq<PVLine>,
) -> bool {
    exists|a: Point<H>| #[trigger]
        search_starts(host, before, terms, a) && taken_back(
            a.host,
            b.host,
        ) && if multi_pv <= 1 {
            line_answered(a, max_depth, b, lines)
        } else {
            lines_answered(a, max_depth, multi_pv, terms.silent, b, lines) && sound_lines(
                a.host,
                multi_pv as int,
                lines_untimed::<H>(&a.searcher) && max_depth >= 1,
                lines,
            )
        }
}

proof fn lemma_lines_found<H: SearchHost>(
    host: H,
    before: Option<Searcher>,
    terms: SearchTerms,
    max_depth: usize,
    multi_pv: usize,
    a: Point<H>,
    b: Point<H>,
    lines: Seq<PVLine>,
)
    requires
        search_starts(host, before, terms, a),
        taken_back(a.host, b.host),
        if multi_pv <= 1 {
            line_answered(a, max_depth, b, lines)
        } else {
            lines_answered(a, max_depth, multi_pv, terms.silent, b, lines) && sound_lines(
                a.host,
                multi_pv as int,
                lines_untimed::<H>(&a.searcher) && max_depth >= 1,
                lines,
            )
        },
    ensures
        lines_found(host, before, terms, max_depth, multi_pv, b, lines),
{
    reveal(lines_found);
}

/// A search below full strength: a shallow search for several lines, among
/// which chance selects. At the highest level it is an ordinary search.
pub fn get_best_move_limited<H: SearchHost>(
    state: &mut SearchState,
    host: &mut H,
    max_depth: usize,
    opt_time_ms: u128,
    max_time_ms: u128,
    strength_level: Option<u32>,
    silent: bool,
    is_soft_limit: bool,
) -> (r: Option<(Move, i32, SearchStats)>)
    requires
        old(state).wf(),
        old(state).can_search(),
        looks_ahead(old(state).thread()) ==> max_depth >= 1,
    ensures
        final(state).wf(),
        final(state).can_search(),
        final(state).pawn_cache == old(state).pawn_cache,
        final(state).searcher matches Some(s) && {
            &&& s.silent == silent
            &&& s.hot.optimum_time_ms == opt_time_ms
            &&& s.hot.maximum_time_ms == max_time_ms
            &&& s.hot.is_soft_limit == is_soft_limit
            &&& r matches Some((_, _, stats)) ==> stats_told(&s, final(host), stats)
            &&& if asked_skill(strength_level) == MAX_SITE_SKILL {
                exists|ready: H| #[trigger]
                    old(host).prepares(&ready) && search_answered(
                        ready,
                        old(state).searcher,
                        thread_terms(
                            0,
                            opt_time_ms,
                            max_time_ms,
                            silent,
                            is_soft_limit,
                        ),
                        max_depth,
                        at(*final(host), s),
                        answer_of(r),
                    )
            } else {
                weakly_answered(
                    *old(host),
                    old(state).searcher,
                    lines_terms(
                        old(state).thread(),
                        opt_time_ms,
                        max_time_ms,
                        silent,
                        is_soft_limit,
                    ),
                    max_depth,
                    skill_on_scale(asked_skill(strength_level) as int),
                    at(*final(host), s),
                    answer_of(r),
                )
            }
        },
{
    let ghost h0 = *host;
    let ghost before = state.searcher;
    let ghost terms = lines_terms(
        state.thread(),
        opt_time_ms,
        max_time_ms,
        silent,
        is_soft_limit,
    );
    host.prepare();
    let ghost ready = *host;
    assert(h0.prepares(&ready));
    let asked: u32 = clamp_skill(strength_level);
    if asked >= MAX_SITE_SKILL {
        return get_best_move_parallel(
            state,
            host,
            max_depth,
            opt_time_ms,
            max_time_ms,
            silent,
            is_soft_limit,
        );
    }
    let mut searcher = state.take_searcher(max_time_ms);
    let ghost taken = searcher;
    searcher.new_search();
    let ghost begun = searcher;
    searcher.silent = silent;
    host.start_clock();
    let ghost clocked = *host;
    let game = host.game();
    let ghost g = *game;
    searcher.set_corrhist_mode(game);
    searcher.move_rule_limit = rule_limit(game);
    let skill: u32 = scaled_skill(asked);
    let deepest: usize = skill as usize + 1;
    let depth: usize = if max_depth < deepest {
        max_depth
    } else {
        deepest
    };
    searcher.hot.set_time_limits(opt_time_ms, max_time_ms, is_soft_limit);
    host.set_budget(opt_time_ms);
    let ghost start = searcher;
    let ghost a = at(*host, searcher);
    proof {
        searcher.lemma_valid();
        reveal(Searcher::bearings);
        assert(ready.starts_clock(&clocked));
        assert(prepared(h0, clocked));
        assert(call_ensures(H::game, (&clocked,), &g));
        assert(rule_set(&clocked, start));
        assert(begun.search_begun(&taken));
        assert(start.readied(&taken, terms));
        assert(taken_from(before, taken, max_time_ms));
        assert(search_starts(h0, before, terms, at(clocked, start)));
        assert(clocked.sets_budget(opt_time_ms, &a.host));
    }
    let result = get_best_moves_multipv_impl(&mut searcher, host, depth, MAX_PV_COUNT, silent);
    let ghost e = at(*host, searcher);
    proof {
        searcher.lemma_valid();
        assert(searcher.bearings().settings() == start.bearings().settings());
    }
    let draws: Vec<i32> = if result.lines.len() > 1 {
        draw_numbers(&mut searcher.rng, host, result.lines.len(), skill)
    } else {
        Vec::new()
    };
    let picked = pick_best(&result, skill, &draws);
    proof {
        searcher.lemma_valid();
        reveal(Searcher::bearings);
        assert(chosen(result.lines@, skill as int, draws@, picked));
        if result.lines@.len() <= 1 {
            assert(draws@ =~= Seq::<i32>::empty());
        }
        assert(picked_among(
            e,
            result.lines@,
            skill as int,
            draws@,
            at(*host, searcher),
            picked,
        ));
        lemma_weakly_answered(
            h0,
            before,
            terms,
            max_depth,
            skill as int,
            at(clocked, start),
            a.host,
            e,
            result.lines@,
            draws@,
            at(*host, searcher),
            picked,
        );
    }
    state.searcher = Some(searcher);
    match picked {
        Some((m, score)) => Some((m, score, result.stats)),
        None => None,
    }
}

/// One of some lines is chosen by numbers that the searcher's generator gives: one
/// for each, unless there is only one.
pub open spec fn picked_among<H: SearchHost>(
    e: Point<H>,
    lines: Seq<PVLine>,
    skill: int,
    draws: Seq<i32>,
    b: Point<H>,
    answer: Option<(Move, i32)>,
) -> bool {
    &&& b.host == e.host
    &&& b.searcher == (Searcher { rng: b.searcher.rng, ..e.searcher })
    &&& if lines.len() > 1 {
        drawn(&e.host, e.searcher.rng.state, lines.len(), skill, draws, b.searcher.rng.state)
    } else {
        draws.len() == 0 && b.searcher.rng == e.searcher.rng
    }
    &&& chosen(lines, skill, draws, answer)
}

/// A search below full strength leads to `b` and gives this answer: one of the
/// lines of a shallow search for several, chosen by chance.
#[verifier::opaque]
pub open spec fn weakly_answered<H: SearchHost>(
    host: H,
    before: Option<Searcher>,
    terms: SearchTerms,
    max_depth: usize,
    skill: int,
    b: Point<H>,
    answer: Option<(Move, i32)>,
) -> bool {
    exists|a: Point<H>, budgeted: H, e: Point<H>, lines: Seq<PVLine>, draws: Seq<i32>|
        #![trigger
            search_starts(host, before, terms, a),
            a.host.sets_budget(terms.opt_time_ms, &budgeted),
            picked_among(e, lines, skill, draws, b, answer)
        ]
        search_starts(host, before, terms, a) && a.host.sets_budget(
            terms.opt_time_ms,
            &budgeted,
        ) && lines_answered(
            at(budgeted, a.searcher),
            min(max_depth as int, skill + 1) as usize,
            MAX_PV_COUNT,
            terms.silent,
            e,
            lines,
        ) && sound_lines(
            budgeted,
            MAX_PV_COUNT as int,
            lines_untimed::<H>(&a.searcher) && max_depth >= 1,
            lines,
        ) && taken_back(budgeted, b.host) && picked_among(e, lines, skill, draws, b, answer)
}

proof fn lemma_weakly_answered<H: SearchHost>(
    host: H,
    before: Option<Searcher>,
    terms: SearchTerms,
    max_depth: usize,
    skill: int,
    a: Point<H>,
    budgeted: H,
    e: Point<H>,
    lines: Seq<PVLine>,
    draws: Seq<i32>,
    b: Point<H>,
    answer: Option<(Move, i32)>,
)
    requires
        search_starts(host, before, terms, a),
        a.host.sets_budget(terms.opt_time_ms, &budgeted),
        lines_answered(
            at(budgeted, a.searcher),
            min(max_depth as int, skill + 1) as usize,
            MAX_PV_COUNT,
            terms.silent,
            e,
            lines,
        ),
        sound_lines(
            budgeted,
            MAX_PV_COUNT as int,
            lines_untimed::<H>(&a.searcher) && max_depth >= 1,
            lines,
        ),
        taken_back(budgeted, b.host),
        picked_among(e, lines, skill, draws, b, answer),
    ensures
        weakly_answered(host, before, terms, max_depth, skill, b, answer),
{
    reveal(weakly_answered);
}

/// The nodes that a search to a depth visits, with empty tables and no time
/// limit.
pub fn negamax_node_count_for_depth<H: SearchHost>(host: &mut H, depth: usize) -> (r: u64)
    requires
        1 <= depth,
    ensures
        nodes_counted(*old(host), depth, *final(host), r),
{
    let ghost h0 = *host;
    host.prepare();
    let ghost ready = *host;
    let mut searcher = Searcher::new(u128::MAX);
    let game = host.game();
    let ghost g = *game;
    searcher.set_corrhist_mode(game);
    searcher.reset_for_iteration();
    searcher.decay_history();
    host.clear_tt();
    let ghost cleared = *host;
    let mut moves = legal_root_moves(host);
    let ghost legal = moves;
    let ghost a = at(*host, searcher);
    proof {
        searcher.lemma_valid();
        reveal(Searcher::bearings);
        assert(call_ensures(H::game, (&ready,), &g));
        assert(mode_set(&ready, searcher));
    }
    let score: i32 = negamax_root(&mut searcher, host, depth, -INFINITY, INFINITY, &mut moves);
    proof {
        lemma_back_then(cleared, a.host, *host);
        assert(h0.prepares(&ready) && ready.clears_tt(&cleared));
        assert(legal_listed(cleared, legal@, a.host));
        reveal(nodes_counted);
        assert(root_result(
            a,
            legal,
            depth,
            (-INFINITY) as i32,
            INFINITY,
            moves,
            at(*host, searcher),
            score,
        ));
    }
    searcher.hot.nodes
}

/// The nodes of a search of the root with the full window, by a searcher that knows
/// nothing and has no time limit. The game is prepared and its table cleared; after
/// that it is left as it was.
#[verifier::opaque]
pub open spec fn nodes_counted<H: SearchHost>(host: H, depth: usize, later: H, nodes: u64) -> bool {
    exists|
        ready: H,
        cleared: H,
        listed: H,
        s: Searcher,
        moves: MoveList,
        ordered: MoveList,
        end: Searcher,
        score: i32,
    |
        #![trigger
            host.prepares(&ready),
            ready.clears_tt(&cleared),
            root_result(
                Point { host: listed, searcher: s },
                moves,
                depth,
                (-INFINITY) as i32,
                INFINITY,
                ordered,
                Point { host: later, searcher: end },
                score,
            )
        ]
        host.prepares(&ready) && ready.clears_tt(&cleared) && mode_set(&ready, s) && legal_listed(
            cleared,
            moves@,
            listed,
        ) && s.valid() && (Searcher { corrhist_mode: CorrHistMode::NonPawnBased, ..s }).is_new(
            u128::MAX,
        ) && s.bearings().is_untimed() && root_result(
            Point { host: listed, searcher: s },
            moves,
            depth,
            (-INFINITY) as i32,
            INFINITY,
            ordered,
            Point { host: later, searcher: end },
            score,
        ) && nodes == end.hot.nodes && (moves@.len() == 0 ==> nodes == 0) && taken_back(
            cleared,
            later,
        )
}

} // verus!
