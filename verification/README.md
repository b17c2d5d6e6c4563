# infinite_chess

The decision logic of an engine for chess on an unbounded board, written in
Verus: contracts state what its functions return and change, and are proved.

- `src/evaluation` scores a position: material, piece activity, king safety and
  pawn structure, blended from middlegame to endgame; `variants/chess` scores
  ordinary chess.
- `src/search` searches for a move: iterative deepening, alpha-beta with its
  pruning rules and reductions, quiescence, histories and corrections, several
  best lines, play below full strength and the vote of several threads.
- `src/board`, `src/moves` and `src/game` hold the pieces, moves and facts of a
  game that these rest on; `src/text` writes numbers.

A search asks the game it searches through the trait `SearchHost`: rules, move
generation, the transposition table and the clock. The trait promises nothing,
so a search stays within its tables and windows, and ends, whatever a game
answers. Each method that changes the game has a relation beside it that names
the step. `src/search/results` says with these, and with the game's answers, from
which state of the game and the searcher to which other a search leads, and with
which score; `src/search/steps` says that every move made on the way is taken
back.

The lists of `smallvec` and `arrayvec` and the hash map of `rustc-hash` are used
through a few wrappers, each with a contract that is taken as given.

`app` holds what surrounds the library: the clock with its floating-point
budget, output, parameters as JSON, and threads.
