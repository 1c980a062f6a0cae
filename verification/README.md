# eschec

A chess engine whose core is verified with Verus: board representation, move
generation, make/unmake, Zobrist hashing, FEN and move notation, static
exchange evaluation, the evaluation function, the transposition table, move
ordering and the alpha-beta search, and the UCI command parser.

Layout:

- `src/` — the verified library. Public functions carry `requires`/`ensures`
  over spec functions; laws that span several functions are public proof
  functions (for example `board::lemma_unmake_undoes_make`,
  `tt::lemma_probe_after_store`, `search::lemma_ply_round_trip`). Move
  generation is proved to produce only moves that fit the position, not to
  produce every legal move, so the contracts that depend on the full set of
  legal moves (checkmate and stalemate tests, perft counts, search values)
  state less than the code does.
- `tests/` — scenario tests run against the compiled library.
- `app/` — the command-line front end: the UCI loop, an interactive game and
  move-path counting, with the I/O and floating-point parts that stay outside
  the library.
