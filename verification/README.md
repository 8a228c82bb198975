# aspen

A UCI chess engine whose protocol and search logic is written in Verus and
proved against its contracts.

- `src/` is the verified library:
  - `text`, `integer`, `format`: splitting a line into words, joining words,
    reading and writing decimal integers (with the round trip between them).
  - `command`: reading a line of the UCI protocol into a `UciCommand`, with a
    specification of every command and every error.
  - `options`, `attributes`: engine options, their `option` lines, what a
    `setoption` does to them (a spin value is read as a value of its field's
    integer type), and how a field's attributes declare an option.
  - `response`: the lines the engine sends.
  - `driver`: the protocol loop's decisions, as a step function from state and
    event to next state and actions.
  - `board`: setting up the board of a `position` command.
  - `alphabeta`: negamax and alpha-beta search as specifications, and the proof
    that alpha-beta search is exact inside its window.
  - `search`: time management, the search's stop rules, and the verified
    iterative-deepening alpha-beta search.
  - `evaluation`: the tapered blend of midgame and endgame scores.
  - `chess`: the calls into shakmaty, with the contracts they are trusted with.
- `app/` is the engine program: reading stdin, threads, the output, and the
  piece-square sums of the static evaluation.
- `tests/` runs the library.
