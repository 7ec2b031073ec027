# hft_core

Building blocks of a low-latency trading system, written in Verus: the functions in `src/` state
in their contracts what they return or change, and Verus proves it. Calls into other crates and into the
standard library stand behind small trusted functions, whose doc comments say what is taken on trust of
them.

- `exchange`: auction books, auctions, halts and the control of venues
- `execution`: routing, queue jumping, sweeps, icebergs, pegs, stops, conditional and post-only orders
- `feat_eng`, `features`: windows, rankings and the store of features
- `fix`: the FIX codec, sessions and the engine around them
- `forecast`, `hedging`, `impact`: what models keep and decide
- `gateway`: pools of connections, load balancing and failover
- `hardware`: topology, affinity, tuning and diagnostics
- `bytes`, `doubles`, `names`, `numbers`, `text`, `concurrent`: what the others share

Doubles stand in `src/` as their bits. `doubles` compares, bounds and negates them; what adds and
multiplies them is in `app/`, along with clocks, files, threads and channels. A function that depends on
such arithmetic takes its result as an argument and decides what becomes of it.

Laws that relate several functions are public proof functions whose names begin with `law_`.
