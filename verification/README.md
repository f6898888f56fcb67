# leotower

Replay sessions over an embedded Lean 4 runtime, with a verified core.

A session imports a module (or elaborates a `.lean` file), takes a goal and applies tactics step
by step. Each success appends a state; any earlier state can be worked on again. Lean's own
elaborator runs in-process through [leo3](https://github.com/AndPuQing/leo3).

## Layout

- `src/` is the library, verified with Verus.
  - `repl`: the states of a session, which goal a request is about, what the next state holds.
  - `history`: what holds over any sequence of operations.
  - `sequence`: tactic sequences that stop at the first failure.
  - `check`, `environment`: `#check`- and `#print`-style queries, name shadowing, lookups.
  - `regions`, `import`: when the memory behind an import may be freed, and when an import must
    be refused.
  - `display`, `error`, `text`, `list`: goals, states, messages and numerals as text.
  - `session`: numbers and strings computed by the Lean runtime.
- `app/` is the Python extension `leotower._leotower`: it calls the elaborator, reads files and
  mappings, and hands the library what came of each step.
- `tests/` runs the library on concrete values.

The library holds the environment. Goals, elaborator states and mapped regions live in the runtime;
the library knows them by handle and is given the outcome of each outside step as an argument. The
type of environments is a parameter, leo3's by default, so that sessions can be tried without a
runtime.

## What is proved

- States are never changed or removed, ids are dense, and branches from one state are
  independent.
- The number of states is the number of goals set and tactics that succeeded, over any sequence of
  operations.
- A tactic keeps the goals that it did not work on; two goals can be worked on in either order.
- A success installs the environment that it left, and the next query reads it; a failed request,
  tactic or command leaves the session as it was.
- The commands of a source file run in order, each in the environment that the one before it left,
  and nothing is imported unless freed regions are mapped again.
- The goals of a state are shown one for one, in the snapshot of that state.
- Regions are freed only where each of them is known to be a file mapping that can be mapped
  again, and what was unmapped is recorded unless the process is quarantined.
- Messages, numerals and rendered goals have exact contracts, up to the texts that Lean and the
  standard library's `Debug` supply.

## What is trusted

The lookups, numbers and strings of leo3 0.3 are reached through small wrappers in `environment`
and `session`, and the standard library's `Debug` through one in `import`; the doc comment of each
says what is taken on trust. The replay part of the
extension needs leo3 from its main branch: the elaborator API that it calls is in no published
release. Running either part needs a Lean 4.25.2 toolchain.
