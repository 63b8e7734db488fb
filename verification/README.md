# DANEEL (verified core)

DANEEL is an experimental cognitive architecture after the Theory of
Multifocal Intelligence: pre-linguistic content competes for attention,
winners are assembled into thoughts, anchored to memory or forgotten.

- `src/` is the library, verified with Verus: content and its embedding
  text, the cognitive loop's bookkeeping and pacing, thought assembly and
  chains, the continuity anchor (experiences, milestones, checkpoints and
  restore), identity counters, sleep totals, the pink-noise octave schedule,
  association-graph statements and the GraphML export, and the API's checks
  and metrics helpers.
- `app/` is the program around it: the asynchronous loop, Redis, Qdrant and
  HTTP I/O, and everything computed in floating point (salience, attention,
  drives, noise values, observatory statistics).
- `tests/` exercises the library.
