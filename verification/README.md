# novelgraph

The analysis core of NovelGraph, a workspace that turns novels into character
knowledge: chapters are split, characters and their aliases are found, their
mentions are grounded in the chapter text, and relationships between them are
kept once per pair, each with the evidence that supports it. Matching a
character against those of earlier chapters rests on floating-point scores
and is not part of this library.

The library's functions under `src/` are verified with Verus against contracts
written over mathematical models of their inputs (`Seq`, `Map`, views of the
records). The few calls into `std`, `ring` and `base64` that Verus cannot read
(lowercasing, path joining, hashing, sealing, base64) go through small trusted
wrappers; each one's doc comment says what its contract claims of the call.
The per-chapter analysis and the relationship pass are verified as state
machines: a step function takes the current state and the outcome of the last
outside action (a model call, a store write) and returns the next state and
action.
The laws of the library (round trips, what merging keeps, one record per pair
or per character) stand beside the functions as proof functions.

Layout:

- `src/` — the verified library, one module per concern: text and keys,
  chapter import, jobs and analysis steps, character identities and aliases,
  mentions and occurrences, extraction documents and records, relationships,
  the cloud one-shot pass, provider keys and their sealing, the local model
  runtime, configuration.
- `tests/` — tests of the library on concrete values.
- `app/` — the command line around it: settings from the environment, files
  in and JSON out; the loops that run the chapter analysis and the
  relationship pass, doing the outside work each step asks for; and the
  model's confidence scores, which are floating-point numbers and are
  compared there.
