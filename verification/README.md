# SparkCollectPlugin

A Hachimi plugin for Umamusume Pretty Derby that submits career results, and
every spark list seen while rerolling, to the SparkTracker worker API.

The crate is a verified library (`src/`, checked by Verus) and a thin plugin
shell around it (`app/`).

## Library (`src/`)

- `msgpack` — the decoded response value (`MsgValue`), key lookups, and the
  body decoding (rmpv, whole body or past a 4-byte prefix).
- `extract` — packed `factor_id` decoding into stat, aptitude, unique and white
  sparks; rank labels; the career-finish summary and the reroll candidate
  lists read out of a response.
- `worker` — the JSON documents sent to the worker (a career-finish run and
  the variants of a finish that followed rerolls, each with its `"kind"`),
  with string escaping and decimal numbers.
- `plugin` — settings (read from the properties file with java_properties,
  trimmed, numeric with defaults), the snapshot of the pre-reroll and reroll
  spark lists and its age bound, spark matching, the cooldown (career finishes
  only), deduplication of reroll candidates by lottery id, the
  `submit_factor_lists` switch, and what one intercepted response leads to
  (`process_response`).
- `text` — character and decimal-number string building.
- `il2cpp`, `sdk` — the plugin's view of the host API table and of IL2CPP
  lists, dictionaries, enumerators and threads, with objects held by address.
- `laws` — properties across functions: spark matching is an equivalence that
  ignores white-spark order and repetition, a finish after rerolls submits
  every candidate and selects at most one submission (exactly one when the
  finish's own row may go), the cooldown holds back repeated finishes but not
  new reroll candidates, no lottery id is submitted twice, decoding two
  `factor_id` lists one after the other equals decoding them joined, disabled lists
  submit no candidate, a snapshot is read back while fresh, plain text escapes
  to itself, a decimal number parses back to itself, and settings come out
  trimmed.

## Plugin shell (`app/`)

The host entry point, the hook on `Gallop.HttpHelper.DecompressResponse`, the
config file, the clock, threads, HTTP (ureq), debug dumps and the logger.
