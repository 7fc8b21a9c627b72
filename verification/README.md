# depotgamedl

A Steam depot download helper. It reads a depot script (`.lua`) or a zip
bundle of a script and its manifests, finds the manifest ids of the game's
depots, fetches the manifests, writes `config.vdf`, runs DepotDownloader
over the prepared depots, and adds or removes game patches.

## Layout

- `src/` is the library, written in Verus: every function carries a
  contract. The library's own functions are proved against theirs; the few
  functions that call into std, `zip` or `regex` (marked trusted in their
  doc comments) have contracts that are assumed, not proved.
  - `text` — trimming, substring search, decimal notation and parsing.
  - `lua` — the four call shapes of a depot script, matched the way a
    Unicode-aware, leftmost-first regular expression matcher matches them.
  - `parser` — the game description a script declares, reading a zip
    bundle, and the outcome of an import.
  - `json` — the JSON document model that the manifest lookup reads.
  - `manifest` — manifest ids from the Steam information replies, the
    neighbouring-app search, request codes, manifest file names,
    `config.vdf`, and the fetch loop.
  - `downloader` — where the cache lives, whether a download can start,
    the servers to try, the tool's output cut into lines, a saved session.
  - `archive` — zip archives held in memory (through the `zip` crate).
  - `config`, `locales`, `patch` — settings, messages, patch bookkeeping.
- `tests/` runs the library on concrete values.
- `app/` is a command-line host: file, network and process work, serde
  copies of the library's types, and the loops that await.
