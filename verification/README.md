# lol_assistant

A League of Legends desktop assistant. It reads the local League Client (lockfile,
HTTPS API, event socket, in-game Live Client Data), accepts ready checks, completes
picks and bans, shows who is in the lobby with their recent form, joins that with
champion advice, and fetches recommended rune pages.

## Layout

- `src/` — the library, verified with Verus. Every function states its behaviour in
  `requires`/`ensures`, over `Seq`/`Map`/`int` models of the data.
  - `text` — trimming, case folding, splitting, number formatting and parsing on
    character sequences.
  - `domain`, `application` — domain values, stored names (with round-trip lemmas),
    input validation (limits, ids, notes, tags, activity entries, settings), error
    mapping, refresh fallbacks, name normalisation (idempotent), and the activity log
    and saved rune pages kept through a store that the embedding program provides.
  - `lcu`, `status`, `paths`, `lockfile` — client payloads and how they become domain
    values: names, identities, statuses and warnings, asset and request paths,
    lockfile parsing.
  - `gameflow`, `roster` — champion-select and gameflow sessions, and the lobby roster
    built from them (positive ids are unique).
  - `performance` — per-champion records, most played champions, form tags, advisor
    lookups and matchups.
  - `overlay` — the own team and the item gold of each team in a live game.
  - `automation` — the ready-check acceptance as a state machine that always ends.
  - `hotkey` — the global shortcuts (Shift+Tab, Ctrl+Shift+1..9) as a state machine
    fed with key events, the overlay toggle and the chat preset lookup.
  - `runes`, `champion`, `remote`, `websocket`, `json` — rune guides, the champion
    catalog and its order, ability texts and stat labels, CommunityDragon paths,
    remote data addresses and validation, the lol.ps version search, socket framing,
    and the JSON access that goes through `serde_json`.
- `tests/` — tests of the library on concrete values.
- `app/` — the command-line program around the library: HTTP and socket I/O,
  process discovery, threads, the keyboard hook, and the arithmetic on floating
  point rates and ability numbers.
