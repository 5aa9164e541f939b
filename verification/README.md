# music_player_backend

The decision-making core of a desktop music player, verified with Verus:
matching online tracks against the local library, ranking discovery and
search results, choosing download offers from Internet Archive, Audius,
yt-dlp and Soulseek, accounting for listening sessions, keeping cloud
synchronisation from undoing local deletions, and the rules for accounts,
paths and file names.

Layout:

- `src/` — the verified library. Every public function carries a contract
  stated over mathematical views (`Seq<char>` for text), and the library's
  laws are public proof functions (`law_*`).
- `tests/` — executable tests of the library on concrete values.
- `app/` — a small command-line front end: network access, JSON reading,
  and the computations on floating-point numbers.

Calls into other crates (`url` through `reqwest`, `sha2`, `base64`, and a
few `std` string functions whose results depend on Unicode tables) go
through small wrappers whose contracts state their results where a few
lines can (base64, the ASCII behaviour of case mapping) and name them
elsewhere.
