# auto_video

The library behind a desktop media organiser: TV, movie, adult and VR libraries on local
folders, their metadata matches, and the covers shown for them. Its logic is written in Verus
and every function in `src/` is verified against its contract.

- `src/` — the verified library
  - `library_scan`, `episode` — which files a library walk takes, and how an episode path
    reads as show, season and episode
  - `tv_store`, `movie_store` — the metadata stores: their byte formats, checksums and
    validation, with round-trip laws
  - `tv_library`, `tv_scan`, `tv_matching`, `tv_trash` — the TV library state: scans, show
    groups, TMDB search and verification, saved matches, file actions and trashing
  - `movies_library`, `movie_matching` — the same for the movies library
  - `tmdb_cover`, `tmdb_cover_cache` — TMDB card covers: requests, poster URLs, image
    checks, the transport's output, the covers waiting to be shown, and their cache files
  - `json`, `tmdb_documents` — JSON values, and what TMDB's search and details documents
    offer
  - `presentation`, `presentation_context`, `presentation_resolve` — adult and VR item
    presentation: categories, verified identities, metadata, cover checks, the live cover
    requests, and the order in which providers are asked
  - `presentation_cache` — the presentation cache file: its line format, reading and
    writing with a round-trip law, entry validity, freshness, and the updates a resolution
    makes
  - `presentation_steps` — the decisions of a cover or metadata request through the cache:
    what the cache answers, and what a fresh resolution becomes
  - `legacy_document` — what an r18.dev item document offers: its jacket cover URL and its
    metadata
  - `provider`, `query`, `text`, `hex`, `digest` — provider replies, query encoding, text and
    hexadecimal helpers, and SHA-1 (through the `sha1` crate)
- `tests/` — tests run against the compiled library
- `app/` — the native side: file-system walks, store and cache reads and writes, the TV
  folder record, JSON text, cover ratios, and the command line
