# hhgoa-face-chain

Face scan → web/social discovery → evidence hash → blockchain record, with the
logic written in Verus and proved against its contracts.

Layout:

- `src/` — the verified library.
  - `text.rs`: character-level string helpers (trimming, lines, substring search, decimals).
  - `digest.rs`: SHA-256 fingerprints in lowercase hex.
  - `face.rs`: the skin-tone face detector, the 16×16 perceptual encoding, `scan_face_bytes`.
  - `search.rs`: search hits, SerpApi Lens matches, candidate selection and ordering, request arguments.
  - `upload.rs`: re-encoding an image over 500 KB as a JPEG that fits the upload limit.
  - `discovery.rs`: the discovery session (fixture or SerpApi), a state machine driven by the caller.
  - `evidence.rs`: the evidence record and its hash.
  - `chain.rs`: the local hash-linked chain and Solana memo publication, as a state machine.
  - `report.rs`: console and HTML report text.
- `tests/` — tests run against the compiled library.
- `app/` — the command line program: argument parsing, files, `curl` and `solana`
  processes, JSON, and the printed tables.
