# core_p2p

Verified core of a peer-to-peer relay for SHA-256-named video blobs.

- `src/` — the library, verified with Verus:
  - `hashing` — blob names: lower-case hex of SHA-256 (`sha2`, `hex`), and the
    check that a text is a blob name;
  - `text` — UTF-8/ASCII conversions and the lemmas about them;
  - `blob` — `Blob` (bytes with their content name) and `BlobStore`, a
    content-addressed map from name to bytes;
  - `protocol` — the `sport-p2p/blob/0` rules: what a peer answers to a
    request, the sender's acknowledgement check, the fetcher's integrity
    check, waiting for a blob; and the laws that tie them together;
  - `peers` — the registry of local peers and how a remote id becomes the key
    to dial (`iroh` key parsing);
  - `disk` — the blob directory setting.
- `app/` — the Node addon (napi, tokio, iroh endpoints), the browser peer
  (wasm-bindgen) and the disk I/O, all calling the library for their decisions.
- `tests/` — tests of the library on concrete values.
