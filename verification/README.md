# kirin_measure

Verified core of the Kirin measurement plug-ins: how a PRE and a POST plug-in find each
other, where their Record files live, when a Record or a pair of Records may be published,
and how a Record is bound to the WAV that was dropped for it.

The functions in `src/` are verified with Verus against their contracts, and the laws the
library keeps stand there as public proof functions (`lemma_*`). The exceptions are ten
private wrappers marked `#[verifier::external_body]`, whose contracts Verus believes without
proof; each makes one call into an outside crate or std and says in its doc comment what it
claims of it:

- `clock.rs`: `rfc3339_secs_nanos` (chrono RFC 3339 parse), `utc_now_instant` (current time);
- `path_identity.rs`: `sha256` (sha2), `fresh_uuid_v4_text` (uuid v4);
- `perceptual_exchange_codec.rs`: `uuid_bytes_from_slice` (uuid request id);
- `plugin_data.rs`: `local_compact_of_rfc3339` (chrono local rendering), `hmac_sha256`
  (hmac), `shift_compact` (chrono calendar shift);
- `writer.rs`: `now_iso8601` (current time as text);
- `text.rs`: `string_push` (`String::push`).

## Layout

- `src/path_model.rs`, `src/path_identity.rs` — paths as component sequences; the guard wall
  that folds path-unsafe identities into quarantine names inside the base directory.
- `src/plugin_data.rs` — Record file types, artifact paths, checksums, shelf slots, pair
  commit manifests and the reason lists shared by the gates.
- `src/record_gate.rs` — the publish gate of one Record side: TRACE coverage on the
  latency-mapped WAV lattice, bounce-take checks, integrity reasons, quality summary.
- `src/pair_gate.rs` — the publish, visibility and integrity gates of a PRE/POST pair.
- `src/late_expected.rs` — binding a closed Record to expected WAV metadata that arrived late,
  and rebuilding a pair on the WAV-start clock plan built for it.
- `src/pair_finalize.rs` — settling a pending pair: publish exactly, publish a measured
  fallback, quarantine, or wait.
- `src/annotations.rs` — MARK binding and the merged, time-ordered annotations of a pair.
- `src/writer.rs` — the Record writer and the rules that run when a Record closes.
- `src/drop_reconcile.rs` — the candidate files of a stopped pair named by a Drop.
- `src/pairing_scope.rs` — selecting and latching the PRE a POST pairs with.
- `src/perceptual.rs`, `src/perceptual_exchange_codec.rs` — Perceptual Delta configuration,
  difference timeline, and the exchange snapshot format with its decoder, encoder and
  round-trip law.
- `src/clock.rs`, `src/text.rs` — RFC 3339 instants, the freshness rule and text helpers.

`app/` holds the file-system edge: path conversion, the event queue, reading PRE/POST
snapshots, the annotation and manifest I/O around the library's decisions, and the
floating-point side of the Perceptual Delta snapshot (its values judged as numbers).
Measured values (loudness, sharpness, spectra) are floating point and stay outside the
library; the library reads only the integer and text facts of a Record.
