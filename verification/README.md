# astro_indexer

The core of a desktop indexer for astrophotography images: it reads the
headers of FITS and XISF files, extracts their metadata, decides how a
directory scan counts and batches files, builds the catalogue's listing
queries, and locates and unpacks pixel data for previews. Every function
under `src/` is verified with Verus against its `requires`/`ensures`
contract.

## Layout

- `src/` — the verified library.
  - `fits.rs` — FITS header blocks and cards, values, keyword map, metadata.
  - `xisf.rs`, `xml.rs` — the XISF signature, header length and XML header
    (read with `quick-xml` through trusted wrappers), keywords, properties
    and metadata.
  - `header_map.rs`, `lookup.rs`, `metadata.rs` — the key/value map of a
    header, keyword lookups, and the metadata record.
  - `text.rs`, `numbers.rs` — whitespace, trimming, splitting, and the
    integer and float literal grammars used to decide what parses.
  - `indexer.rs` — file types by extension, change detection, the scan's
    counting and batching state, progress throttling, modification times.
  - `queries.rs` — the filtered listing query and its parameters, and
    which file paths lie in a scanned directory.
  - `preview.rs`, `words.rs`, `encoding.rs` — pixel data layout, XISF image
    information, LZ4 and byte-shuffle decoding, sample words in byte order,
    and the PNG `data:` URL of a preview.
  - `quality.rs` — the centre crop and candidate window of star
    measurement.
  - `laws.rs` — properties that span several functions, proved.
- `tests/` — tests of the library on concrete values.
- `app/` — the Tauri application around the library: commands, file,
  database and clock access, and the floating-point image work (stretch,
  sample scaling, star measurement), none of which is verified.
