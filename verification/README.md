# jarus_cache

A content cache keyed by strings. A key's UTF-8 bytes are hashed with
SHA-256; the first two digest bytes (in lower-case hex) name a two-level
directory and the remaining thirty bytes name the file that holds the value.

`src/` is the verified library (Verus):

- `layout` – hashing (`sha2`) and hex spelling (`hex`) of a key into its
  directory and file names.
- `paths` – path text joined as a Unix `PathBuf::join` joins it.
- `meta_codec` – the byte form of metadata records (`oxicode`, standard
  configuration) and its read-back, with round-trip laws.
- `v1engine` … `v4engine` – the four generations of the engine: path layout,
  the in-memory metadata table of the second, and the record, lookup and
  expiry decisions of the third and fourth.

`app/` holds the programs: file-system work, the RocksDB metadata store, the
clock, and printing, around the library's decisions.
