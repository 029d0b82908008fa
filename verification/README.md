# iceberg_transaction

Two snapshot-producing actions of an Apache Iceberg table transaction, verified
with Verus: replacing files by other files, and applying row-level changes.

- `src/` is the verified library.  It holds the files and settings of an action,
  decides whether the action is accepted, and decides for every manifest of the
  current snapshot which entries are recorded as deleted and whether the manifest
  is kept, rewritten or left out.  It does no I/O: where it needs a manifest list
  or a manifest, it hands out a request and takes the answer back (`walk.rs`).
- `app/` is ordinary async Rust that meets these requests from a table.
- `tests/` runs the library against manifests in memory.

The public proof functions named `law_..` state what holds of the library as a
whole.  The central one is that a new snapshot has exactly the live files of the one
before it that are not recorded as deleted.  For a replacement it holds where no
manifest lists a data file and a delete file at one path, and for row-level changes
where no live data file is at the path of a removed delete file and the manifest list
knows which manifests have live files.
