# presenter_persistence

The decision logic of the Presenter persistence and NDI layers, verified with
Verus.

- `src/` is the verified library: sync rules (last-writer-wins, tombstones,
  adoption by identity or name, conflict-free names, content-pure sync ids),
  the presenter-wide search and its excerpts, stream-graphics checks and
  reorder plans, library trees, presentation copies, settings and device
  rows, Bible import planning, the tier-encoder reference counts, and the
  read-back of stored columns. Laws that relate several operations are
  public proof functions beside the code they speak of.
- `tests/` runs the library on concrete values.
- `app/` is the I/O around it: the sea-orm repository, the serialised forms
  of the library's records, the tokio tier-encoder runtime and the WHEP HTTP
  handler.
