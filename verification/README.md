# eisenhower_matrix

The logic of a small Eisenhower-matrix task manager (four quadrants: do it,
plan it, delegate it, delete it), verified with Verus.

- `src/text.rs`: Unicode white space and trimming, with a proof that
  trimming is idempotent.
- `src/lists.rs`: the edits of a quadrant's list (add, toggle, update,
  remove) and their laws.
- `src/storage.rs`: the stored form of the quadrants, the step from the
  rows on screen to what is stored (keeping recorded creation times), the
  reading of the earlier file layout, and the columns shown for stored data.
- `src/clock.rs`: creation times, read and written through `chrono`.
- `app/`: the program around the library: the `slint` window and its
  callbacks, the tray icon, JSON files through `serde`/`serde_json`.
