# music_folder

A safe organizer for music libraries on Windows-style paths: it scans a library, plans
where every track (and the cover images beside it) should go under naming templates,
applies the plan without ever losing the only copy of a file, verifies the result, and
rolls it back in reverse order.

The library in `src/` is written in Verus and verified. Each step that touches files or
the store is split in two: a decision function (`decide_apply`, `decide_rollback`,
`verify_decision`, `decide_scan`) whose contract fixes the outcome of one item exactly from
what the file system, the tag reader and the store answered; and a function that asks
those services only the questions, and attempts only the operations, that its contract
allows (`apply_queries`, `rollback_queries`, `verify_queries`, `scan_queries`). The passes
over a run's items (`apply_all`, `rollback_all`, `verify_all`, `build_plan`) return their
steps, each stated as that decision for its item, with the counts of those steps; the use
cases report those counts. What the services answer is not specified: they are
implemented by the program around the library.

- `text`, `template`, `naming` — character helpers, the naming template language
  (`{field:02d}` tokens, `[...]` optional blocks) and the checks of naming rules.
- `domain`, `path_policy`, `paths` — the domain values, Windows component sanitizing,
  the path-length policy, collision keys, and the `std::path` operations used on paths
  held as text.
- `plan`, `candidates`, `anchors`, `planning`, `duplicates`, `snapshot`, `plan_usecase` —
  the plan step: one item per scanned file, companion images placed by the music found
  above them, duplicate renaming, conflict groups, the snapshot hash, and the use case.
- `stored_plan`, `pages` — plans as the store keeps them: snapshot checks, plan
  revisions with manual targets, and keyset pages.
- `scan` — the decisions of the scan step (one path at a time, tallies and batches, the
  end of a run).
- `apply`, `verify`, `order`, `rollback` — the file-changing steps and their safety laws.
- `ports`, `execution`, `clock`, `ids` — the services the steps are written against, the
  stored codes, and the time and identifiers they need.

`app/` is the command line program around the library: the SQLite store, the local file
system, tag reading, and the threads of a scan.
