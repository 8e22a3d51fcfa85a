# navaltoolbox (verified core)

Bookkeeping core of a naval-architecture toolbox, written in Verus.

Real quantities (masses, coordinates, areas, fill fractions) are carried as
the bit patterns of IEEE-754 binary64 numbers (`u64`). The verified library
stores, moves, looks up and clamps them; arithmetic on them happens in `app/`.

## Layout

- `src/loading.rs` — mass categories, mass items, loading conditions: the mass
  inventory, the per-tank fill overrides (one per tank name, clamped to
  `[0, 1]`), and the tank updates that applying a condition makes.
- `src/fill.rs` — the clamp of a binary64 number to `[0, 1]`, done on its bit
  pattern.
- `src/names.rs` — finding the first item of a given name.
- `src/silhouette.rs` — silhouette outlines and the file format chosen from an
  extension.
- `src/vessel.rs` — the vessel's component lists, perpendicular settings, and
  the contact surfaces between hulls with their lookups.
- `app/` — floating-point geometry (silhouette areas and centroids, tank and
  mass totals, hull contact detection with `parry3d-f64`), JSON with `serde`,
  and file I/O.
