# lakhua

Offline reverse geocoding for India over H3 cells, with its lookup logic
verified by Verus.

- `src/` is the verified library: the resolution settings (`config`), the
  per-resolution datasets (`store`, `data_loader`), the H3 cell operations it
  needs from `h3o` (`h3_cell`), and the lookup with its fallback to coarser
  resolutions (`geocoder`).
- `app/` holds what stays outside verification: reading the JSON datasets
  from disk into a process-wide cache, coordinates given as floating point
  numbers, and the serde and `std::error::Error` forms of the types.
- `tests/` exercises the library on small in-memory datasets.
