# s2_tracts

Look up the US Census tract of level-30 S2 cell identifiers in prepared,
indexed FlatGeobuf tract datasets.

- `src/` is the verified library: cell identifier validation (through the
  `s2` crate), batch planning and answer assembly, dataset header checks
  (with the packed R-tree index size from `flatgeobuf`), decoding of stored
  GEOIDs and ring layouts, strict containment resolution, command-line
  rules, the pinned release asset manifest, the JSON Lines output line and
  the installation steps, and the GEOID, argument and source-lock rules of
  dataset preparation.
- `app/` is the program around it: file and network I/O, the on-disk index
  queries, floating-point geometry, JSON output, and the `prepare-tracts`
  maintainer tool (selected when the binary is invoked under that name).
- `tests/` exercises the library on concrete inputs.
