# otdr_sor

A verified reader for the leading blocks of OTDR trace files in the Bellcore /
Telcordia SOR layout: the map block, the general, supplier and fixed parameter
blocks, and the key events block.

- `src/types.rs`: the values read, each with a mathematical view.
- `src/spec.rs`: the layout, as spec functions from bytes to a parse outcome
  (`Step`): parsed with a rest and a value, failed with the input left and an
  error code, or outside the domain (a string field that is not UTF-8, an entry
  count whose predecessor overflows `i16`).
- `src/parser.rs`: the executable parsers; each is proved to agree with its spec
  function on every input in the domain.
- `src/laws.rs`: properties shared by the parsers: bytes after a block never
  change how it parses, a parse leaves a tail of its input, counts announce the
  number of entries read, a missing block name fails with a tag error.
- `src/outside.rs`: the trusted contracts of the `nom` primitives and of
  `std::str::from_utf8` that the parsers call.
