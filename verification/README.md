# octatools

A verified library for the data files of the Elektron Octatrack, with a small
command line tool around it.

- `src/` is the library, written in Verus: option values of sample slots and
  attributes files, the key/value settings of project files, the `[SAMPLE]`
  sections of project files (reading and writing, with the read-back laws),
  sample attributes (`.ot`) encoding and decoding with checksums, trig
  bitmasks, sample slot references in banks, slot deduplication, the planning
  of bank copies between projects, slot listings, sample chains (batches of at most 64
  files, their slices, and cutting a chain back into its slices) and the
  gathering of a project's sample files.
- `tests/` holds the tests of the library.
- `app/` is the command line tool: it reads and writes the files and hands
  plain values to the library. It writes sample directory indexes as YAML
  with `serde_yaml`. It cannot read bank files, whose binary layout this
  crate does not hold, so the bank copy and listing logic is reached only
  through the library.
