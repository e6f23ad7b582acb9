# uv_align

Keeps the version constraints declared in `pyproject.toml` in line with the
versions that `uv` resolved into `uv.lock`.

- `src/` is the library, verified with Verus: dependency-name and version
  normalisation, PEP 508 parsing and version rewriting, the mapping of
  declared dependencies onto locked versions, the change set, the rewrite of
  the TOML document (through `toml_edit`), the reading of both files
  (through `toml`), the parsing of `uv lock --upgrade` output, every message
  and report the tool prints, and the command-line decisions. `src/laws.rs`
  states and proves the properties that span several functions,
  `src/shapes.rs` the shape of what the parsers and readers produce, and
  `src/plain.rs` what the reports read like with their colours taken out.
- `app/` is the program around it: argument parsing with `clap`, file and
  process I/O, the terminal prompt.
- `tests/` runs the library on concrete inputs.
