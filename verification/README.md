# huak

The logic of Huak, a Python package and project manager, written in Verus
and proved against its contracts.

- `src/` is the verified library: version and package strings (PEP 440
  specifiers are read with `pep440_rs`, version numbers matched with
  `regex`), paths read the way Unix or Windows reads them, dependency lists of
  `pyproject.toml` data, project metadata and its optional dependency
  groups (kept in `indexmap` maps), virtual environment layout and configuration, interpreter
  discovery from directory listings, and the decisions of the `add`,
  `remove`, `install`, `update` and other operations.
- `tests/` runs the library on concrete values.
- `app/` holds what touches the machine: environment variables, directory
  listings, files and child processes, and reading and writing
  `pyproject.toml` (with `toml_edit`). Its operations (`add`, `remove`,
  `install`, `update`, `lint`, `fmt`, `test`, ...) hand plain values to the
  library and act on what comes back.
