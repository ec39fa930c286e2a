# rsdata

A recursive file search tool (a blend of `grep`, `ripgrep` and `find`) whose
decision logic is a Verus-verified library.

- `src/` is the library, verified with Verus: the command-line options
  (`cli`), file type aliases (`filetypes`), size strings (`size`), directory,
  extension, size and age filters (`filters`), glob sets (`globs`), pattern
  collection (`patterns`), regex building and line matching (`matcher`),
  per-file scanning (`scan`), context blocks (`context`), output rendering
  (`render`, `report`), match highlighting (`highlight`) and the closing
  summary (`summary`).
- `app/` is the command itself: argument parsing with clap, the directory
  walk with the `ignore` crate (which honours `.gitignore` and `.ignore`
  files unless `--no-ignore` is given), console setup on Windows, file reading, JSON output with serde, and printing.
- `tests/` exercises the library on concrete inputs.

The calls into `regex`, `globset` and the parts of `std` that Verus has no
specification for go through small trusted functions whose contracts are
written next to them.
