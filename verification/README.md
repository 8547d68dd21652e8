# codexify

Local tools for an MCP server — run a shell command, run a script, apply a patch to
files, view an image — with their logic written in Verus and proved against its
contracts.

- `src/` is the verified library:
  - `text.rs`: characters and strings, `str::lines`-style line splitting, the split at
    every line feed and its inverse join, decimal numerals, Unicode white space.
  - `patch.rs`: the patch format (`*** Begin Patch` … `*** End Patch`) and its parser.
  - `update.rs`: applying an update's hunks to a file's text; the text of an added file.
  - `apply_patch.rs`: the patch tool's types, the change each operation records, and the
    steps that carry a whole patch out, one file system request at a time: the first
    failure stops it, and a patch that applies reports the change of each operation in
    order.
  - `exec_command.rs`, `shell_command.rs`: the command tools' plan and results.
  - `view_image.rs`: media types from a path's extension, with paths read as Unix or as
    Windows paths (prefixes, both separators, verbatim paths), and image data URLs.
  - `tools.rs`: the table of tools, lookup by name and the choice of the tool for a call.
- `app/` holds what Verus does not see: serde and schema derives, rmcp values, the file
  system and process work, the server and its transports.
- `tests/` runs the library on concrete values.
