# oxc_zed

The logic of the Oxc extension for Zed (the Oxlint and Oxfmt language
servers), verified with Verus.

- `src/` is the verified library:
  - `path`: paths as components (parse, render, parent, join, strip a prefix)
    and the text-level join that builds executable paths;
  - `manifest`: what is read from a `package.json` (declared packages, the
    `workspaces` field, the package name), through serde_json;
  - `vite_plus`: Vite+ project detection over any `FileSystem`, with the laws
    that characterise it (nearest declaration, the root-workspace bound, the
    validated launcher and its precedence over `$PATH`);
  - `lsp`, `oxfmt`, `oxlint`: the launch decisions of the two servers.
- `app/` holds what talks to Zed's host API: the worktree-backed filesystem,
  settings, npm and the node binary.
- `tests/` runs the detection fixtures and the library's functions on concrete
  values.
