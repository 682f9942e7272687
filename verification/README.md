# palmier_pro

The core of the Palmier Pro video editor for Windows, verified with Verus:
the timeline edits, the undo history, the preview frame cache, the project
summary, the FFmpeg argument lists of an export, and the assistant (MCP)
protocol with its tools. Every function in `src/` carries a contract that
Verus proves; `src/` also states the laws the editor keeps as proof
functions (`law_*`).

Layout:

- `src/json.rs` — the documents the editor reads and writes (`Json`) and
  their mathematical values (`JsonV`).
- `src/edit.rs`, `src/edit_laws.rs` — moving, removing, splitting and
  adding clips, and what each edit keeps.
- `src/state.rs` — the editor state and its bounded undo history.
- `src/tools.rs`, `src/mcp.rs`, `src/tool_laws.rs` — the assistant's
  tools, the JSON-RPC requests and answers around them, and the laws that
  tie the advertised tools to the ones carried out.
- `src/cache.rs`, `src/preview.rs` — the preview frame cache (which keeps
  the newest frames over any run of stores) and what a preview frame is
  rendered from.
- `src/export.rs`, `src/ffmpeg.rs` — the clips an export draws and the
  encoder's command line.
- `src/import.rs`, `src/media.rs`, `src/project.rs` — media manifest
  entries, media kinds and locations, project packages.
- `src/outside.rs` — the calls into `uuid`, `base64` and the standard
  library's path and text functions, with the contracts the library relies
  on.
- `app/` — the desktop application around the library: the window's
  commands, the HTTP server for assistants, file and FFmpeg work, and the
  floating-point time arithmetic.
- `tests/` — tests of the library on concrete values.
