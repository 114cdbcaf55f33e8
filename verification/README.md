# boinc

A file converter for images (PNG, JPG, BMP, GIF, WebP, SVG), documents
(PDF, DOCX) and Markdown, with its decision logic verified by Verus.

## Layout

- `src/` — the verified library. Its public functions state what they do in
  `requires`/`ensures` contracts over spec functions and views:
  - `format`: formats, extensions and content sniffing;
  - `registry`, `converter`, `pipeline`, `output`: which converter runs for a
    pair, and where its output goes without overwriting anything;
  - `raster`, `vector`, `markdown`, `libreoffice`: the conversions themselves
    (pixel flattening, codec calls through `image`, tracing through
    `vtracer`, Markdown rendering through `pulldown-cmark`, and the
    `soffice` command line);
  - `entries`, `integration`: context-menu entries and their manifest;
  - `state`, `ipc`, `tray`, `history`, `settings`, `update`, `cli`: the
    resident converter's queue, messages and settings, and the update check;
  - `laws`: properties that relate several functions.
- `app/` — the `boinc` program: argument handling, file and socket I/O,
  notifications, and running `soffice` and `curl`. It takes every decision
  from the library.
- `tests/` — tests of the library on concrete values.
