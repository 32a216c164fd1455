# Euoni Converter

A self-hosted media conversion service: files are uploaded over HTTP, queued as jobs,
converted (images in process, everything else through FFmpeg, ImageMagick, libheif,
Poppler and LibreOffice) and downloaded again.

## Layout

- `src/` — the verified library (Verus). It holds the conversion matrix and how each
  conversion is carried out (`worker`, `imaging`), the command lines and the verdicts on
  the runs of the outside programs (`ffmpeg`, `pdf`, `heif`, `documents`, `process`), the
  job table and its laws (`jobs`), the request and upload decisions (`api`, `upload`,
  `storage`), the settings (`config`) and the string and path helpers they rest on
  (`text`, `path`).
- `tests/` — tests of the library on concrete values.
- `app/` — the server around it: Axum routes, the Tokio worker and cleanup tasks, the
  SQLite copy of the job table, and the code that starts processes and touches files.

The library is checked with Verus; `app/` is ordinary Rust.
