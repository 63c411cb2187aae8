# yayd

A download backend: it takes waiting jobs from a MySQL job queue, hands each
to the handler whose URL pattern accepts it (youtube videos and playlists,
twitch videos), runs youtube-dl and ffmpeg for it, and cleans up old files.

## Layout

- `src/` is the verified library (Verus). It holds the decisions and the text
  handling of the backend: the URL patterns of the handlers and the dispatch
  of a request to a module, the reading of youtube-dl's and ffmpeg's output,
  the command lines, the statements that the cleanup builds (deletion
  candidates, per-table deletes), the query that picks the next job, the
  statements of the setup script, file names of finished downloads, the
  update check of youtube-dl, the steps of video, audio, playlist and twitch
  jobs, and the bookkeeping of a job's files and progress. The other fixed
  statements of the job queue stand with their calls in `app/database.rs`.
- `app/` is the program around it: the main loop, the database connection,
  processes, HTTP, the file system and the configuration file.
- `tests/` runs the library on concrete inputs.

Calls into outside crates that the library makes (SHA-256 from `sha2`, JSON
parsing from `json`) go through a few trusted wrappers in `src/common.rs` and
`src/downloader.rs`, each with a doc comment that says what its contract
claims of the outside function.
