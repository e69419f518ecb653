# pullyt

The verified core of a desktop front end for yt-dlp.

- `src/` is the library, verified with Verus: the bounded debug log that the
  interface polls, reading and ordering release versions, the update decision,
  the yt-dlp command lines and the reading of yt-dlp's output, and the checking
  of download requests sent by the interface.
- `app/` is the Tauri program around it: the window and its commands, HTTP
  requests to the release service, running yt-dlp, and progress reporting.
- `tests/` exercises the library on concrete values.
