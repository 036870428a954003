# bigecho

The verified core of BigEcho, a desktop meeting recorder: it records a
meeting, transcribes and summarizes it, files the result as a session, and
can upload sessions to a Brain server and mirror the recordings folder to
Yandex.Disk.

- `src/` is the library, written in Verus. Every function there carries a
  contract that Verus proves: session records and their status changes,
  settings checks, the Markdown and text artifacts, tag handling, secret
  storage, the recognition services' requests and replies, the upload and
  sync runs as step functions (the caller performs each action and reports
  what came of it), and the laws that relate these functions. The few calls
  into outside crates (chrono, semver, url, sha2, serde_json, base64) stand behind
  small trusted wrappers whose contracts say what those crates document;
  percent-encoding is written and proved here against a short statement of
  what `urlencoding::encode` does.
- `tests/` runs the library on concrete values.
- `app/` is the desktop program around the library: the window and tray,
  audio capture and encoding, files, the database, HTTP clients and the
  loops that drive the library's step functions.
