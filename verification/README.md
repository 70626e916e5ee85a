# kwe_daemon

The decisions of a wallpaper daemon, written in Rust and proved with Verus: which
request is answered how, when a wallpaper may take an output, what is undone when
it cannot, what is stored and what a restart takes up again.

`src/` computes from plain values to plain values. Every function there states what
it returns in `requires` and `ensures`; the promises that span several functions are
public proof functions whose names begin with `law_`.

- `text`, `identity`, `names` – text, identities, and a map kept in name order
- `script`, `probe`, `shell`, `macos_desktop`, `round_trip` – desktop scripts, the
  replies they get, and a desktop that answers them itself
- `child` – bounded runs of helper programs
- `persist`, `grants`, `assignments` – state files and the two stores
- `model`, `prepare`, `gate`, `apply`, `transaction`, `restore`, `handle` – putting a
  wallpaper on an output, and taking it off again
- `playlist`, `playlist_session`, `verdict` – playlists and their session
- `inspect` – supervising the scene inspector
- `audio`, `selfcheck`, `websandbox`, `settings` – the capture worker, the check for a
  replaced binary, the browser's command line, settings and limits
- `request_line`, `request` – reading a request and answering it

State machines such as an apply or an inspection say what to do next; `app/` does it
and hands back what came of it. `app/` holds the sockets, files, child processes,
threads and the JSON forms. The renderer supervisor, the wallpaper catalog, the
playlist clock, the playlist store and the report codec are seams there (`app/parts.rs`).

What is believed of other crates and of std is small: SHA-256 and hexadecimal digits,
the debug form of a text, the lossy reading of bytes, `String::push` and
`char::from_u32`. Each stands behind one item that says what it claims.

`tests/` runs the library on concrete values.
