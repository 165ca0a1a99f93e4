# stripchat_recorder

A recorder for live streams with a web interface: it watches a list of
streamers, records their HLS streams segment by segment, merges the segments
into videos, runs a configurable post-processing pipeline over each
recording, and serves the whole through a password-protected HTTP API.

## Layout

- `src/` is the verified library: the login and session store (password
  strength, lockout, session cap, token expiry), the settings and streamer
  list, the decryption-key merge, the pipeline model (ports, wiring,
  validation, change detection, fingerprints, scheduling), recording
  metadata and the start-up metadata scan, the HLS playlist handling and
  segment URL decoding, the post-processing queue and its permits, the
  notification store, the file browser, the recordings listing, the
  schedulers' decisions and the update checks. Calls into outside crates
  (SHA-256, Base64, regular expressions, Argon2, time parsing, random
  numbers) stand behind small trusted wrappers whose contracts name what
  they return.
- `tests/` runs the library on concrete values.
- `app/` is the program around the library: the HTTP server, the background
  loops, the network client, child processes and the files on disk. The
  load-adaptive concurrency and the activity-based poll interval compute
  with floating point and stand in `app/` too.

Not carried into `app/`: the HTTP-FLV relay (its decisions, `relay::LiveFeed`,
are in the library but nothing serves them), community module installation,
and downloading and installing updates (`update::DownloadTracker` and the
asset selection are in the library).
