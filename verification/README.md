# collie_waker

A Wake-on-LAN waker that keeps Collie reachable at one stable URL while the
dev box it runs on sleeps: it fires a rate-limited magic packet, polls Collie
through an SSH tunnel, waits one Traefik health-check interval and redirects
back with a `307`, or serves a self-reloading `503` page once the wake budget
runs out. It also keeps the SSH tunnel up, reconnecting with backoff.

Layout:

- `src/` is the verified library. `wol` (MAC parsing, the magic packet, the
  rate limit), `wake` (the decisions of one wake request), `app` (the HTTP
  replies as plain values), `config` (reading the configuration out of the
  environment variables), `tunnel` (the `ssh` arguments and the reconnect
  backoff), `time` (spans of time) and `text` (trimming, decimal parsing and
  rendering). Each public function has a contract; the laws that span calls
  are the `lemma_*` proof functions.
- `app/` is the process around it: reading the environment, the UDP socket,
  the HTTP client and server, the `ssh` child process, the clock and the
  sleeps, all driven by the library's decisions.
- `tests/` runs the library on concrete values.
