# launcher

A full-screen game launcher for Windows, opened with View+B on a gamepad.
It lists the installed Steam, Epic and GOG games and the open windows,
suspends the foreground game while it is shown, and serves an HTTP API
(`GET /games`, `GET /games/running`, `GET /windows`, `POST /games/launch`,
`/suspend`).

Layout:

- `src/` is the verified library (Verus): reading store manifests and
  uninstall records, Windows path rules, matching windows to installed games,
  the poster cache, request routing and launch decisions, gamepad edge
  detection and press counters, and the launcher's state machine. Public proof
  functions named `law_*` state properties that hold across calls.
- `app/` is the program around it: registry, file-system and Windows API
  calls, the HTTP server, the gamepad threads and the egui window.
- `tests/` runs the library on concrete values.
