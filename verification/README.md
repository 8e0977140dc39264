# pengport_adapter_minecraft

The PengPort PSP adapter for a Minecraft server, with its logic verified by Verus.

- `src/` — the verified library: the grammar of player join/leave log lines
  (`parser`), the grammar of the RCON `list` answer (`rcon`), the ordered player set
  (`players`), the presence state machines and their events (`service_state`, `state`,
  `presence`, `status`), the manifest (`manifest`), the settings check (`config`), the
  event-stream token check (`routes`) and the decisions of the log followers
  (`log_tail`, `docker_tail`).
- `app/` — the program around it: environment, file watching, `docker logs`, RCON over
  TCP, the HTTP server and JSON.
- `tests/` — tests of the library, including agreement of both grammars with the
  regular expressions that define them.
