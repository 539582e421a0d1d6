# vrcwatchdog_core

The core of VRCWatchDog, a companion for VRChat that follows the game's log files and
screenshots and keeps a history of the worlds visited, the players met, notifications,
videos and photos. The decisions are written in Verus and proved against their contracts.

- `src/` — the verified library: the log-line grammar, log-file identity and line
  cutting, the ingest bookkeeping, the projector that turns raw events into world visits,
  time-zone resolution with DST folds and gaps, photo file names and their matching to
  visits, health classification, settings loading decisions, paths and IPC records.
- `app/` — a headless program around the library: SQLite storage, file-system
  notifications, process polling, thumbnail rendering I/O and the settings file.
- `tests/` — tests of the library's public functions on concrete values.
