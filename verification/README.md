# pika_backup

The configuration logic of a desktop backup tool, verified with Verus.

- `src/` is the verified library: configuration and repository identifiers, archive
  prefixes and the rules that keep them apart within one repository (`backup`), the list of
  configured backups with insertion, removal and lookup by identifier (`backup`), paths read
  relative to a home directory and told apart by their components (`paths`), whitespace
  trimming (`text`), the status shown for a backup and where it comes from (`status`), session
  decisions: inhibiting, quitting, unmounting, a remote application (`session`), pruning
  settings and counts (`prune`), and schedules with the frequencies on offer (`schedule`).
- `app/` holds what the library cannot: serde, glib and zbus copies of the configuration
  types, the configuration files, random identifiers from glib, the Flatpak sandbox check,
  mounted volumes and the session-bus listener.
- `tests/` runs the library on concrete values.
