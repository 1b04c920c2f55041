# deepseek_session

The state and the rules of an interactive coding session, verified with Verus.

- `compaction` decides when a conversation is compacted, which messages it
  keeps, and what is asked of the model for a summary.
- `tui` holds the application's state: the composer, the transcript, the status
  line, modes and policies, and what each event does to them.
- `text`, `paths`, `json`, `models` and `errors` are what both rest on.

`app/` surrounds the library with files, the clock, locks, hooks, costs and the
model's service. It hands the library plain values: the time as milliseconds,
what came of storing a file, what the clipboard holds. What the library asks for
in return it records as effects.

Positions in texts are character positions. Token and byte counts saturate at
the largest machine integer.
