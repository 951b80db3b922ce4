# ghost_time

Verified core of a desktop time tracker. `src/` is checked by Verus:

- `classifier` – which keywords of a client-matter rule occur in a window title (case-insensitive) and their byte lengths;
- `idle` – the idle-detection state machine over mouse, keyboard and a monotonic clock;
- `hook` – the per-poll decision of which window record ends and which begins;
- `summary` – timeline entries and the per-date summary cache (30 s freshness);
- `dates` – `YYYY-MM-DD` dates to millisecond ranges;
- `export`, `matter`, `vault` – export rows, file names and text cleaning, matter writes, database keys;
- `text` – character-level helpers.

`app/` is the Tauri shell: IPC commands, the SQLCipher database, OS hooks, CSV/PDF writers and the
floating-point scoring of rules.
