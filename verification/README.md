# fastpatch

A Windows client for zapret-discord-youtube (zapret 1, `winws.exe`) and its
zapret 2 bundle (`winws2.exe`): installing the engine, listing and starting
strategies, auto-detecting a working one, probing Discord / YouTube /
Cloudflare / EA, and keeping the zapret block in the system `hosts` file.

## Layout

- `src/` — the library, verified with Verus. It decides everything the
  program does: which `.bat` files and presets are strategies and in which
  order they are listed and tried, how a `.bat` becomes a `winws.exe`
  command line, how `tasklist` output is read, how probes are scored, what
  the settings files mean and what to write into them, how the hosts block
  is merged, which release asset is downloaded, how a release archive is
  read and which entries become which files, and the step-by-step
  machines that start an engine, auto-detect a strategy, scan all
  strategies and reconnect after autostart. Laws proved about them include
  the stable ordering of every list, normalized ids, settings read back as
  written, the hosts block present after a merge and unchanged by merging
  again, PowerShell quoting undone exactly, one engine at a time
  (an engine is started only after every engine was stopped and none was
  found running), and auto-detection answering with the first passing
  candidate.
- `app/` — the service around the library: files, processes, PowerShell,
  HTTP (reqwest, tokio), writing the extracted files, 7z archives,
  timestamps (chrono) and the JSON forms of the records (serde).
- `tests/` — tests of the library on concrete values.
