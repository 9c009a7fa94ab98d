# exodium

The launch and download logic of the Exodium eXoDOS launcher, as a Verus
library whose functions are proved against their contracts, plus a small
command-line front end that does the file, process and network work.

- `src/text.rs` – character-level string model (`str` methods as spec
  functions) and the verified helpers built on it.
- `src/midi.rs` – DOSBox-ECE to DOSBox Staging `[midi]` translation; which
  configs ask for MIDI; when `util.zip` is queued.
- `src/autoexec.rs` – reading `[autoexec]`: launch-line detection and the
  check plan for running an EN autoexec against a language-pack layout.
- `src/lp_launch.rs` – finding a language-pack game's launch command from a
  snapshot of its directory.
- `src/conf.rs` – the patched launch config (path rewriting, LP overlay,
  generated autoexec).
- `src/collection.rs`, `src/launch.rs` – collection layout, config and ZIP
  candidates, the checks before a launch and the uninstall plan, engines,
  override fragments, the `-conf` argument order, per-game settings.
- `src/download.rs` – file selection, stuck-download retries, one progress
  poll (completion, extraction hand-off, retries), the download preflight
  (disk space, with bytes already on disk credited once), queueing and
  uninstall decisions, placeholder cleanup, long paths.
- `src/win9x.rs` – Windows 9x support files, engines, the checks before a
  launch, ZIP mounts, network backend and status, watchers.
- `src/manifest.rs` – the content manifest types.
- `app/` – the command-line front end (I/O only); `tests/` – tests.
