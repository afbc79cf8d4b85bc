# modpack_downloader

A desktop tool that installs a modpack archive: it extracts the archive's
overrides beside it, reads the list of mods the archive describes, downloads
every mod with resumable transfers, and reports the progress of each file to
its front end.

- `src/` is the verified library (Verus): the status of every file and how
  statuses merge, the decisions of a transfer (resuming, retrying, refusing,
  completing), the downloader's rule that a download starts only when none
  is running (app/ holds the downloader behind a mutex, which makes that
  check and the marking of the downloader as busy one step), the paths that
  extraction and downloads write to, and the manifest model.
- `app/` is the Tauri program around it: file and network I/O, the archive
  reader, JSON parsing, the worker tasks and the events sent to the front end.
- `tests/` runs the library on concrete values.
