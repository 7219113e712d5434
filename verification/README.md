# packdrive

The decision logic of a desktop tool that files attendance folders into a
locally synchronised Google Drive for desktop folder, proved with Verus.

- `src/` — the verified library:
  - `text`: characters of strings, trimming by Unicode white space, UTF-16
    length, splitting, lower case (through `str::to_lowercase`).
  - `names`: the Windows folder-name rules and the names given to duplicates.
  - `paths`: paths by components, containment, the deletion guard, and the
    plans for new folders and destinations.
  - `drives`: recognising Google Drive roots and keeping one candidate per folder.
  - `order`: the stable order used by listings.
  - `listing`: quick destinations (a step-by-step search over folder listings)
    and the contents of a browsed folder.
  - `sources`: the files a copy takes from the selected sources, each under
    the place it has there, and the folders to recreate first.
  - `copy_run`: the per-file flow of a copy run as a state machine: path
    checks, skips, the temporary `.uploading` file, sync, replacement and
    rename, cancellation between blocks, and clean-up after failures.
  - `transfer`: cancellation requests, answers to conflicts, duplicate
    handling, the counters and final status of a copy run, destination checks.
- `app/` — the Tauri shell: commands and file-system work; it performs what
  the copy run asks for and hands back what happened.
- `tests/` — tests of the library on concrete values.
