# broom

A command-line tool that finds build output, dependency and cache folders
(`target`, `node_modules`, `.next`, `__pycache__`, ...), sorts them by size,
and moves the ones you pick to the Trash after one final confirmation.

The decisions live in a library whose contracts are proved:

- `src/paths.rs`: the standard library's path operations (join, parent,
  file name, comparison, prefix tests and stripping), on the platform the
  program is built for, with names for their results;
- `src/units.rs`: sizes for people, exactly as a double formatted with one
  decimal would show them;
- `src/rules.rs`: the folder names looked for, skipped and guarded by a
  project file, and the installer/archive endings of the downloads folder;
- `src/scan.rs`: the walk of a project tree as a step function, and the
  downloads and caches scans;
- `src/candidate.rs`: items offered for cleaning and their labels;
- `src/review.rs`: the largest-first stable order, totals, and the cleanup
  count (nothing moves before confirmation);
- `src/safety.rs`: the checks before anything is moved (inside the scan
  root, never protected paths);
- `src/trash.rs`: the commands that move an item to the Trash on each
  platform and what their outcomes come to;
- `src/locations.rs`, `src/menu.rs`: home folders, `~` paths, command-line
  routes, the menu and the self-update.

`app/main.rs` is the program: it reads the disk (walkdir), asks the user
(dialoguer), shows a spinner (indicatif) and runs the trash commands.
