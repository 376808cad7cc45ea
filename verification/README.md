# clipway

A clipboard history for Wayland: a background daemon records every text and
PNG image copied, a popup panel searches and restores them, a tray entry
starts and stops the capture, and a small command line lists, restores and
clears the history.

`src/` is the verified library, checked by Verus:

- `text`: Unicode white space, trimming, the one-line previews, decimal
  numbers and integer parsing as `str::parse` does it;
- `storage`: history entries, the kind names stored in the database, content
  hashes (SHA-256 through `sha2`), image summaries and human-readable sizes;
- `paths`: where the database, the daemon's lock and the panel's socket live;
- `clipboard`: what the `wl-paste` watchers make of their frames and what
  `wl-copy` is given to restore an item;
- `daemon`: the lock protocol, the process id in the lock file and the
  daemon's reaction to each event;
- `cli`: parsing the command line and what `list` and `copy` print and
  restore;
- `gui`: search filtering, row and status texts, when the list is rebuilt and
  when the window hides;
- `tray`: the tray's title, icon, menu and loop decisions.

`app/` is the program around it: processes, files, SQLite, GTK and the
D-Bus tray, which Verus does not check.
