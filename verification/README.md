# kaku_sftp

The logic of a dual-pane SFTP browser, written in Verus. The library decides;
the program around it performs. Every part that waits for a disk, a server or
a person is a machine that names its next action and takes the reply, so what
the browser does is a function that can be stated and proved.

- `src/` is the verified library.
  - Panels and paths: `types`, `paths`, `panel`, `listing`, `scan`.
  - Transfers: `transfer` (the list of transfers, lanes and events), `job` and
    `parallel` (one file over one or several connections), `stream`, `publish`,
    `remote_dirs`, `local_copy`, `single`.
  - Editing remote files: `cache`, `edit_sync`.
  - The browser: `state`, `keys`, `input`, `events`, `queue`, `overlay`,
    `worker`, and what it draws: `units`, `display`, `render`, `frame`.
  - Reaching a host: `sessions`, `connect`, `target`, `registry`, `drops`.
  - Texts and dialogs: `text`, `i18n`, `confirm`.
- `tests/` runs the library.
- `app/` carries out the actions: threads, files, the terminal, and traits for
  the ssh connection and the desktop that host it.

Laws that span several functions are public proof functions, each beside the
functions it speaks of.
