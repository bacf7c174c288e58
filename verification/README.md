# mountfs

A multi-user virtual file system. Each user has a tree of mounts: raw data under
`/points/<name>`, and the snapshots of backup repositories, always read-only,
under `/repos/<name>`. Points can be read-only or limited in size. The tree is
served over FTP and to a controlling process, which also runs backups, restores
and checks as background jobs.

## Layout

- `src/` holds the rules that can be stated on plain values, with contracts that
  Verus proves.
  - `vfs` decides which mount a path belongs to and what is asked of it.
  - `quota` counts bytes and keeps limits; `quota::staged` handles writes, copies
    and deletes, `quota::state` the totals and their way to and from a tracker.
  - `server` judges requests: users, files, write handles, jobs, repositories.
  - `utils`, `ipc`, `store`, `ftp`, `db` hold paths and lookups, messages, the
    make-up of a user's tree, logins and the quota table.
  - `text`, `list` and `strmap` are strings, lists and sorted maps with exact
    contracts.
- `app/` is the program around it: stores, the database and the tables it keeps,
  FTP, background tasks.
- `tests/` runs the library on concrete values.

Properties that span several functions are public proof functions whose names
begin with `law_`. Calls into other crates stand behind small functions that are
marked as trusted and say what they claim: identifiers (`server::ids`), the tags
and paths of a backup (`server::requests`), and the concurrent maps of open files
and jobs (`server::handles`, `server::jobs`).
