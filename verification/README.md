# codex_host

The decisions of a coding agent's host, verified with Verus, and the ordinary
Rust around them.

`src/` is the verified library:

- `goal_files`: turns the draft of a goal into files and an objective within the
  limit, and finds the files again from the objective.
- `skills`: the `skills.list` and `skills.read` tools, with their paging, and the
  state that the skills extension keeps.
- `threads`: the live writers of threads, resuming and writing, and the rotation
  of a rollout into a new segment. `rotation_laws` states what holds of every
  rotation, whatever its actions come to.
- `guardian`: maintenance of a review session, of which at most one run is under
  way and whose waiters are always let through.
- `auth_route` and `cloud_config`: the route by which credentials are fetched, and
  how the configuration bundle is loaded.
- `text`, `text_elements`, `decimal`, `json`, `ids` and `app_server_path`: what the
  others are built from.

`tests/` runs the library on concrete values. `app/` performs the actions that the
library decides on: files, tasks, locks, serialisation and logging.
