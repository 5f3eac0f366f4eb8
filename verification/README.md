# compose_scaler

The decision logic of a service that starts docker compose projects when
they are asked for (through a traefik plugin) and takes them down after a
session without requests, with its contracts proved by Verus.

- `src/duration.rs` reads durations such as `5m` and renders them back.
- `src/container.rs` judges a container from what the engine reports and
  reads container ids from `ps -q` output.
- `src/commands.rs` builds the commands run on the docker host and turns
  their failures into project errors.
- `src/sessions.rs` keeps the table of live projects: what a request does,
  what each monitoring round does, and what the project list shows.
- `src/table.rs` and `src/page.rs` hold the trusted wrappers around
  `hashbrown::HashMap` and `tera::Context`.
- `app/` is the server: HTTP routes, ssh, docker, timers and tasks.

Two behaviours are kept as the service has them:

- Bringing a project up is tried at most three times, and a failure of the
  third attempt is not reported: the project is then marked as running
  (`retry_start`, `finish_start`). So the clean-up after a failed start
  (`mark_start_failed`) is never reached from the server.
- The server has no override route (`/api/override/...`) and no conflict
  answer for overridden projects: the service's handlers refer to an override
  feature (`OverrideCommand`, `has_override`, `override_command`) that is
  defined nowhere, so there is nothing to carry over.
- In the server's configuration readers, `initial_projects` may be left
  out of the host configuration (no project is taken down at start-up),
  and every project setting but `name` may be left out (empty text, zero
  durations, no custom command).
