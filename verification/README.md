# kitchen

Development containers for a workspace, built on mise and tailscale.

- `src/` is the library, verified with Verus: the workspace configuration and
  its container settings, the Containerfile and the image build context, the
  container's mounts and the decisions taken around Docker, the extensions and
  what their lifecycle hooks run, and the description of a script or command run.
- `app/` is the `kitchen` command around it: argument handling, reading
  `.kitchen.toml`, the Docker API, running processes and fetching scripts.
  The bundled scripts are compiled into the program from `resources/`.
- `tests/` runs the library on concrete values.
