# pinlocal

The verified core of PinLocal, a desktop library for local images with AI search.

- `src/` is the library, verified with Verus: the AI engine's lifecycle and configuration,
  the sidecar's output protocol, indexing and the maintenance worker, workspaces and boards,
  library scans (image diffs, missing files and boards), embedding-store inventories, search
  queries and result matching, thumbnails, tasks and the application state.
- `tests/` exercises the library on concrete values.
- `app/` is the application around it: the database, the sidecar process, folder walking and
  watching, thumbnail encoding, vector search over float embeddings, and the commands of the
  user interface.
