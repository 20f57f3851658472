# aerie

The logic of a workbench for agent workflows, verified with Verus: chat
histories with branches and side conversations, workflow graphs and their
edits, the run of a workflow graph node by node, the editing state with undo
and redo, tool selections, the nodes that read, check, transform and render
JSON and templates, the steps of chats with a model (structured answers
checked against a schema, with retries), and the events and shortcuts of the
editor.

- `src/` is the verified library. Each module states its contracts over
  mathematical views (`Seq`, `Set`, `Map`); the laws that span several
  operations are public proof functions named `law_*`.
- Calls into `im`, `serde_json`, `jsonschema`, `minijinja`, `regex`, `glob`,
  `uuid` and `dirs` stand behind trusted wrappers whose contracts are stated
  next to them.
- Requests to a model, and runs of jq filters (which may not end), are made
  by the caller: the library prepares them and takes in each answer
  (`structured`, `transform`).
- `tests/` runs the library on concrete values.
- `app/` is the command line: it reads session files and prints a
  conversation, or lists the sessions.
