# zenoh_hammer

The verified core of Zenoh Hammer, a tool for trying out a zenoh network by
hand: open a session with a configuration file, subscribe to key
expressions and browse what arrives, put values, and send queries.

- `src/` is the library, written and proved with Verus: the pages and their
  lists (`page_session`, `page_sub`, `page_put`, `page_get`, `id_list`), the
  payload editor and its hex parsing (`payload_editor`, `hex_viewer`), the
  payload views (`data_viewer`, `sample_viewer`, `reply_viewer`,
  `image_data`), the encodings and options of zenoh (`zenoh_data`), the
  messages with the session and the decisions of the session task
  (`task_zenoh`), the application state and the routing of requests and
  answers (`hammer_app`), and the workspace file's stored form
  (`archive_file`). `outside` holds every call into std and into other
  crates that Verus does not read, each with the contract it is trusted to
  keep.
- `tests/` runs the library on concrete inputs.
- `app/` is the program around it: where the last workspace is remembered,
  and reading and writing workspace and payload files as JSON.
