# cowatcher

The verified core of Co-watcher, a classroom system in which a teacher's console watches and
manages student PCs, each running an agent.

- `src/` is the library, verified with Verus: the Motion-JPEG AVI layout, image resizing, the
  H.264 stream settings and the checks around OpenH264, JPEG framing around `jpeg-encoder` and
  `zune-jpeg`, audio downmixing, the restart policy of the agent's supervisor, the room,
  membership and classroom rules, the blocklist and its file, the audit line, the action names,
  the tool catalogues with their argument schemas, the tool server's lines read from their JSON,
  the tool and JSON-RPC planners the AI tools go through, the steps of an assistant turn and its
  conversation shaped for each provider, the steps of a recording and of the screen loop, the
  order lists are shown in, the web dashboard's token and language choices, and the parsers and
  writers of the small text files the programs keep.
- `app/` is ordinary Rust around it: files, child processes, threads, JSON and the few places
  that need floating point.
- `tests/` runs the library on concrete values.
