# keel_dsh

The decision core of the keel coding workspace, verified with Verus.

- `src/` is the library. `chat`, `wire`, `serialize`, `translate`, `adapter`, and `transport`
  are the chat-completions protocol: what a request says, what an answer means, and when a
  stream is over. `bridge` and `drive` are the in-process loops as harnesses. `og` is the model
  catalog and its ranking, `routing` the choice of a route for a new task, and `route_run` the
  steps that lead to it. `host` and `cli` are
  the rules of the two command lines. `stream_laws` states what holds of every stream; the other
  laws stand beside the functions they speak of.
- `app/` reads the environment, talks HTTP, keeps log files, and parses command lines. The
  engine, the window, and the agent runtime are behind the traits of `app/services.rs`.
- `tests/` runs the library on concrete values.
