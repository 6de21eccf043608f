# rustern-core

The core of a multi-pod Kubernetes log tailer, written in Rust and verified with Verus.

- `src/` is the verified library: which pods and containers are shown (`discovery`, `runtime`), what a
  line goes through (`source`, `pipeline`), how it is written (`render`), and what a run decides on its
  way (`runtime`). Verified functions carry contracts over mathematical models; what relates several of
  them stands as a `law_` proof function beside them.
- Calls into other crates go through small trusted functions, each of which says in its doc comment
  which outside function it stands for and what is taken for granted of it. Regular expressions, jq
  programs, JSON texts and times are named by what they were made from, so that contracts can speak of
  them exactly.
- `tests/` runs the library with the real crates.
- `app/` is the ordinary Rust around it: the Kubernetes client, files and processes, the tasks and
  channels of a run. It carries out what the library decides.
