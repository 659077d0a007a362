# ralph

An orchestrator of agent loops, with its decisions verified by Verus.

- `src/` is the verified library.
  - `config`: the configuration, its normalization and its validation.
  - `event_loop`: events, their routing to hats, prompts, tasks and scratchpads.
  - `loop_runner`: the steps of a loop, its lifecycle hooks, their suspension, and its end.
  - `cli`: what the commands decide and print.
  - `json`, `yaml`, `debug`: the items that are taken on trust, with what is claimed of them.
  - `text`, `path`: texts and paths.
- `tests/` exercises the library on concrete values.
- `app/` is the program around it: arguments, files, processes and output. It holds neither the
  terminal interface nor the bot that talks to a human, and it does not merge: it only writes the
  merge queue.

Steps that need the outside world are state machines: the library says what is to be done next and
takes in what came of it, and the program does it. The laws that relate several functions are public
proof functions whose names start with `law_`.

Numbers in binary floating point are carried as bit patterns; sums of costs are made in `app/`.
