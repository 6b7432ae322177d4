# quine_core

The session core of a coding agent, written in Rust and verified with Verus.

A session is a conversation with a model that can call tools, wait for other sessions and be
stopped at any time. The core decides what happens next: what goes into the history, which
tool may run, when a history is compacted, who is told that a session has ended. The library
makes these decisions and proves what they promise; the program around it does the input and
output.

## Layout

- `src/` is the library. Every type has a model, and every function a contract over the
  models.
  - `text`, `table`, `arguments`: strings, association lists and tool arguments.
  - `session`, `message`, `error`, `channel`, `effect`: what sessions exchange.
  - `conversation`, `log`, `commands`, `permissions`, `config`: the interactive program.
  - `filesystem`: paths below a root directory.
  - `compaction`, `restore`, `prompt`, `plan`, `status_report`, `memory`: what becomes of a
    history and what the model is told.
  - `wait`, `session_tree`, `ipc`: sessions that wait for each other and share values.
  - `context`: the state of a session.
  - `model_call`, `compaction_run`, `tool_run`, `tools`, `turn`: one turn, as steps from an
    event to effects and the next action. `turn_laws` holds what every turn keeps.
  - `actor`, `core_loop`, `core_sessions`: one session, and all sessions together.
- `app/` runs the library on channels, files, models and tools.
- `tests/` runs the library on concrete values.

Public proof functions named `law_..` state what holds of the library as a whole. Functions
marked `external_body`, and the one `assume_specification`, are what is believed of other
crates; their comments say what.
