# spacezed

The logic of the spacezed cockpit, written in Verus: every function of the
library states what it does, and the statement is proved.

- Project environments: which environment a buffer, a worktree or a directory
  gets, which loads it takes and how a load goes (`project_environment`,
  `load`, `environment`, `repository`).
- Agents: the registry of the agents that run in terminals, when it is brought
  up to date, the jump to the agent most deserving of attention and the picker
  (`agent_registry`, `agent_watch`, `agent_cockpit`, `focus`).
- The status bar: its segments, their colours and the arrows between them
  (`spaceline`, `powerline`, `palette`).
- What these share: paths, shells, text and maps with text keys (`path`,
  `shell`, `text`, `string_map`).

`outside` holds what is taken on trust: the JSON parser and the standard
library's lossy decoding of UTF-8.

Functions named `law_...` state what holds of the library as a whole.

`app/` performs the input and output around the library: state files, timers,
shells, direnv and drawing. What the editor does is reached through the traits
in `app/host.rs`. `tests/` runs the library.
