# mission_control

The logic of a terminal dashboard for coding agents that run in the workspaces of a
terminal multiplexer: which workspaces there are, what their agents are doing, what the
user asked of them, and the document ("trajectory") in which missions, open surfaces and
tasks are kept.

The library is verified with Verus. Every function states what it returns or changes,
and the modules end with laws that relate several functions.

## Layout

- `src/` is the verified library.
  - Texts and tables: `text`, `search`, `numeral`, `order`, `assoc`, `wrap`, `clock`.
  - Input and output values: `keys`, `style`, `surface`, `agents`.
  - Documents: `trajectory`, `trajectory_edit`, `edit_laws`, `trajectory_view`.
  - Panes: `sidebar`, `detail`, `footer`, `command`, `peek_view`, `dispatch_modal`,
    `handoff`, `handoff_modal`.
  - Workspaces: `screen`, `workspace`, `mesh`, `intent`, `tasks`, `sources`, `files`.
  - The application: `app`, `app_keys`, `app_panes`, `sessions`, `gather`, `snapshot`,
    `refresh`, `projection`, `prefixes`, `beads`, `regen`, `dismissal`.
- `tests/` runs the library on concrete values.
- `app/` is the front end: drawing, key input, files and background work. It reaches the
  multiplexer, the services and the store through traits.

## Agents

Which agents there are, and how a title or a screen gives them away, is data: an
`agents::AgentTable` is handed to the functions that need it. `agents::known_agents`
builds the table of the three known agents; the host says by which name and title the
first of them goes.

## Trusted items

Three facts about the standard library are taken on trust, each with a comment where it
stands: what `String::push` appends, that the lower case of a text depends on the text
alone, and that whether a character is alphanumeric depends on the character alone.
