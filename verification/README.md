# rex_cli

A project pipeline tool: projects move through onboarding, design, planning
and execution steps, work is queued in a schedule of phases, chunks and
tasks, and an autorun drives an agent through that work while a chat bot
reports on it and routes the user's replies.

The library in `src/` is verified with Verus. Its contracts state what each
operation returns or changes, and the proof functions named `law_*` state
properties that hold across operations (for example, that a replaced schedule
never moves a finished task back to pending, that a removed planning item is
unlinked everywhere, or that a reply is routed to the run that asked).

Layout:

- `src/schedule/`: the schedule, addressing by slug or position, edits,
  promotion of the next chunk, cycle checks and counters.
- `src/project/`, `src/models/`: project descriptors, status, checklist and
  planning stores with their edits, and the choice of the next task.
- `src/bundle/`: the three-way merge that installs bundle files and the plan
  of a whole install.
- `src/runner.rs`, `src/triage.rs`, `src/registry.rs`, `src/inbox.rs`: the
  autorun as a state machine, the triage of chat updates, the registry of
  running autoruns and the choice of the oldest inbox message.
- `src/chat*.rs`, `src/sessions.rs`, `src/discovery.rs`: chat routing,
  menus, sessions and the project scan of the chat daemon.
- `src/selection.rs`: the item pickers of project creation.
- `app/`: the command-line program around the library (files, YAML/JSON,
  argument parsing).
- `tests/`: tests of the library on concrete values.
