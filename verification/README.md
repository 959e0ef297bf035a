# todos

A task manager for working alongside coding assistants: tasks with
priorities, labels, projects and one level of subtasks, kept in JSON files
under a `.todos/` directory, used from the command line or a terminal UI.
Finished (done or cancelled) tasks move to an archive on their own.

The library in `src/` holds the logic and is verified with Verus:

- `model/` — tasks, recurrence, filters, sort orders, tree order, counts;
- `store/` — the in-memory task list of one JSON file, with its operations;
- `service/` — the task service over the active list and the archive
  (add, edit, status changes with archiving and restoring, delete, search,
  batches), the cleaning of user input, and the laws that tie the
  operations together;
- `config/` — settings and the locations of the data files;
- `cli/` — what each command computes and answers;
- `i18n/` — messages in English and Japanese;
- `tui/` — the terminal UI as a state machine over keys and clock ticks;
- `text.rs` — character-level text helpers.

`app/` is the program around it: argument parsing, reading and writing the
files (with a lock), printing, and drawing the terminal UI.
