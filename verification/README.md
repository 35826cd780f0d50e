# arc_automation

The core of `arc`, an automation tool scripted in Lua that runs tasks on local
and remote (SSH) systems, written in Verus with its behaviour stated in
contracts and proved.

- `src/` is the verified library: the registries of systems, groups and tasks;
  the selection of tasks by tags, groups and systems with their requirements;
  the ordering of tasks by dependency; the validation of a selection; the rules
  that decide whether a task runs, is skipped or aborts a run; the reading of
  script tables into configurations; the classification of I/O and SSH
  failures; and the rows that `arc list` prints.
- `app/` is the program around it: the command line, the Lua runtime, file and
  SSH I/O, and printing.
- `tests/` runs the library on concrete values.
