# vrc_tail

A `tail -f` for VRChat's log files: it follows the current group of
`output_log_<time>.txt` files and prints the lines appended to them, with an
optional filter, colors per file and per log level, and console commands.

- `src/` is the verified library (Verus):
  - `cli` – command-line options (parsed by clap) and the runtime configuration,
    with the filter and its case-(in)sensitive matching;
  - `input` – the console commands, as a step function from key to new state,
    configuration, action and console text, with laws about key sequences;
  - `output` – the date prefix, log levels, the pieces of a shown line and
    their rendering with crossterm's escape sequences;
  - `log_entry` – log file names (times parsed by chrono) and the choice of the
    latest group, with proofs that the group is unique and stable;
  - `timestamp` – a reading of the local clock and its text as VRChat writes
    it (formatted by chrono), with the fixed shape of that text;
  - `paths` – the log directory next to the local application-data directory,
    with the Windows path rules it relies on;
  - `follow` – which files go on being read and which are read from their
    start when a new group is found;
  - `events` – what each event of the main loop asks for;
  - `lines` – complete lines in the bytes read from a file;
  - `text` – character helpers shared by the others.
- `app/` is the program around it: arguments, the directory watcher, the
  terminal, reading the clock, and reading the files being followed.
