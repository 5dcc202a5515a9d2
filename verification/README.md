# prowl

A Linux process-tree monitor: it watches a PID and its whole descendant
tree (CPU, memory, threads, lineage) in a terminal UI.

The library in `src/` holds the parts with rules in them, each with a
contract that Verus proves:

- `process` — the tree model (`Node`, `Tree`, `Pid`, `ProcessDetail`,
  `SchedPolicy`) and its aggregates (thread and subprocess counts,
  saturating subprocess CPU time);
- `tree` — flattening the tree into table rows (threads, collapsed
  subtrees, case-insensitive filter, box-drawing connectors);
- `app` — the view model: what each key and each snapshot does to the
  selection, scrolling, polling interval, filter, detail panel and the
  bounded sample histories, and what the event loop must do next;
- `sample`, `environ`, `cli`, `text` — parsing of `/proc` text, passwd and
  cgroup files, command-line values, and environment ordering;
- `ui` — layout decisions (visible columns, command cell text, detail
  panel height, display tones);
- `time`, `format` — nanosecond time spans, percentage samples, clock
  readings of spans and task-state words.

`app/` is the program around it: argument parsing, reading `/proc` with
`procfs`, the sampling task, reading keys, performing the effects the
library asks for, and drawing with `ratatui`/`crossterm`.
