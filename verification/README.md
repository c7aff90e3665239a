# ark

The decision logic of an R kernel for Jupyter and Positron, verified with Verus: what
the kernel reads, decides and answers, stated in contracts and proved.

## Layout

- `src/` is the library.
  - `analysis/` finds the complete, incomplete and invalid inputs in code, and the
    sections in its comments.
  - `console/` annotates code with breakpoints, filters what the debugger prints,
    reads call stacks and keeps the comms of a session.
  - `dap/` is the debug adapter: breakpoints, requests, events and variables.
  - `data_explorer/` answers the requests of a data viewer: schemas, values, sorts,
    filters, profiles, exports and code.
  - `lsp/`, `connections/`, `coordinates/`, `sys/` and the modules at the top hold the
    smaller parts: completions, connection panes, line ranges, signals, logging, help
    and browser requests, line endings.
- `app/` is the ordinary Rust around it: sockets, channels, files, JSON, floating point,
  and the traits through which R is reached.
- `tests/` run the library.

Each contract is stated over texts, sequences and maps. The functions whose names
start with `law_` state what holds across calls: that annotating code only inserts
text, that breakpoints keep their ids, that ordinary output passes the filter, that
the inputs in code cover all of its lines.

R itself is not part of the library. What R computes comes in as plain values, and
the library decides what to ask R for and what to do with the answer.
