# testbox

A test runner whose tests are Lua scripts. This crate is its verified core;
the `testbox` command in `app/` embeds the Lua runtime, runs commands and
sends HTTP requests, and leaves every decision to the library.

Modules of the library (`src/`):

- `text`: white space, trimming, prefixes and lines over characters.
- `test_file`: the name under which a test file is reported.
- `script_error`: errors raised into scripts and errors caught from them,
  and the argument check of the `merge` helper.
- `context`: the state of a run and the decisions of the `test` helper:
  filters, headings, result lines, failure propagation, fail-fast, the
  background processes a finished test leaves to be stopped, and what follows
  each test file.
- `json`: JSON values, equality, partial matching, and the JSON helpers.
- `process`: the output of commands, waiting on background output, and the
  pumping of output streams.
- `fetch`: the options and the response of the `fetch` helper.
- `random`: random alphanumeric strings.
