# biscuits

A terminal AI agent whose logic is a verified library.

- `src/` — the library, verified with Verus: the turn state machine and
  its system context, the tool-call protocol, the permission guard, goals
  and plans, workspace observation, change logs, memory commands and the
  memory graph's candidate, budget and extraction rules, shortcuts and
  profiles, provider request bodies and stream events, MCP commands and
  JSON-RPC framing, the GUI-testing MCP server's dispatcher, skills, the
  test harness, evals, markdown and the line editor.
- `app/` — the program around it: configuration prompts, the prompt loop
  driving the turn state machine, HTTP to the model provider, files,
  processes, goals on disk and MCP servers. It does not yet run the memory
  store, skills, the browser, computer use or hooks; the library holds their
  rules.
- `tests/` — tests of the library.

Run `biscuits` in a project directory; `biscuits gui-mcp` serves the
GUI-testing MCP server on stdin/stdout; `biscuits harness baseline|run|diff`
runs the project's test suite against a recorded baseline.
