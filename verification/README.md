# Juno

A desktop chat agent over a local Ollama server, with workspace folders and
tools (files, directories, search, shell, environment, and on Windows screen
capture, mouse and keyboard).

The logic is a library verified with Verus (`src/`):

- `chat` — a turn of the conversation as a state machine: the caller asks the
  model, runs the tool the model calls, and reports back; the history it keeps
  is stated exactly, and a finished turn is proved to have added the user's
  message, at most one tool output, and the answer.
- `tools`, `tool_reports` — the tool registry, the function-calling schemas,
  what a call comes to for each tool and argument set, and the texts that
  report each outcome.
- `workspace` — folders (no path twice; adding then removing restores the
  list), the chat context built from their text files, and search results.
- `ollama`, `mcp` — the messages and bodies of the Ollama and MCP protocols.
- `computer_use` — button names, the 24-bit bitmap file of a screen capture,
  and the key events that type a character.
- `json`, `text` — the JSON documents the above exchange, and text helpers.

`app/` is the program around it: the Tauri commands, HTTP, processes, the file
system and the Windows desktop calls. `tests/` runs the library on concrete
values.
