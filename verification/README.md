# chat_to_chat

The verified core of "Chat to Chat", a desktop application in which one
model (AI1) plans and reviews while another (AI2) executes, round after
round, with file tools restricted to the paths the user authorised.

- `src/` is the library, verified with Verus:
  - `model` – settings, task records and rounds;
  - `prompts` – the prompts, the success rule, the round limit and the
    small decisions around a chat request;
  - `run` – a task run as a state machine (plan, context, execution,
    writes, review; pause, resume and stop requests), with its laws;
  - `agent` – the executing model's tool loop as a state machine;
  - `blocks` – `<tool_call>` and `<write_file>` blocks in replies;
  - `tools`, `reports`, `search` – which tool a call asks for, what each
    tool answers, and the file-name and text searches;
  - `paths` – authorised paths and their resolution;
  - `preview`, `pe` – file previews, summaries and the PE header report;
  - `store`, `config` – the task history and the lookups in the settings;
  - `text`, `json` – character-sequence primitives and the JSON members
    read with `serde_json`.
- `tests/` exercises the library on concrete values.
- `app/` is the Tauri application: commands, the JSON data file, HTTP
  requests and the file system, driving the library's machines.
