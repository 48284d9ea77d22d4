# ai_assist

A command-line assistant that sends a question to a language model over an
OpenAI-style chat-completion API, lets the model call tools (a calculator, a
shell command, the current time, and tools declared in the configuration), and
prints the answer.

- `src/` is the library, each function proved against its contract: the tool
  registry and the rules by which a tool call is answered (stop list,
  confirmation, placeholders); the conversation with the model (the request
  bodies, the reading of its replies, and the order of the steps in between);
  the configuration defaults and file locations; the answer cache's file
  naming; and the text helpers these rest on.
- `app/` is the program around it: command-line parsing, the configuration
  file, HTTP and the one-for-one conversion of JSON bodies, running commands
  and scripts, evaluating arithmetic, and the cache's file access.
- `tests/` exercises the library on concrete values.
