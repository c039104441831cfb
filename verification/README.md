# llmvm

A core that prepares prompts and keeps threads for language models, with backends that ask the models and
frontends that use them. Their rules are a library verified with Verus. What the library has from other
crates it trusts, by the contracts in which it says so.

- `src/core_lib` prepares generations, keeps threads and sessions, and reads and offers tools.
- `src/basic_core` is a small core with numbered threads.
- `src/outsource_lib`, `src/outsource`, `src/llmrs` and `src/llama` are the rules of the backends.
- `src/codeassist` stands between an editor and its language server: it reads and writes the protocol's
  messages, follows the documents, and completes code.
- `src/chat` is the chat frontend, `src/cli` the command lines.
- `src/json`, `src/text`, `src/protocol` and `src/proto` are what the others share.
- `app` holds the programs: files, processes, the network, the terminal, and the reading of documents into
  types. It is ordinary Rust and not verified.
- `tests` runs the library on values.

Contracts speak of models: a type `T` has a ghost type `TModel`, which its `deep_view` gives. Proof
functions whose names begin with `law_` state what holds of several functions together.
