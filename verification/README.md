# tmuxlet-server

An OpenAI-compatible HTTP server in front of several backends: programs on this
machine, `tmuxlet` sessions, and other OpenAI-compatible servers. A model that a
client asks for stands for a chain of backends, which are tried in order until
one answers.

- `src/` is the library. It holds the rules of the server and is verified with
  Verus: what the configuration means and what is wrong with it (`config`,
  `typo`, `toml_doc`), which backends a model goes to (`router`), how a chain is
  run (`http::chain`), what is remembered of backends (`http::health`), how
  requests and chats are answered (`http`, `http::chat`, `openai`), how backends
  are called and their output is read (`backend`, `pty`, `http_client`, `wire`,
  `json`), and what happens at the start (`startup`, `auth`, `env`, `log`).
- `app/` is the program around it: files, processes, sockets and threads.
- `tests/` runs the library.

Times in the library are numbers that the program hands in; so is everything
else that it reads from the world.
