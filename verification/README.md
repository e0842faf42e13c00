# llm_daemon

A daemon that listens for commands over HTTP, decides on a mode of operation
("dali" for free-style chat, "marat" for running bash commands in a
Thought / Action / Observation loop), keeps the chat history in SQLite and
prunes it by karma before each request to the OpenAI chat API.

- `src/` is the verified library: directive recognition and the choice of a
  mode, the reading of model responses into bash scripts, the demotion of
  karma at the end of a thought loop, the selection of the history within the
  token budget, the observation of a script run, the SQL of the history
  queries, the parsing of numeric settings and the token estimate. Its
  contracts and laws are checked by Verus.
- `app/` is the daemon around it: the HTTP server, the SQLite store, the
  OpenAI client, the bash runner and the float scores of the history.
- `tests/` runs the library on concrete inputs.
