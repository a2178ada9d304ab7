# mlx_local_server

Local inference servers for MLX models: a language-model server with an
OpenAI- and Anthropic-compatible HTTP API, a speech server (synthesis,
transcription, voice activity) and an image-generation server.

## Layout

- `src/` — the verified library. Every function carries a Verus contract:
  - `text` — character-sequence operations (search, replace, trim, split,
    decimal parsing and formatting, UTF-8 lengths) with their specifications;
  - `ids`, `codec`, `config`, `settings`, `hub` — identifiers, base64 and data
    URLs, environment values and the servers' settings with their defaults,
    memory statistics, model-hub names and cache paths;
  - `lm` — the language-model service: prompt building and sliding windows,
    stop sequences and streaming, reasoning extraction, tool calls, fill-in-
    the-middle prompts, model and adapter slots, the prefix cache, batches,
    training jobs, response chains, vector stores and the request pipeline;
  - `audio`, `image` — model slots, request validation, WAV framing and the
    error answers of the speech and image servers.
- `tests/` — tests run against the compiled library.
- `app/` — the executables: HTTP routing, the Python model runtime, metrics and
  everything else that performs I/O. It calls the library for every decision.
