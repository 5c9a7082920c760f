# vareliox

The core of the Vareliox Code desktop assistant, written in Verus: the rules
for commands, web pages, model libraries, provider connections and the
messages sent to a model are verified functions with contracts. Loops that
wait on the network or on processes (reading a page, running a command,
streaming a chat reply, finding ComfyUI) are state machines here: the library
decides each next step, and `app/` performs it and reports what happened. The
chat-reply machine is run by `app/chat.rs` on a request that is already built;
the provider adapters that build requests and read their payloads are not part
of this workspace, so the command line does not offer chat yet.

## Layout

- `src/` — the verified library.
  - `agent` — which commands the model may run (allowlist, argument checks,
    shell levels, working directories), output clipping, the order of a run's
    events, the text of output pipes read in pieces, and the commands a
    project's build files call for.
  - `chat` — the system message that frames a conversation: what is read from
    the user's files, in which order, and what the model is told.
  - `stream` — framing of streamed replies (server-sent events or one JSON
    object per line) and the follow-up of pending NVIDIA requests.
  - `reply` — the course of one streamed chat reply: time limits,
    cancellation and completion.
  - `web` — readable text of HTML pages, the rules for reading public pages
    and the read itself (redirects, size limit, answers).
  - `search` — DuckDuckGo result pages and the planning of a web search.
  - `catalog`, `library` — the local model library and how its models are
    installed (Ollama, LM Studio, ComfyUI-Manager).
  - `provider`, `cache`, `media` — provider connections, settings, connection
    tests, reuse of HTTP clients and NVIDIA image and video generation.
  - `active` — the requests in progress and their cancellation handles.
  - `vm` — virtual-machine detection and the web view renderer.
  - `urls`, `paths`, `json` — the calls into `url`, `std::path` and
    `serde_json`, each behind a contract.
- `tests/` — tests of the library.
- `app/` — the command-line program around the library: processes, sockets,
  files, the environment and JSON on the wire.
