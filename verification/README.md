# brainroot

BrainRoot is a desktop workspace that talks to model providers, hosts an
`opencode serve` sidecar, previews a project's dev server and embeds a guarded
browser. This repository holds its core as a library verified with Verus, and
the desktop shell around it.

## Layout

- `src/` — the verified library (`brainroot`).
  - `provider/` — the provider-neutral contract (identifiers, requests,
    stream events and their state machine), credentials and their stores
    (session-only and Secret Service), failure classification, model
    discovery and its cache, the OpenCode Go request and stream parser, the
    request executor with its timeouts, and the wire normalizer.
  - `features/conversation/` — the conversation state machine, admission of
    sends, the session with its single active request, and the runners.
  - `features/agent_host/` — validation, parsing and bounding of everything
    exchanged with the sidecar, its event-stream turn, its request bodies and
    the catalog id matching.
  - `features/preview/` — the dev-server lifecycle and the preview origin
    policy; `features/human_browser/` — the navigation policy and the shared
    status; `features/governor.rs`, `health.rs`.
  - `text.rs`, `json.rs`, `time.rs` — text helpers and the trusted bridges to
    `serde_json` and the clock.
- `tests/` — tests run against the compiled library.
- `app/` — the Tauri shell: windows, GTK/WebKit views, processes, threads,
  HTTP and keyring calls. It converts the library's types to their JSON forms
  and leaves what an answer means to the library; the timing around the
  processes (reusing a healthy sidecar, polling for readiness, the one-turn
  gate and the idle stop) stays with the process code.

Verify with Verus on `src/lib.rs`; the contracts of the public functions and
the `lemma_*` proof functions state what is proved.
