# tgt_core

The core of a keyboard-driven Telegram client for the terminal, written and
verified in Verus. Every pane is a state machine: a function from the
application state and an event (a key, an update from TDLib, a tick of the
clock, the answer to a request) to the next state and the effects to perform.
Nothing here performs I/O or reads a clock.

## Layout

- `src/model/`: ids, chats, messages, text entities, keys, action chips.
- `src/td/`: requests, answers and updates at the TDLib boundary, and the
  scripted stand-in for TDLib.
- `src/state/`: one module per pane or concern. `conversation` and `window` hold
  the message window, `history` the paging machine, `guarantees` what holds of a
  conversation whatever happens to it.
- `src/telemetry/`: the allowlist of what may be sent, and the hashing of ids.
- `src/collections.rs`, `src/text.rs`: ordered containers and UTF-8 editing.
- `src/app.rs`: the whole application state and its screens.
- `app/`: the edge to the outside. The runtime trait, the scripted runtime over
  a channel, the serialized form of what crosses the boundary, and the telemetry
  macro.

## How contracts are stated

Every state type has a model, its view. A handler's contract says that the model
after the call, and the effects it returns, are those of a spec function of the
model before it. What relates several calls stands as a public proof function
beside the module it is about.

Four results come from outside and have names in the contracts:
`text::lowercase` (`str::to_lowercase`), `state::palette::fuzzy_score` (nucleo),
`telemetry::hashing::hmac_sha256` (hmac with sha2) and `model::path::paths_equal`
(`PathBuf`'s `==`). The functions that go on from such a result take it as an
argument and have contracts of their own: `text::contains_text` and
`state::chat_list::pinned_first`, `state::palette::rank`,
`telemetry::hashing::hex_prefix`, `td::fake::Script::answer`.

nucleo cannot score every query against every title. `state::palette::handle_key`
asks for one that it can; `state::palette::try_handle_key` tests for it first.
