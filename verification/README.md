# moltis_core

Verified decision logic for an agent gateway, in two parts.

- The `read_image` tool (`src/read_image.rs`): it checks the parameters of a call,
  reads the image on the host or in the session's sandbox (`src/session_read.rs`,
  `src/sandbox.rs`), and replies with the image as a `data:` URI.
- The Discord channel plugin (`src/discord/`): its accounts, their configuration,
  health and gateway tasks.

`src/` does no I/O. It hands out actions and takes events; `app/` performs the
actions with tokio and serenity. Base64, JSON and secrets come from the `base64`,
`serde_json` and `secrecy` crates, each behind a small module that states what is
relied on (`src/base64_codec.rs`, `src/json.rs`, `src/discord/bot_token.rs`).
