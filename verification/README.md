# telegram_topics

The logic of Telegram forum topics and inline-button quizzes, verified with Verus.

- `src/registry.rs`, `src/str_map.rs`: which topics a chat has, kept in the order of their ids.
- `src/events.rs`, `src/commands.rs`, `src/seed.rs`: what Telegram and the owner say about topics.
- `src/forum_api.rs`, `src/memorizer_bridge.rs`: request bodies, responses, buttons and taps.
- `src/tools/`, `src/topics.rs`, `src/choices.rs`: what an agent may ask for, and where it goes.
- `src/json.rs`, `src/text.rs`, `src/decimal.rs`: JSON documents, text and numerals.
- `src/laws/`: what holds of several calls together.

Contracts speak of strings as sequences of characters, of a JSON document as a `Json`, and of
the registry as a map from chat to thread to topic. What is taken for granted is stated in two
places: the calls into `serde_json` in `src/json.rs`, and three of the standard library in
`src/text.rs`.

`app/` is the running side: HTTP, files, handlers and futures. It asks the library what to do,
does it, and hands back what came of it.
