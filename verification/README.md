# praxis_responses

The verified core of a proxy for the OpenAI Responses API.

- `src/pipeline/` computes what a filter pipeline needs of message bodies: which
  filters run their body hooks in which phase, and how much has to be buffered.
- `src/store/` addresses stored responses and conversations: table names,
  statements, page cursors, the reading of rows, and a registry of named stores.
  `model.rs` says what each statement asks of the tables; `paging.rs` proves that
  following cursors lists everything once.
- `src/rehydrate.rs` puts stored history before the input of a request.
- `src/state.rs` is the state that filters share about a request.
- `src/tcp_metrics.rs` says what is recorded of TCP connections.
- `src/json.rs` and `src/text.rs` hold JSON values and strings.

`app/` runs these decisions: SQLite by way of `sqlx`, request bodies, metrics.
`tests/` runs the library, and its statements on SQLite.
