# snarkos_node

The logic of a node of the Aleo network, with contracts that Verus proves: the store of pending
transmissions, the framing of messages between peers, the books on connections and banned peers, the
REST API, and the developer commands.

## Layout

- `src/` is the verified library.
  - `storage/`: the transmissions that pending certificates refer to, and the laws of the store.
  - `messages/`: message identifiers, their size limits, and the length-delimited frames around them.
  - `connections`, `banned_peers`, `address`: who is connected and who is kept out.
  - `rest/`: the parameters of requests, the routes and their middleware, the answers and errors, the
    block cache, the history snapshots and the broadcast of transactions and solutions.
  - `developer`: endpoints and queries, and the steps from a built transaction to a confirmed one.
  - `network`, `node_type`, `node_data`, `file_path`, `ledger_data`, `callback_handle`, `signals`:
    the parameters of each network and the small pieces that a node is put together from.
  - `console`: the values of the Aleo console, which `snarkvm` parses.
  - `text`, `sequences`, `keyed_list`: what the modules above share.
- `app/` is ordinary Rust around the library: sockets, tasks, files and HTTP.
- `tests/` holds the tests, which run the library with the outside crates linked.

## What is trusted

A call into an outside crate stands behind a small function marked `external_body`, whose doc comment
names the outside function and says what its contract claims. Where the result of a call takes pages
to state, it has a name: a spec function without a body. Contracts that depend on such a result speak
of the name, and a second function takes the result as an argument.

A public function without a `requires` clause can be called on every input. Where there is one, the
caller has to check it: the verifier does not look into `app/`.
