# tezedge

Parts of a Tezos node whose logic is verified with Verus.

- `src/rewards`: the rewards of a cycle, from the receipts of its blocks to the shares of the
  delegators. `get_cycle_rewards` begins a query that says what it needs next and takes the answer;
  `laws.rs` states what holds of every query.
- `src/protocol`: the commands between a node and its protocol runners. An `Exchange` is one
  command with its answer, an `Initialization` opens a context, a `CommandLoop` and an `EventLoop`
  are the runner's side, a `Watchdog` keeps a runner alive; `laws.rs` states what holds of every
  run of them.
- `src/mutez.rs`, `src/fraction.rs`, `src/address_map.rs`, `src/text.rs`: amounts of any size,
  rounding, ordered maps and decimal notation.
- `src/net.rs`, `src/dns_service.rs`, `src/peer_connection_closed.rs`, `src/websocket.rs`: peers,
  their addresses, and the counter of the monitoring websocket.

The library decides; `app` does what the decisions ask for: it opens sockets, spawns
sub-processes, reads storage and writes logs. Numbers of any size come from `num`, JSON texts from
`serde_json`, the names of log levels from `slog` and the numbers of address families from
`dns-lookup`; what is relied on of each of them stands with the function that calls it.
