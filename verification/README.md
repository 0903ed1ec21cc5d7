# sim1h

The verified core of a DHT whose data lives in DynamoDB.

- `src/error.rs`: the DHT's errors and how a failed DynamoDB request maps to them.
- `src/aspect_map.rs`: the map from entry addresses to the aspect addresses held for them, and how a scan updates it.
- `src/schema.rs`, `src/aspect_write.rs`: the items and update requests that store aspects and aspect lists.
- `src/agent_read.rs`: the steps of the lookup of an agent in a space.
- `src/state.rs`: an agent's state in a space and the steps of a tick that gathers the requests for its client.
- `app/lib.rs`: the DynamoDB requests (through rusoto), the clock, the random bytes of request ids, and the loop that answers a tick's actions.
