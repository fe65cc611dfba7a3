# ld46

The rules of a small multiplayer game, verified with Verus: players connect
with a token, feed a princess whose life drains every tick, and every
connected client hears what happens through an event registry.

- `src/events.rs`: the event registry `Events`, whose subscribers are
  closures that answer whether they still listen, with the record of what
  each firing handed to whom.
- `src/model.rs`: tokens, ids, players, messages and the game model
  (`connect`, `disconnect`, `handle`, `tick`) with its laws.
- `src/server.rs`: one connection's session and the model with its registry.
- `src/client.rs`: what a client knows of the princess, and why it follows
  the server.
- `src/options.rs`: filling in network options.
- `src/rng.rs`: the trusted calls into `rand`.
- `src/text.rs`: reading a port number, and the trusted `String::push`.
- `app/`: the program around the library: command line, networking,
  threads, graphics.
