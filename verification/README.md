# todoki

Relays run agent sessions on remote machines; a server hands out the work and
distributes events over one event bus.

`src/` is the verified library. What a relay or the server decides stands there as
functions with contracts, and what the functions promise together stands beside
them as proof functions whose names begin with `law_`.

- `manager`: the relays that are connected, the sessions they run, which relay
  gets a task, and the permission requests that wait for an answer.
- `event_bus`: who may connect, which events go to whom, what the events of a
  relay bring about, and the replay of past events.
- `relay`: how a relay connects and reconnects, how it registers, and what it
  does for the events of the server.
- `config`: command line, environment and configuration file, put together.
- `protocol`, `json`: the messages and their payloads.
- `collections`, `text`: tables, sets and texts.
- `outside`: what comes from other crates. The contracts there are taken on
  trust.

`app/` is the ordinary Rust around the library: sockets, files, the command line
and the encoding of messages.

The command that sessions run unless one is configured is fixed when the relay is
built, by the variable `TODOKI_RELAY_DEFAULT_COMMAND`.
