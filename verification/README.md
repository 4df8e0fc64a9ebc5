# gateway_proxy

A proxy for Discord gateway connections: clients connect to it instead of the
Discord gateway, while it keeps the shards' connections to Discord open.

`src/` is the library, with its specifications and proofs:

- `text`: byte search, UTF-8 decoding of one character, Unicode white space,
  decimal numbers and the last word of a string.
- `deserializer`: finds the opcode, the sequence number and the event name of
  a payload, with their byte ranges, without parsing the JSON.
- `relay`: gives each client its own sequence numbers by replacing the number
  of a payload in place; the rewritten payload scans back to the new number
  with its opcode and event name unchanged.
- `splice`: how the payload scans see a payload whose digits were replaced.
- `state`: the READY state of a shard, the session store and the lookup of
  a shard by its ID.
- `server`: what the proxy does with each client payload (heartbeat,
  IDENTIFY, RESUME, anything else), the HTTP routes and compression choices.
- `upgrade`: the websocket handshake and its accept value.
- `dispatch`: what the proxy does with each shard event, and over a whole
  stream of them.
- `cache`: how READY and the guild payloads for a new client are numbered,
  which members they list, and the guilds that are unavailable.
- `config`: the cache configuration and the gateway events and cache
  resources that it implies.
- `startup`: the shards to run and their activity text.
- `zlib_sys`: allocation sizes and deflate decisions of the zlib compressor.

`app/` is the program around it: configuration loading, the HTTP and
websocket server, the shard tasks, the cache of guilds and the zlib
compressor.
