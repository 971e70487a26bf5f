# fracture

A local HTTP/HTTPS proxy that gets around deep packet inspection by sending
requests and TLS ClientHello records upstream in small fragments.

The library (`src/`) is written in Verus and verified:

- `proxy::buffer` — blind splitting of a byte stream and re-framing of a TLS
  record as several well-formed records; proofs that splitting loses and
  reorders nothing and that the records are well formed.
- `proxy::handler`, `proxy::http`, `proxy::https` — reading a client's request
  head, routing it (CONNECT tunnel, forwarded HTTP, or refused under the
  HTTPS-only policy), finding the upstream target in a CONNECT line or a
  `Host` header, and checking the ClientHello header.
- `dns::resolver` — DNS transports, settings, and the name servers a resolver
  is built from.
- `engine` — how a running engine takes in a new configuration.
- `console` — what each line typed at the interactive console asks for.
- `settings` — what each edit in the settings form does to the configuration.
- `os::proxy` — the system proxy setting and the loopback address.
- `text` — white space, words, lines and decimal numbers as the standard
  library reads and writes them.

`app/` is the command-line front end (sockets, the Tokio runtime, the hickory
resolver, logging, the registry on Windows); it leaves every decision to the
library.
