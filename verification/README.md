# rpgx

A small HTTP front proxy. The library in `src/` holds what the proxy
decides and computes, with contracts proved by Verus:

- `str_map`: a string-keyed map in insertion order with distinct keys.
- `text`: decimal numerals, reason phrases, header lines, the wire form of
  responses.
- `wire`: request and response heads as read by `httparse`.
- `http`: requests sent upstream (`req`), responses (`res`), and reading an
  upstream reply (`client`).
- `config`, `proxy`: the configuration and how an incoming request is
  answered.

`app/` is the program: it loads `config.toml`, accepts connections with
tokio, and performs the reads and writes that the library asks for.
