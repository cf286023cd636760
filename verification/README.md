# wisdom

A server hands out words of wisdom to clients that first solve a
proof-of-work challenge: the server sends `SLV difficulty:text:counter`, the
client counts up until the SHA-256 digest of `difficulty:text:counter` starts
with `difficulty` bytes equal to the character `0`, sends that text back, and
gets `QUO quote`.

- `src/` is the library, verified with Verus: number and text handling
  (`number`, `text`), the challenge with its parsing, solving and checking
  (`challenge`), the message names (`command`), the quote store (`db`), the
  server's per-connection state machine (`state`), the first server version
  (`pow`), the client's decoding and solving (`client`) and the command-line
  options (`cli`).
- `tests/` runs the library on concrete values.
- `app/` holds the programs: argument parsing, the TCP server loops, the
  client's connection and prompt.
