# chat_client

The client side of a small peer-to-peer chat: it learns its public address
from a STUN server, shares it as a code of six words, decodes the frames
that the chat server sends, and keeps the keys and received packets that
its commands work on.

- `src/` is the verified library (Verus): word codes (`words`,
  `appstate::addr`, `addr`), STUN requests and responses (`utils`), frame
  decoding (`helpers::packet`), the received-packet queue
  (`appstate::session`, `helpers::network`) and the decisions of the
  front end's commands (`appstate::context`, `network::tauri`) and of the
  thread that listens to the server (`threads`). Text
  helpers with their proofs are in `text`.
- `app/` is the command-line program around it: sockets, the terminal,
  loading the word table from a file (one word per line, 256 lines).
- `tests/` exercises the library.

The desktop back end around these decisions is not part of this crate: the
Tauri start-up (`run`), the listener thread's reading, decrypting and event
emitting, and the encrypting, framing and sending in each command. They
depend on the chat's shared packet crate, its AES/RSA helper crate, `rsa`
and `tauri`, none of which is available here; the library keeps the
decisions they make, over its own types.
