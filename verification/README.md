# moq

Media over QUIC: the rules of a publisher, a subscriber and a relay, as a library
that is verified with Verus.

- `src/` is the library. What it does is stated in contracts and proved.
  - `coding`, `data`, `message`: values on the wire.
  - `session`: what becomes of the messages and streams of a session.
  - `media`: fragmented MP4, what is published of it and how it is played.
  - `relay`, `native`, `connect`, `address`: how a relay is run and connected to.
  - `util`: what is counted of a session and of its media.
  - `table`, `watch`, `text`, `buffer`, `bytes_be`: what the others are made of.
- `tests/` runs the library.
- `app/` is the program around it: the sockets, the files, the clock, and what is
  computed in floating point.

The machines in `session`, `media` and `relay` decide; whoever runs them reads,
writes and waits, and reports how it went.

Control messages travel as text, each a string value on the control stream; the
streams of media carry the binary form.
