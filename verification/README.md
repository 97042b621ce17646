# request_response_tunnel

The request-response part of a tunnel that connects iceoryx2 services of different hosts over
zenoh, verified with Verus.

- `src/` is the library. It holds the format of the messages (`wire`), what a relay remembers
  (`pending`), what it decides (`relay`, `builder`), the ports of the tunnel in a local service
  (`ports`), the order in which they are served (`maintenance`), and what holds of a request and
  its response on their way through two relays (`propagation`). The one outside type that it
  makes and reads is the byte container of zenoh, behind the two functions in `zbytes`.
- `tests/` runs the library.
- `app/` joins the library to shared memory, to a zenoh session and to the ports of iceoryx2. The
  library says what is to be done next; `app/` does it and hands back what came of it.
