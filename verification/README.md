# pslxserver

The logic of an X11 server for a native display, written in Verus.

`src/` is the library. It turns the bytes of clients and the events of the
display into replies, events and drawing: `server/requests.rs` processes a
request, `server/dispatch.rs` an event of the display, and what has to happen
outside is left in the server's outbox as a list of actions. Each function's
contract says what it answers and how the server's state changes; the `law_`
functions state what holds across several of them.

`app/` runs the library: sockets, tasks, the clock and the native display.
`tests/` exercises the library from outside.
