# dp-net

The logic of two small peer-to-peer programs, written and verified in Verus:

- `dp-mesh` makes the services that listen on a host reachable through a gateway.
  The host finds them, announces them and their changes, and connects the streams
  that the gateway opens. The gateway opens a port for each announced service.
- `dp-vnet` joins machines in a virtual network, 100.64.0.0/10. Each node reads
  packets from a TUN device and sends each to the peer that it is for.

`src/` is the verified library. It holds the listing parsers, frames and lines,
addresses, the pool of peers, the open ports, and the state machines that say what
each loop does next. Its contracts are stated over sequences, maps and spec
functions; properties that relate several functions are public proof functions
beside them. What it takes from outside crates stands behind small trusted
functions, each with a comment that says what is claimed of the outside function.

`app/` is the programs around it: arguments, endpoints, streams, sockets, the TUN
device and JSON. `tests/` runs the library.
