# NetM

Shares the network of one computer, the host, with another, the guest, over a
Type-C / Thunderbolt cable. The guest routes its traffic into a TUN device, the
packets travel to the host in frames, and a user-space IP stack on the host
turns them into ordinary connections.

- `src/` is the library: the frame protocol and discovery messages, the link
  probe, interface and resolver listings, the host's sessions and flows, the
  guest's state machine, the configuration of the operating system, settings
  and command line, and the screens. It is verified with Verus: what a function
  returns or changes stands in its contract, and what holds of the whole stands
  in public proof functions next to the functions concerned.
- `app/` is the program around it: sockets, the TUN device, processes, files,
  the terminal and the async runtime. It carries out what the library decides
  and hands back what happened.
- `tests/` runs the library from outside.

The library calls `bytes`, `postcard`, `ipnet` and `etherparse`; what it
believes of them is said where they are called (`buffer.rs`, `wire.rs`,
`cidr.rs`, `icmp.rs`).

A serial port is known to the settings and to the state machines, but the
program has no driver for one.
