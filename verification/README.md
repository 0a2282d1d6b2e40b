# blvm-fibre

FIBRE (UDP/FEC block relay) as a module next to a Bitcoin node. The library holds the decisions of
the module and is verified with Verus; the service around it performs them.

- `src/text.rs`: numbers and splitting of text.
- `src/address.rs`: reading of IP and socket addresses.
- `src/written.rs`: how addresses of both families are written, and that they are read back.
- `src/wire.rs`: protocol options.
- `src/config.rs`: module configuration, the UDP listen address, the context map.
- `src/send.rs`: one block on its way to every registered peer.
- `src/module.rs`: what the module does on a node event.
- `src/startup.rs`: what is set up when the module starts.
- `app/`: configuration file, environment, database, node connection. The UDP transport and the
  erasure coding come in as an implementation of `Relay`; a program's `main` calls `run` with it.
