# talpid_firewall

The part of a VPN client that decides which packets get through on Linux, written and proved in
Verus.

`src/` is the library. A policy (connecting, connected, blocked; with or without the local network)
becomes a batch of netfilter messages. The contracts say which messages these are; the laws in
`src/laws.rs` say what they do to packets: that DNS queries do not leak, that the tunnel endpoint
stays reachable, that the addresses inside the tunnel are shielded from the local network, and so
on. `src/ordering.rs` says how the rules of related policies relate, and `src/session_laws.rs` what
it takes until a policy counts as applied. Launching programs outside the tunnel and finding the
settings directory are in the library too.

`app/` connects the library to the system: netlink sockets, interface lookups, system calls, the
environment. It needs the system libraries `libmnl` and `libnftnl`.

`tests/` runs the library on concrete policies and packets.
