# trimrouter

A small NAT router whose decisions are verified with Verus. The library in `src/`
holds what the router decides: which address a client on the LAN is given, how the
address on the WAN is obtained and kept, what the DNS forwarder remembers and whom it
asks, when the clock is set and to what, and when a worker process is started, stopped
or given up. It does no input or output; every clock reading and everything that comes
from the network is handed to it.

## Layout

| module | what it holds |
| --- | --- |
| `addr`, `text`, `packet` | addresses and subnets, numbers in words, Ethernet, IPv4 and UDP framing |
| `assoc`, `keys` | lists of pairs read as maps, the keys of hash maps |
| `dhcp`, `option_lengths`, `hostname` | DHCP messages, the lengths of their options, the hostnames that clients may register |
| `lease_table`, `dhcp_server` | the leases on the LAN and the server that hands them out |
| `dhcp_client`, `wan` | the client on the WAN and the lease it obtains |
| `exchange` | what the client and the server understand of each other |
| `dns`, `dns_cache`, `dns_forwarder`, `dns_manager` | the DNS forwarder, its cache and its parent |
| `sntp` | the clock |
| `lan`, `netlink` | keeping the LAN off the subnet of the WAN, reports of the kernel |
| `ipc`, `supervisor`, `system` | messages between the processes, their supervision, the first process |

`app/` is the program around the library: sockets, netlink, processes, sandboxing and
the asynchronous loops. `tests/` runs the library with the crates it calls.

## What is trusted

The library calls `chrono`, `dhcproto`, `dns-parser`, `ipnet`, `pnet`, `rand` and
`sntpc`, and two functions of std, through small wrappers. The contract of each says what the crate is relied on
for, and the comment above it says it in words. Everything else is proved.
