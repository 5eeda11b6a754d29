# RustNmap

The decisions of a network scanner, verified with Verus: capturing and filtering
packets, finding out which hosts are up, scanning their ports, enriching the results,
and managing scans for remote clients.

- `src/` is the verified library. It sends nothing and waits for nothing: a caller asks
  it what to do next, does it, and reports what came of it. Each function states in its
  contract what it decides.
- `app/` is the program around it: sockets, clocks, tasks and messages.
- `tests/` runs the library on concrete values.

## Modules

| Modules | What they decide |
| --- | --- |
| `bpf` | Packet filters, and what the filter machine makes of them |
| `engine`, `zero_copy`, `payload` | Ring configuration, packet buffers and packets |
| `recvfrom`, `async_engine`, `unsupported` | The packet engines |
| `packet6`, `wire` | Packets of ICMPv6 and of TCP over IPv6, checksums |
| `discovery`, `ping`, `arp` | Host discovery: probes, answers, verdicts |
| `net` | Interfaces, hardware addresses, round trip times, pacing |
| `phase`, `config`, `state`, `orchestrator` | The phases of a scan, from configuration to result |
| `hosts`, `host_sweep` | Which targets are asked how, and what that says of them |
| `ports`, `sweep`, `batch` | Which ports are probed in which order, and what the answers mean |
| `enrich`, `scripts` | Services, operating systems, routes and scripts |
| `api`, `manager`, `index`, `runner`, `server` | Managing scans for clients |
| `addr`, `text`, `clock`, `error`, `models` | Values that the others share |

Time spans are in nanoseconds unless said otherwise.
