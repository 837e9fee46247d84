# iris_flow

Flow classification and accounting for a packet-processing pipeline, verified with Verus.

The library takes the decisions of the pipeline; devices, clocks, files and other processes stay
outside. Where outside work and decisions alternate, the library is a state machine: `next` says
what is to be done, and `step` takes note of what came of it.

| Module | What it holds |
| --- | --- |
| `conn_id` | 5-tuples, connection identifiers and their hashes |
| `fx_hash`, `flow_model`, `sw_flow`, `flow_laws` | the software flow table: a bounded, set-associative cache with LRU eviction |
| `inbox` | the control plane that hands rules to the cores |
| `flow_drop` | hardware rules: patterns, installation, removal, raw-pattern drops |
| `lcore` | receive cores, cycle budget, packet tap, port statistics, monitor and its log |
| `offline` | the loop over a capture file |
| `conn_fts` | features of connections: duration, counts, inter-arrival times, history |
| `net`, `text`, `time`, `port`, `stats` | plain values that the rest is made of |

`app/` carries the actions out: it polls, reads counters and clocks, writes log files, and shows
rates. Floating-point figures are computed there.

What is believed without proof stands in `inbox`: the channel of the crate `crossbeam`, its two
ends, and the calls that create it, send to it and receive from it. That a core is given what its
inbox took, in that order, is proved from what is said of those three calls.
