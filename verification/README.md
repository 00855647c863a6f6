# netprobe

A config-driven TCP port monitor for the terminal. It reads a list of hosts from
`config.toml`, probes a set of ports on each, and shows up/down status, latency,
open ports and an inferred role in a table.

The monitor's logic is a library (`src/`) that is written in Verus: every function
states what it returns or changes, and Verus proves it. `app/` is the program
around it: it opens connections, reads and writes files, and draws with ratatui.

## Layout

| Module | What it holds |
|--------|---------------|
| `text`, `clock` | strings as sequences of characters; wall-clock stamps and a monotonic clock |
| `host`, `group` | hosts, ids and roles; the order in which the hosts of a group are shown |
| `config`, `startup` | the configuration and what is doubtful in it; from a configuration to a monitor |
| `network`, `scan` | what a probe says of a host; scans, their results and deadlines, the status line and the log |
| `app`, `keys` | rows, tabs, search filter, triage and selection; what a key press does |
| `csv` | the snapshot that is exported |
| `ui` | what the screen shows, without the terminal |
| `hyperv` | the machines that a hypervisor reports, and where they go |

The modules named `…_laws` hold what is proved beyond the contracts of single
functions, such as that a snapshot can be read back; `state_laws` holds what is
true of the monitor's state at all times.

Functions that need the time come in pairs: `tick` reads the clocks, `tick_at`
takes the time as an argument and says exactly what follows from it.
