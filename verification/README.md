# NetHound

NetHound turns a small Linux board into a configurable WiFi access point
with a captive portal. This crate holds its verified core (`src/`) and the
programs around it (`app/`).

## Library (`src/`)

- `packet_data`, `wire`: decoding captured Ethernet frames (IPv4/IPv6,
  TCP/UDP) into the logged fields, read through `pnet`.
- `firewall`: the set of client IPs the gateway forwards and the
  `iptables` rules that allow, block and reload them.
- `hostapd`: hostapd control messages, the dnsmasq lease file, the
  station table, and the web API's authorization answer.
- `auth`: per-client challenges, the SHA-256 challenge response, Argon2
  password hashing, and the service's records.
- `monitor`, `traffic_log`: decisions of the packet monitor and the daily
  traffic summaries.
- `netlab`, `services`: the NetLab shell commands and the start-up plan.
- `text`, `command`, `pairs`: text helpers, command lines, and key/value
  tables.

## Programs (`app/`)

One binary with a subcommand per service (`start`, `firewall`, `monitor`,
`analyzer`, `launch`, `auth`, `portal`); each does the I/O (sockets,
capture, databases, GPIO, processes) and asks the library what to do.
