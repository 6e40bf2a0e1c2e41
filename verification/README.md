# Deliriuum Direct

A WireGuard VPN client and its privileged service: the client has no
privilege and talks to the service over a local socket (a named pipe on
Windows); the service holds the tunnel and the network settings.

## Layout

- `src/` — the library, verified with Verus:
  - `config` reads the `.conf` text that the client hands to the service;
  - `client` holds the client's decisions: errors shown to the user, tokens,
    the device and its key, the session configuration, the tunnel's state;
  - `handover` proves that the configuration the client writes is read back
    by the service as the values the master gave;
  - `service` answers the requests on the socket and the named pipe;
  - `net_linux`, `linux_flow`, `net_macos`, `mac_flow` apply, rebind and revert
    the routes, DNS and firewall as state machines driven by the caller;
  - `engine`, `tun`, `windows` cover the tunnel engine's shared state, the
    utun framing and interface commands, and the Windows service manager;
  - `json`, `text`, `codec` are the values, text helpers and the calls into
    `base64`, `x25519-dalek` and `str::to_lowercase`.
- `app/` — the programs around the library: sockets, processes, files,
  threads, the tunnel device and the HTTP calls.
- `tests/` — tests of the library on concrete values.
