# docker_intrude

Runs a host command inside the network namespace of a Docker network: a temporary holder
container is created with a fixed address on the network, the command is attached to its
namespace, gets Docker's embedded DNS as `/etc/resolv.conf`, and runs with capabilities dropped.

- `src/` is the verified library (Verus):
  - `cli` — the command line: flags, the command after `--`, and what is refused;
  - `text` — comparing text, white space, decimal numbers written and read;
  - `http` — the requests sent to the daemon and the status and body read from its replies;
  - `docker` — the conversation with the daemon, as functions from a reply to the next
    request: the ping, provisioning the holder container, reading its process id;
  - `identity` — the real user of the process, as the one call that asks for it reports it;
  - `capabilities` — the one call that clears a capability set, and the record of it that
    only that call can make;
  - `namespace` — the checks before entering the namespace, the capability sets cleared, the
    DNS configuration, and what follows each wait for the command.
- `app/` is the program around it: arguments, environment, the daemon's socket, JSON
  (serde), files, mounts, signals and processes.
- `tests/` runs the library on concrete values.
