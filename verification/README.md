# Holdfast

The logic of a remote-shell system, written in Rust and verified with Verus: a
daemon that runs shells for its users, an agent that reaches a gateway from
behind a firewall, and the core of a desktop client that keeps shells alive
across restarts.

## Layout

- `src/` is the library. Every function of it has a contract that Verus proves,
  but for the draws of random values, of which nothing can be said.
  - Logins: `grant`, `ssh`, `pam`, `password`, `auth`, `rate_limit`.
  - Connections: `wire`, `protocol`, `conn`, `uploads`, `forward`, `permits`,
    `channels`, `ws`.
  - The daemon: `daemon`, `cli`, `key_file`, `web`, `frontdoor_bridge`,
    `observability`.
  - The agent: `agent`, `agent_link`.
  - The client: `store`, `client`, `lifecycle`, `supervisor`, `opening`,
    `attachment`, `dockerwm`.
  - Building blocks: `assoc`, `base64`, `bytes`, `chance`, `clock`, `hex`, `ids`,
    `json`, `net`, `order`, `parse`, `pem`, `text`.
- `tests/` runs the library on concrete values.
- `app/` is the program around it: arguments, files, sockets and PAM, and the loops
  that carry out what connections, forwarded connections and the client ask for.

## How the parts fit

What waits for the outside is written as steps. A `Conn`, for example, takes a
message and returns the actions that follow from it: a reply to send, a shell to
open, an event to record. Whoever runs it carries the actions out and hands back
what came of them. The same holds of the agent's link, of forwarded connections,
of the life of a server in the client and of the client's store, whose changes are taken over
only once they are written.

Calls into other crates (Ed25519, SSH keys, SHA-256, base64, JSON, PEM files, trust
anchors and random numbers) stand behind small wrappers, each with a statement of
what is relied on. They are the only parts of the library that are not proved.
