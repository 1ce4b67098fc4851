# Gatehouse

An approval broker for coding agents. Agents put risky operations to a daemon: a policy lets
harmless ones pass and denies forbidden ones, and a human approves the rest, each approval bound to
one request by its digest, a nonce and a validity window.

The library under `src/` holds the decisions, with contracts that Verus proves.

- `proto` — requests and their digests, approval envelopes, messages, the policy, the audit log,
  endpoints and paths.
- `daemon` — what the daemon decides: submitted requests, session grants, approvals by the operator
  and by passkey, enrollment codes, the audit chain, the relay and its devices, certificates and
  push registrations.
- `gate` — the command line client and the hooks of agent harnesses.
- `mcp` — the tool server.
- `json`, `text`, `number`, `codec`, `urls` — values and texts, and the calls into outside crates
  that read and write them.

Laws that relate several functions are public proof functions whose names start with `law_`. What
is taken on trust about outside crates stands beside the call, in functions marked
`external_body`.

`app/` holds the programs `gate`, `gatehoused` and `gate-mcp`: arguments, sockets, files, clocks,
TLS and web servers.
