# Polygone

An ephemeral, post-quantum transit network: a message is sealed with
AES-256-GCM, cut into seven Shamir shares of which any four rebuild it, and
carried by a blind relay that reads nothing but routing fields. Around it sit a
resource daemon that lends idle RAM and CPU, a compute market, local inference
helpers, a terminal dashboard and an installer.

## Layout

- `src/` — the library, verified with Verus. Each module states its behaviour
  in `requires`/`ensures` over spec functions and views; calls into outside
  crates (AES-GCM, SHA-256, Shamir, ML-DSA, hex, JSON field reads) go through
  small trusted wrappers whose contracts say what those crates document.
  - messaging: `symmetric`, `shamir`, `message`, `mailbox`, `sign`, `digest`
  - relay: `relay` (line framing, HELLO handshake, anti-spoofing, rate limit)
  - services: `mesh`, `drive`, `proxy`, `brain`, `search`, `compute`,
    `protocol`, `discovery`, `models`, `petals`, `nodeos`
  - inference servers' answers: `vllm`, `ollama`
  - daemon policy: `allocator`, `glow_up`, `cpu`, `gpu`, `bandwidth`,
    `resources`, `socket`, `procfs`, `macos`, `compute_daemon`
  - front ends: `installer`, `tui`, `ipc`
  - helpers: `text`, `numfmt`, `clock`, `error`
- `tests/` — tests run against the compiled library.
- `app/` — the program: command line, sockets, files, terminal drawing, and the
  parts that compute with floating point (ledger, market prices, throughput).
