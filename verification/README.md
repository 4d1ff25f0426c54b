# tfgrid_sdk_rust

Types, rules and decisions for deploying workloads on the ThreeFold grid,
written in Verus and proved against their contracts.

## Layout

- `src/` — the verified library.
  - `json.rs`, `text.rs`, `codec.rs`, `env_vars.rs`, `error.rs`: JSON values
    and their compact text, text helpers, hex/MD5/random bytes, environment
    maps, the error type.
  - `zos.rs`, `workloads.rs`: node-side workloads and deployments, and the
    user-facing workload types with their validation and conversions.
  - `subi.rs`, `node.rs`: the chain and node interfaces, with in-memory
    implementations.
  - `state.rs`: what the SDK knows about deployments and networks, and
    reading workloads back from the grid.
  - `machines.rs`: reading VMs, kubernetes nodes and clusters, and whole
    deployments back from their workloads.
  - `loading.rs`: loading VMs, kubernetes clusters and whole deployments
    from the grid in two steps: what must be fetched from elsewhere, then
    the result built with what was fetched.
  - `deployer.rs`, `matching.rs`: the contract and deployment life cycle,
    and ordering workloads read back from the grid.
  - `live/`: the live client's requests and their builders, endpoint
    configuration, node selection, the deployments it sends and the
    challenge they are signed over, relay envelopes, JWT and payload
    cryptography, and the decisions taken while a deployment settles.
- `app/` — what the library leaves to ordinary Rust: the async grid client
  (HTTP, TFChain extrinsics, the relay web socket, signing), fetching the
  flist checksums and normalizing the public addresses of machines being
  read back, cost calculation in floating point, and the serde forms of the
  library's types.
- `tests/` — tests of the library.
