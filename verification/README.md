# mandrake

The logic of the Mandrake hypervisor's illumos drivers and CLI, written in
Verus and proved against its contracts: the parsers for the output of
`zfs`, `zpool`, `beadm`, `dladm`, `ipadm`, `route` and `zonecfg`; the command
lines the drivers run; in-memory fakes of ZFS, networking and zones with
their invariants; the bhyve brand mapping between a VM and its zone; the
image index, its signatures, the SHA-256 tally of streamed payloads, the
import steps and a runner over an in-memory store; and, for the `mandrakectl` client, the request each
command sends (method, path, query and JSON body), the checks on its
flags, and the key/value lines and table rows it prints.

## Layout

| Path | What it holds |
|---|---|
| `src/common/` | Shared types: ids, timestamps, roles, API shapes, shell runs |
| `src/zfs/` | Pools, datasets, snapshots, boot environments, and their fake |
| `src/net/` | Links, interfaces, addresses and routes, and their fake |
| `src/zones/` | `zonecfg` export and create scripts, zone states, the fake |
| `src/bhyve/` | The VM to zone mapping and what reading it back gives |
| `src/images/` | The image index, signing, transport and import |
| `src/ctl/` | The client: reply checks, flags, request building, JSON bodies, shown lines and rows |
| `src/text.rs` | Text operations and their specifications |
| `tests/` | Tests run against the compiled library |
| `app/` | `mandrake-image-index`: key generation, index building, signing and checking on files; `http.rs` fetches documents and streams payloads over HTTP; `ctl_io.rs` sends the client's requests over HTTPS, follows pages and prints its lines and tables |

Calls into outside crates (`uuid`, `time`, `base64`, `ed25519-dalek`,
`rand`, `sha2`) go through small trusted wrappers whose contracts say what
those crates' sources show; everything else is verified.
