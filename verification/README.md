# civium

A verified core for the Civium protocol: self-certifying identities (CIDs), networks
with invitations, join requests and admission, encrypted group messaging, CRDT
documents, governance (proposals, votes replaced on a second ballot, revocable vote
delegation, the majority safeguard on admin actions),
inter-network connections with countersigned share agreements, directories and
registries of malicious networks, plugins and their permission gate, and the
decisions of the peer-to-peer node.

Layout:

- `src/` — the library, written in Verus. Each public function states in its
  contract what it returns or changes; the laws of the protocol (a restored key gives
  the same identity, a short CID is a prefix of the full one, a sealed message opens
  to its plain text, document merge is idempotent and commutative, a mailbox merge is
  a union of identifiers, admission keeps display names distinct, …) are public proof
  functions or clauses of the functions they concern. Calls into cryptographic and
  encoding crates (blake3, bs58, chacha20poly1305, ed25519 through libp2p, sha2,
  curve25519-dalek, rand, uuid) go through small trusted wrappers whose contracts
  say what those crates document.
- `tests/` — tests run against the compiled library with the real crates linked.
- `app/` — the `civium` command-line client: argument handling (clap), the JSON-file
  store (serde), and the libp2p node that carries requests to the library and its
  answers back.
