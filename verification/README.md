# decentralized_access_control

A peer-to-peer file service in which each shared resource carries an access
list of peer identities, kept in a replicated document. A peer that asks for a
file of a resource gets it only when its identity is on the resource's list.

`src/` is the verified core (Verus):

- `status` — the one-byte answers of the file protocol and their codes.
- `endpoint` — peer identities (ed25519 public keys) and how they are read.
- `access_list` — the member set of a resource and the append operation.
- `protocol` — requests, the length-prefixed framing of requests on a stream,
  and the access decision for an incoming request.
- `store` — storage tags, the byte order in which a directory's files are
  taken, and the upload plan (Merkle root over the files' leaves, one tag per
  file, the leaves blob).
- `discovery` — signed node announcements and the table of neighbors heard on
  the gossip topic, with expiry.

`app/` runs the networking around it: the iroh endpoint, blob store and
documents, the gossip loops, the HTTP download front, and the JSON forms of
the library's values.
