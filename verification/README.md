# optics

A node of a small cloud data-transfer system: a raft-replicated key/value
store of object references, an S3 gateway and a file transfer service.

- `src/` is the verified library (Verus):
  - `decimal`: decimal text of `u64`, rendering and parsing.
  - `text`: character-level string helpers.
  - `object_ref`: store keys and `path|time|addr` values of object references.
  - `cli`: command-line settings, their validation, defaults and start plan.
  - `storage`: S3 settings and buckets, upload assembly, chunking, reference entries.
  - `file_transfer`: the file transfer service's directory and chunking.
  - `raft_node`: members, the replicated state machine, write routing, raft settings.
  - `membership`: ids for joining nodes and the join steps.
  - `network`: gRPC endpoint addresses and raft connections.
- `app/` is the program around it: gRPC services, raft storage and network
  plumbing, S3 and file I/O, and `main`.
- `tests/` exercises the library on concrete values.
