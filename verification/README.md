# raftify

A high-level Raft framework on top of raft-rs, whose logic is verified with
Verus.

- `src/` is the verified library:
  - `keys`, `key_string`: the decimal, zero-padded keys of log entries, with
    the proof that their byte order is the order of the indexes.
  - `types`: the plain values of Raft entries, hard and configuration
    states, snapshots and membership changes.
  - `raft_store`: raft-rs's in-memory storage and its size limit, given
    contracts over a model of their contents (trusted).
  - `mem_storage`: the in-memory log storage, with the laws that relate its
    operations (a read gives back what was appended, compaction moves the
    first index, a snapshot resets the log).
  - `log_store`: the rules by which a persistent log storage answers and
    changes (first index, term, appends, snapshots, size limit).
  - `peers`, `membership`: the known members, how committed membership
    changes are decoded from their entries, and how they update the members.
  - `node`: the decisions of a Raft node: which request waits for which
    commit, the event loop's next step, the start of a cluster, and the
    order in which what Raft makes ready is handled.
  - `replies`, `messages`, `codec`, `deserializer`, `error`, `log_entry`.
- `app/` is ordinary Rust around the library: the LMDB storage (heed), the
  raft-rs `Storage` adapters, the node's asynchronous event loop, the
  configuration (which holds floating-point durations), and serde forms of
  the library's types.
- `tests/` runs the library on concrete values.
