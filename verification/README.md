# mononoke

Three pieces of a source control server, with their behaviour proved by
[Verus](https://github.com/verus-lang/verus):

- a layer over a blobstore that serializes access to virtual slices of it, indexed by
  key, caches what it reads and writes, and leaves out writes of blobs that are already
  present (`src/sharded/`);
- the admin command that creates a commit from a description of it
  (`src/create_bonsai.rs`, `src/bonsai.rs`);
- the admin command that copies what is missing from one directory to another in a
  commit, within limits (`src/rsync.rs`, `src/rsync_options.rs`, `src/listing.rs`).

`src/` decides and computes. What waits, reads or writes is done by `app/`: it performs
the actions that the library's state machines ask for and hands back what came of them.

The laws of the library as a whole are public proof functions beside what they speak of.
Those on whole reads and writes stand in `src/sharded/runs.rs`. That access to a slice
is serialized, whatever the cache does, stands in `src/sharded/serialization.rs`, and
that a cache which keeps what it was given spares reads and writes in
`src/sharded/concurrency.rs`.

What is trusted, without proof, of the crates `bytes`, `regex` and `tokio` and of the
standard library stands in `src/sharded/bytes_model.rs`, `src/exclude.rs`,
`src/sharded/shards.rs` and `src/path.rs`.
