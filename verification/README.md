# lore-pg

Storage for a content-addressed version control server, on Postgres and an S3-compatible
object store:

- an **immutable store** of fragments, whose payloads are objects and whose index is two
  tables;
- a **mutable store** of typed keys with compare-and-swap;
- a **lock store** of advisory locks.

## Layout

- `src/` is a Verus library. It decides what each store asks of Postgres and of the object
  store, and what it makes of the answers. An operation is a sequence of steps: a step names
  the call to make, and takes the answer to the next step. Functions have contracts that Verus
  proves, except the few in `src/outside.rs` that stand for functions of other crates and of
  the standard library: what is said of those is taken for granted.
- Beside the operations stands what the SQL statements mean for the tables, and laws that hold
  of whole operations: that a stored payload is read back, that a request for locks is all or
  nothing and cannot deadlock, that of overlapping swaps which expect one value just one is
  made, that an obliterated fragment is gone, and what an obliteration leaves behind when calls
  to storage fail. A swap reports the expected value if and only if it was made, with one
  exception: where no value is expected and the zero hash is stored, the zero hash is reported
  and nothing is swapped.
- `tests/` runs the operations against tables and objects in memory.
- `app/` makes the calls: connection pools, transactions, the S3 client, and the plugins that
  read their settings from TOML.

## Settings

The plugins read one table, each of them its own part of it.

| key | store | default |
| --- | --- | --- |
| `dsn` | all | |
| `s3_bucket` | immutable | |
| `s3_endpoint_url` | immutable | that of the SDK |
| `s3_region` | immutable | `auto` |
| `s3_force_path_style` | immutable | `true` |
| `fragments_table` | immutable | `fragments` |
| `metadata_table` | immutable | `fragments_meta` |
| `force_write` | immutable | `false` |
| `mutable_table` | mutable | `mutable_store` |
| `locks_table` | lock | `locks` |

The environment variable `LORE_PG_POOL_MAX_SIZE` limits the connections of each store; the
default is 5.
