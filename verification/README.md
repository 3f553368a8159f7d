# http_server

A small key-value networking toy built around a verified core.

- `src/` is the verified library:
  - `frames`: the frame format (an operation and a body of `i32`s, a 16-bit
    header, the body in the host's byte order), with `to_bytes`,
    `from_bytes`, `try_from_bytes`, `parse_body`, and the laws of reading back
    what was written.
  - `wire`: byte layouts of integers, the host byte order (`to_be`/`from_be`),
    and the `bytes` crate calls that append to and read from buffers.
  - `mailbox`: the handles on std's channels and on the shared task queue.
    Each sending half records every message handed to its `send` with the
    send's outcome, the queue handle every task it appended, and the two
    halves of a channel carry the worker's number as their id; only the
    trusted calls of this module extend the records.
  - `thread_pool`: the pool (one sending half per worker, a queue handle),
    broadcasting in index order, and the decision table of a worker's loop.
  - `store`: the string key-value table of the database task, its step
    function `serve`, and the laws of a stream of requests.
- `app/` holds the programs: the database and thread-pool demo, the TCP client
  and server, and a `BytesMut` demo; it starts tasks, does the I/O and runs the
  loops whose decisions `src/` makes.
- `tests/` exercises the library on concrete values.
