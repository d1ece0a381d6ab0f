# wasip3

Host-side logic of the WASI preview 3 runtime, written in Verus and proved
against its contracts.

- `src/` is the verified library. Each module states its operations over
  mathematical models (`Seq`, `Set`, `Map`, `Multiset`) and proves them:
  - `abi`: status, event and callback-code encodings of the async ABI, and
    the bounds check and little-endian write of event payloads;
  - `guest_task`: what a callback code asks of the runtime, subtask
    cancellation, context slots and backpressure;
  - `calls`, `event_loop`: where the parameters and results of a
    guest-to-guest call go, how a queued call starts and finishes, which
    queued work runs next and where a suspended fiber is parked;
  - `waitables`: waitables, waitable sets, ready lists and waiting tasks;
  - `transmit`, `handles`, `buffers`, `abort`: stream and future ends,
    their handles, the buffers that move items, and cancellation;
  - `error_contexts`: reference counting of error contexts;
  - `tasks`, `with_children`: task tables and parent/child resources;
  - `fields`, `request`, `body`: HTTP header fields, request and response
    heads, and `Content-Length` bookkeeping and body plans;
  - `sockets`, `ip_name_lookup`, `filesystem`, `cli`: socket state machines,
    name resolution, file offsets and permissions, exit statuses.
- `tests/` runs the library on concrete values.
- `app/` holds what touches the operating system or the async runtime:
  cancellation handles, name lookups, UDP sockets, file reads and writes,
  and the exit error type.

Calls into `http`, `url` and the standard library that the logic needs are
made through small trusted wrappers whose contracts are stated next to them.
