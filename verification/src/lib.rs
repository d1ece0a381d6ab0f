//! Host-side building blocks of the WASI preview 3 runtime: the canonical
//! ABI encodings of the async component model, stream/future buffers and
//! transmit state, task tables, HTTP body and header bookkeeping, and the
//! socket state machines.

pub mod abi;
pub mod abort;
pub mod body;
pub mod error_contexts;
pub mod event_loop;
pub mod cli;
pub mod buffers;
pub mod calls;
pub mod fields;
pub mod filesystem;
pub mod guest_task;
pub mod handles;
pub mod ip_name_lookup;
pub mod request;
pub mod sockets;
pub mod tasks;
pub mod transmit;
pub mod waitables;
pub mod waking;
pub mod with_children;
