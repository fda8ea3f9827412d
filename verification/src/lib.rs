//! Building blocks of a binary RPC server: an atomically swappable value
//! slot and the lock-free stack built from it, the wire-frame codec for a
//! fixed 12-byte header, the metadata envelope codec, and the request
//! dispatcher with the per-connection decision functions.

use vstd::prelude::*;

pub mod conn;
pub mod dispatch;
pub mod frame;
pub mod meta;
pub mod stack;
pub mod slot;

pub use conn::handle_body;
pub use dispatch::Dispatcher;
pub use dispatch::HandlerError;
pub use dispatch::Service;
pub use frame::FrameHeader;
pub use frame::ProtocolError;
pub use meta::Meta;
pub use meta::RequestMeta;
pub use meta::ResponseMeta;
pub use slot::AtomicBox;
pub use slot::BoxState;
pub use stack::AtomicList;

verus! {

/// Fixed protocol constant at the head of every frame.
pub const MAGIC_NUMBER: u32 = 1347571779;

} // verus!
