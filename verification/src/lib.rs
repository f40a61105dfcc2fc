//! Protocol core of a data node that stores and serves key-to-hash mappings.
//!
//! Cache servers ask the node for the hash of a key and hand it new pairs. This
//! library is the protocol between them: the messages ([`message`]), their
//! binary encoding ([`wire`]), the frames that carry them over a byte stream
//! ([`frame`]), the adapter to the store ([`storage`]) and what a connection
//! does with each event ([`connection`]). It does no reading or writing of
//! sockets: a program around it performs the actions that [`connection::step`]
//! returns.
//!
//! Three things are taken on trust, each behind a private function with a
//! contract that is believed and not proved: the byte stuffing of frames
//! (`postcard` and `cobs`), the check that bytes are UTF-8 (`String::from_utf8`),
//! and the store itself (`sled`). Everything else is proved against those
//! contracts.

pub mod connection;
pub mod fault;
pub mod frame;
pub mod message;
pub mod storage;
pub mod wire;
