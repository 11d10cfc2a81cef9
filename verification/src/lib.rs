//! Host-side adapter for virtio-fs DAX window requests.
//!
//! A file-system service asks the host to map a byte range of a backing file
//! into the guest's shared memory window, or to remove earlier mappings. This
//! crate turns those intents into the fixed-capacity messages of the
//! vhost-user side channel: one message for a mapping, and for a list of
//! removals the shortest ordered sequence of messages that carries them.
//! Sending a message is left to a transport that the caller supplies; the
//! crate decides what is sent, in which order, and when to stop.

pub mod failure;
pub mod handler;
pub mod map;
pub mod message;
pub mod recording;
pub mod unmap;
