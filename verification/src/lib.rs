//! Construction and parsing of ancillary control-message buffers.
//!
//! Datagram system calls carry out-of-band per-packet metadata (segmentation
//! sizes, congestion marks, addressing) in a flat byte buffer attached to a
//! native message header.  That buffer holds a chain of variable-length
//! entries, each a fixed-size header (length, level, type) followed by a
//! payload and alignment padding, navigable only through the platform's
//! "first entry" and "next entry" lookups.
//!
//! This crate models that buffer as plain bytes and proves the code that
//! builds and walks it: an [`encode::Encoder`] that appends typed entries and
//! commits the total length exactly once, and a [`decode::Iter`] that walks a
//! populated chain, truncating it defensively where a platform defect hands
//! back a malformed continuation entry.  The raw-pointer layer that moves
//! these bytes in and out of the operating system's own header structures
//! lives outside the verified core and only converts.

pub mod layout;
pub mod hdr;
pub mod sys;
pub mod encode;
pub mod decode;
pub mod runtime;
