//! Verified logic of a USB Audio Class 2.0 output: errors and how to recover from them,
//! falling back to other outputs, negotiating a stream format, and the pool of transfer
//! buffers.
pub mod error;
pub mod error_recovery;
pub mod fallback_handler;
pub mod format;
pub mod format_negotiation;
pub mod text;
pub mod transfer_buffer;
pub mod transfer_manager;
