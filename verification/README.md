# uac2

Verified logic for a USB Audio Class 2.0 output, written in Verus.

- `src/error.rs`: the error type, its user messages and its classification.
- `src/error_recovery.rs`: choosing a recovery strategy, reconnection attempts with an
  exponential backoff, and the decisions that a retry loop follows.
- `src/fallback_handler.rs`: falling back to other audio outputs.
- `src/format.rs`, `src/format_negotiation.rs`: audio formats and negotiating one that a
  device supports.
- `src/transfer_buffer.rs`: transfer buffers, the pool that hands them out and the manager
  of buffers in flight.
- `src/transfer_manager.rs`: when a stream's transfers fail too often.
- `src/text.rs`: decimal rendering for messages.

`app/` holds what cannot be verified: the error type with its `thiserror` derives and the
conversions from `rusb`, and the loops that sleep for the backoffs that the library asks for.
