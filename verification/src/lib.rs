//! Client-side synchronization engine for a group-chat session.
//!
//! The crate models the wire protocol the chat client speaks with its
//! server (typed envelopes carried as JSON-shaped text), the reducer that
//! folds decoded envelopes and local intents into session state (roster,
//! message log, display mode, outbound sends), an in-process broadcast
//! bus that decouples transport ownership from state consumers, and the
//! small content rules the presentation layer needs (image-reference
//! bodies, avatar lookup with a placeholder fallback).
//!
//! Wire text is handled throughout as UTF-8 bytes (`Vec<u8>` / `Seq<u8>`).

pub mod bus;
pub mod codec;
pub mod engine;
pub mod render;
pub mod json;
pub mod protocol;
pub mod text;
