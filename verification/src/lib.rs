//! Management of SSH-capable keys held in a GnuPG keystore.
//!
//! The keystore is only ever observed through the machine-readable text
//! protocols of the GnuPG tools. This crate holds the core of that work:
//! the colon-record reader, the key-catalog builder, the enabled-keygrip
//! parser, the keygrip set reconciler and the hex fingerprint matcher.
//! Process invocation and the interactive selection UI live outside the
//! library and hand it plain text.

pub mod agent;
pub mod arguments;
pub mod catalog;
pub mod copy_id;
pub mod create;
pub mod lookup;
pub mod reconcile;
pub mod records;
pub mod render;
pub mod selection;
pub mod strutil;
