//! A structured-data editing engine for game content definitions.
//!
//! Records (items, auras and similar assets) are flat-or-nested structures
//! with named fields of a closed set of leaf kinds.  The library derives the
//! list of dotted leaf-field paths from a record's declared schema, reads and
//! writes single leaf fields through such paths via a textual value codec,
//! and keeps a dual-indexed registry of shared record handles.

pub mod access;
pub mod asset;
pub mod aura;
pub mod codec;
pub mod decimal;
pub mod equipment;
pub mod item;
pub mod registry;
pub mod schema;
pub mod text;
