//! Verified core of a content-addressed upload pipeline: a variable-length
//! integer codec, a tag-list codec, a recursive deep hash, binary data-item
//! envelope assembly, ed25519 signing, upload response handling, a two-phase
//! metadata upload orchestrator, and a base58 address decoder, together with
//! the battle arithmetic and inline-SVG metadata builders of the game that
//! uses them.

pub mod base58;
pub mod data_item;
pub mod decimal;
pub mod deep_hash;
pub mod game;
pub mod metadata;
pub mod orchestrator;
pub mod signer;
pub mod svg;
pub mod tags;
mod text;
pub mod upload;
pub mod varint;
