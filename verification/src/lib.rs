//! Overlay archive store, streaming XML fragment extractor, reference
//! resolver and generic entity-scan pipeline for a strategy-game data
//! installation: zip archives are merged freshest-wins into one logical
//! file set, entity fragments are pulled out of container documents,
//! their cross-references are rewritten to canonical overlay paths, and
//! each record is handed to a renderer with a stable identifier.
pub mod art;
pub mod creature;
pub mod entity;
pub mod extract;
pub mod hero;
pub mod pak;
pub mod spell;
pub mod strutil;
