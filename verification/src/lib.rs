//! Verified core of SnapPea, a screenshot and screen-recording tool:
//! selection geometry, annotation history, key bindings, encoder
//! selection, crop alignment and the other decisions the tool makes.
pub mod geometry;
pub mod annotations;
pub mod crop;
pub mod encoder;
pub mod keys;
pub mod config;
pub mod selection;
pub mod shortcuts;
pub mod text;
pub mod cli;
pub mod recording;
pub mod dmabuf;
pub mod ui;
pub mod portal;
pub mod image;
pub mod media;
pub mod ocr;
pub mod paths;
pub mod capture;
pub mod record_target;
