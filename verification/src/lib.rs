//! Palette-texture toolkit for game-mod material metadata.
//!
//! A metadata document carries a base palette of materials together with a
//! forest of named variants, each contributing sparse overrides onto the
//! palette and possibly nesting further variants.  This crate resolves a
//! requested variant into an effective palette, projects the palette onto
//! RGB triples for a chosen material property, plans which properties to
//! render, and lays the triples out as the pixel bytes of a square tile
//! image.  Reading the document, decoding JSON and writing PNG files are
//! left to the surrounding application.

pub mod export;
pub mod get_colors_from_meta;
pub mod get_filename;
pub mod hex_to_rgb;
pub mod palette;
pub mod save_image;
pub mod schema;
pub mod variants;
