//! The in-memory material metadata document.
//!
//! A document holds a base palette (an ordered sequence of materials) and a
//! forest of named variants.  Each variant contributes a sparse set of
//! palette overrides, keyed by palette index, and may nest further named
//! variants.  Sibling variants are kept in a fixed order, so every
//! traversal of the forest is deterministic.

use vstd::prelude::*;

verus! {

/// One palette slot: a six-hex-digit sRGB color string (optionally
/// `#`-prefixed) and five scalar channels in `[0, 255]`.
#[derive(Debug)]
pub struct MaterialSchema {
    pub color: String,
    pub company_tint: u8,
    pub emission: u8,
    pub glassiness: u8,
    pub smoothness: u8,
    pub specular: u8,
}

impl Clone for MaterialSchema {
    /// Cloning a material preserves its value exactly.
    fn clone(&self) -> (res: Self)
        ensures
            res == *self,
    {
        MaterialSchema {
            color: self.color.clone(),
            company_tint: self.company_tint,
            emission: self.emission,
            glassiness: self.glassiness,
            smoothness: self.smoothness,
            specular: self.specular,
        }
    }
}

/// A single sparse override: the palette slot `index` is to be replaced by
/// `material`.
#[derive(Debug)]
pub struct MaterialOverride {
    pub index: u8,
    pub material: MaterialSchema,
}

impl Clone for MaterialOverride {
    /// Cloning an override preserves its value exactly.
    fn clone(&self) -> (res: Self)
        ensures
            res == *self,
    {
        MaterialOverride { index: self.index, material: self.material.clone() }
    }
}

/// A variant node: its overrides and the named variants nested beneath it.
#[derive(Debug)]
pub struct VariantSchema {
    pub materials: Vec<MaterialOverride>,
    pub variants: Vec<VariantEntry>,
}

/// One named entry of a variant forest.
#[derive(Debug)]
pub struct VariantEntry {
    pub name: String,
    pub variant: VariantSchema,
}

/// The top-level document: the base palette and the variant forest.
/// An absent forest is represented by an empty one.
#[derive(Debug)]
pub struct VTMetaSchema {
    pub materials: Vec<MaterialSchema>,
    pub variants: Vec<VariantEntry>,
}

/// Failure to decode a metadata document.
#[derive(Debug)]
pub enum VTMetaReadError {
    ParseError,
}

} // verus!
