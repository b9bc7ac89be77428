//! Projecting a palette onto RGB triples for one material property.
//!
//! The `Color` property parses each material's hex color string, falling
//! back to black when the string does not parse as six hex digits; every
//! other property broadcasts its scalar byte to all three channels.

use vstd::prelude::*;

use crate::hex_to_rgb::{hex_to_rgb, parses_as_rgb, rgb_value};
use crate::palette::VTPalette;
use crate::save_image::Colors;
use crate::schema::{MaterialSchema, VTMetaSchema};

verus! {

/// The six per-material scalars that can be rendered as a channel.
#[derive(Hash, PartialEq, Eq, Structural, Clone, Copy, Debug)]
pub enum MaterialProperty {
    Color,
    CompanyTint,
    Emission,
    Glassiness,
    Smoothness,
    Specular,
}

impl MaterialProperty {
    /// The lower-cased, dash-separated name of the property.
    pub open spec fn spec_name(self) -> Seq<char> {
        match self {
            MaterialProperty::Color => "color"@,
            MaterialProperty::CompanyTint => "company-tint"@,
            MaterialProperty::Emission => "emission"@,
            MaterialProperty::Glassiness => "glassiness"@,
            MaterialProperty::Smoothness => "smoothness"@,
            MaterialProperty::Specular => "specular"@,
        }
    }

    /// The lower-cased, dash-separated name of the property, as used in
    /// output filenames and log lines.
    pub fn name(&self) -> (r: String)
        ensures
            r@ == self.spec_name(),
    {
        match self {
            MaterialProperty::Color => "color".to_owned(),
            MaterialProperty::CompanyTint => "company-tint".to_owned(),
            MaterialProperty::Emission => "emission".to_owned(),
            MaterialProperty::Glassiness => "glassiness".to_owned(),
            MaterialProperty::Smoothness => "smoothness".to_owned(),
            MaterialProperty::Specular => "specular".to_owned(),
        }
    }
}

/// The scalar byte of `m` selected by `property`, for the broadcast
/// properties.
pub open spec fn scalar_of(m: MaterialSchema, property: MaterialProperty) -> u8
    recommends
        property != MaterialProperty::Color,
{
    match property {
        MaterialProperty::Color => 0,
        MaterialProperty::CompanyTint => m.company_tint,
        MaterialProperty::Emission => m.emission,
        MaterialProperty::Glassiness => m.glassiness,
        MaterialProperty::Smoothness => m.smoothness,
        MaterialProperty::Specular => m.specular,
    }
}

/// The RGB triple that `property` selects from material `m`: the parsed
/// color string (black when it does not parse), or the scalar broadcast to
/// all three channels.
pub open spec fn rgb_of(m: MaterialSchema, property: MaterialProperty) -> Seq<u8> {
    if property == MaterialProperty::Color {
        if parses_as_rgb(m.color@) {
            rgb_value(m.color@)
        } else {
            seq![0u8, 0u8, 0u8]
        }
    } else {
        seq![scalar_of(m, property), scalar_of(m, property), scalar_of(m, property)]
    }
}

/// A color string that does not parse as six hex digits projects to
/// black on the `Color` channel.
pub proof fn lemma_color_fallback_black(m: MaterialSchema)
    requires
        !parses_as_rgb(m.color@),
    ensures
        rgb_of(m, MaterialProperty::Color) == seq![0u8, 0u8, 0u8],
{
}

/// Broadcasts one scalar byte to all three channels of an RGB triple.
pub fn value_to_rgb(value: u8) -> (r: [u8; 3])
    ensures
        r@ == seq![value, value, value],
{
    let r = [value, value, value];
    proof {
        assert(r@ =~= seq![value, value, value]);
    }
    r
}

/// Projects a palette onto one RGB triple per slot, in palette order.
pub fn get_colors_from_palette(palette: &VTPalette, property: &MaterialProperty) -> (colors:
    Colors)
    ensures
        colors@.len() == palette@.len(),
        forall|i: int|
            0 <= i < palette@.len() ==> (#[trigger] colors@[i])@ == rgb_of(
                palette@[i],
                *property,
            ),
{
    let mut colors: Colors = Vec::new();
    let mut i: usize = 0;
    while i < palette.len()
        invariant
            i <= palette@.len(),
            colors@.len() == i,
            forall|j: int|
                0 <= j < i ==> (#[trigger] colors@[j])@ == rgb_of(palette@[j], *property),
        decreases palette@.len() - i,
    {
        let material = &palette[i];
        let color: [u8; 3] = match property {
            MaterialProperty::Color => match hex_to_rgb(material.color.as_str()) {
                Ok(rgb) => rgb,
                Err(_) => {
                    let black = [0u8, 0u8, 0u8];
                    proof {
                        assert(black@ =~= seq![0u8, 0u8, 0u8]);
                    }
                    black
                },
            },
            MaterialProperty::CompanyTint => value_to_rgb(material.company_tint),
            MaterialProperty::Emission => value_to_rgb(material.emission),
            MaterialProperty::Glassiness => value_to_rgb(material.glassiness),
            MaterialProperty::Smoothness => value_to_rgb(material.smoothness),
            MaterialProperty::Specular => value_to_rgb(material.specular),
        };
        colors.push(color);
        i = i + 1;
    }
    colors
}

/// Projects the base palette of a document onto one RGB triple per slot.
pub fn get_colors_from_meta(meta: VTMetaSchema, property: MaterialProperty) -> (colors: Colors)
    ensures
        colors@.len() == meta.materials@.len(),
        forall|i: int|
            0 <= i < meta.materials@.len() ==> (#[trigger] colors@[i])@ == rgb_of(
                meta.materials@[i],
                property,
            ),
{
    get_colors_from_palette(&meta.materials, &property)
}

} // verus!
