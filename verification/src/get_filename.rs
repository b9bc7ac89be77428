//! Fixed per-property output filenames.

use vstd::prelude::*;

use crate::get_colors_from_meta::MaterialProperty;

verus! {

/// The fixed filename under which a property's image is written when no
/// stem is derived from the input path.
pub open spec fn spec_filename_for_property(property: MaterialProperty) -> Seq<char> {
    match property {
        MaterialProperty::Color => "palette_color.png"@,
        MaterialProperty::CompanyTint => "palette_company_tint.png"@,
        MaterialProperty::Specular => "palette_specular.png"@,
        MaterialProperty::Smoothness => "palette_smoothness.png"@,
        MaterialProperty::Glassiness => "palette_glassiness.png"@,
        MaterialProperty::Emission => "palette_emission.png"@,
    }
}

/// The fixed filename under which a property's image is written.
pub fn get_filename_for_material_property(property: &MaterialProperty) -> (r: String)
    ensures
        r@ == spec_filename_for_property(*property),
{
    match property {
        MaterialProperty::Color => "palette_color.png".to_owned(),
        MaterialProperty::CompanyTint => "palette_company_tint.png".to_owned(),
        MaterialProperty::Specular => "palette_specular.png".to_owned(),
        MaterialProperty::Smoothness => "palette_smoothness.png".to_owned(),
        MaterialProperty::Glassiness => "palette_glassiness.png".to_owned(),
        MaterialProperty::Emission => "palette_emission.png".to_owned(),
    }
}

} // verus!
