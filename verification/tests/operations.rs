use vt_utils::export::{process_operations, ExportError, ProcessArgs};
use vt_utils::get_colors_from_meta::MaterialProperty;

fn flags(
    color: bool,
    company_tint: bool,
    emission: bool,
    glassiness: bool,
    smoothness: bool,
    specular: bool,
    all: bool,
) -> ProcessArgs {
    ProcessArgs { color, company_tint, emission, glassiness, smoothness, specular, all }
}

fn all_six() -> Vec<MaterialProperty> {
    vec![
        MaterialProperty::Color,
        MaterialProperty::CompanyTint,
        MaterialProperty::Emission,
        MaterialProperty::Glassiness,
        MaterialProperty::Smoothness,
        MaterialProperty::Specular,
    ]
}

#[test]
fn test_no_flags_is_an_error() {
    let r = process_operations(&flags(false, false, false, false, false, false, false));
    assert!(matches!(r, Err(ExportError::NoOperations)));
}

#[test]
fn test_all_flag_plans_every_property() {
    let ops = process_operations(&flags(false, false, false, false, false, false, true))
        .expect("all flag should plan operations");
    assert_eq!(ops, all_six());
}

#[test]
fn test_all_flag_absorbs_other_flags() {
    let ops = process_operations(&flags(true, false, true, false, false, true, true))
        .expect("all flag should plan operations");
    assert_eq!(ops, all_six());
}

#[test]
fn test_single_flags_plan_single_operations() {
    let ops = process_operations(&flags(true, false, false, false, false, false, false))
        .expect("color flag should plan an operation");
    assert_eq!(ops, vec![MaterialProperty::Color]);

    let ops = process_operations(&flags(false, false, true, false, false, true, false))
        .expect("two flags should plan two operations");
    assert_eq!(
        ops,
        vec![MaterialProperty::Emission, MaterialProperty::Specular]
    );
}
