use vt_utils::palette::{get_palette_from_meta, GetPaletteError};
use vt_utils::schema::{MaterialOverride, MaterialSchema, VTMetaSchema, VariantEntry, VariantSchema};
use vt_utils::variants::get_variant_from_meta;

fn material(color: &str) -> MaterialSchema {
    MaterialSchema {
        color: color.to_string(),
        company_tint: 0,
        emission: 0,
        glassiness: 0,
        smoothness: 0,
        specular: 0,
    }
}

fn material_full(
    color: &str,
    company_tint: u8,
    emission: u8,
    glassiness: u8,
    smoothness: u8,
    specular: u8,
) -> MaterialSchema {
    MaterialSchema {
        color: color.to_string(),
        company_tint,
        emission,
        glassiness,
        smoothness,
        specular,
    }
}

fn over(index: u8, material: MaterialSchema) -> MaterialOverride {
    MaterialOverride { index, material }
}

fn entry(name: &str, materials: Vec<MaterialOverride>, variants: Vec<VariantEntry>) -> VariantEntry {
    VariantEntry {
        name: name.to_string(),
        variant: VariantSchema { materials, variants },
    }
}

/// The two-slot document with sibling overrides `Foo` and `Bar`.
fn two_slot_meta() -> VTMetaSchema {
    VTMetaSchema {
        materials: vec![
            material_full("424242", 21, 37, 69, 66, 13),
            material("ffa500"),
        ],
        variants: vec![
            entry(
                "Foo",
                vec![over(1, material_full("ff0000", 21, 37, 69, 66, 13))],
                vec![],
            ),
            entry(
                "Bar",
                vec![over(1, material_full("00ff00", 21, 37, 69, 66, 13))],
                vec![],
            ),
        ],
    }
}

/// The sixteen-slot document with the nested `foo -> ... -> deep` chain
/// and the first-level `night` variant.
fn nested_meta() -> VTMetaSchema {
    let deep = entry(
        "deep",
        vec![over(12, material("a18b1c")), over(15, material("ce7837"))],
        vec![],
    );
    let ipsum = entry("ipsum", vec![over(11, material("f0a4f4"))], vec![deep]);
    let lorem = entry("lorem", vec![over(7, material("505050"))], vec![ipsum]);
    let bar = entry("bar", vec![over(15, material("bb4040"))], vec![lorem]);
    let foo = entry("foo", vec![over(12, material("a11c1c"))], vec![bar]);
    let night = entry(
        "night",
        vec![
            over(1, material_full("9f1200", 0, 255, 0, 191, 0)),
            over(5, material_full("d9ac4c", 0, 255, 255, 160, 255)),
        ],
        vec![],
    );
    VTMetaSchema {
        materials: vec![
            material("404040"),
            material("9f1200"),
            material("ffffff"),
            material("404040"),
            material("32a6a6"),
            material_full("272727", 0, 0, 255, 0, 255),
            material("c6c6c6"),
            material("f4dda4"),
            material("404040"),
            material("ffffff"),
            material("ffffff"),
            material("f4dda4"),
            material("1ca14a"),
            material("404040"),
            material("c7171e"),
            material("858585"),
        ],
        variants: vec![foo, night],
    }
}

#[test]
fn test_get_variants_from_meta() {
    let meta = two_slot_meta();

    let search_variant = "Foo".to_string();
    let variant = get_variant_from_meta(&meta, &search_variant).expect("Should get variant");

    let found = variant
        .materials
        .iter()
        .find(|o| o.index == 1)
        .expect("Should get material");
    assert_eq!(found.material.color, "ff0000".to_string())
}

#[test]
fn test_get_palette_from_meta() {
    let meta = two_slot_meta();
    let search_variant = "Foo".to_string();

    let palette =
        get_palette_from_meta(&meta, &Some(search_variant)).expect("Should get palette");

    assert_eq!(palette[0].color, "424242");

    assert_eq!(palette[1].color, "ff0000");
    assert_ne!(palette[1].color, "ffa500");
}

#[test]
fn test_base_palette_without_variant() {
    let meta = two_slot_meta();
    let palette = get_palette_from_meta(&meta, &None).expect("Should get palette");
    assert_eq!(palette.len(), 2);
    assert_eq!(palette[0].color, "424242");
    assert_eq!(palette[1].color, "ffa500");
}

#[test]
fn test_empty_variant_name_means_no_variant() {
    let meta = two_slot_meta();
    let palette =
        get_palette_from_meta(&meta, &Some(String::new())).expect("Should get palette");
    assert_eq!(palette[1].color, "ffa500");
}

#[test]
fn test_base_resolution_is_idempotent() {
    let meta = two_slot_meta();
    let first = get_palette_from_meta(&meta, &None).expect("Should get palette");
    let second = get_palette_from_meta(&meta, &None).expect("Should get palette");
    assert_eq!(first.len(), second.len());
    for (a, b) in first.iter().zip(second.iter()) {
        assert_eq!(a.color, b.color);
        assert_eq!(a.emission, b.emission);
    }
}

#[test]
fn test_nested_variant_composes_whole_chain() {
    let meta = nested_meta();
    let palette =
        get_palette_from_meta(&meta, &Some("deep".to_string())).expect("Should get palette");

    assert_eq!(palette.len(), 16);
    // the deepest override wins along the chain
    assert_eq!(palette[12].color, "a18b1c");
    assert_eq!(palette[15].color, "ce7837");
    // ancestors along the chain contribute too
    assert_eq!(palette[7].color, "505050");
    assert_eq!(palette[11].color, "f0a4f4");
    // slots that no chain entry overrides keep the base material
    assert_eq!(palette[0].color, "404040");
    assert_eq!(palette[1].color, "9f1200");
    assert_eq!(palette[5].color, "272727");
}

#[test]
fn test_first_level_variant_composes_alone() {
    let meta = nested_meta();
    let palette =
        get_palette_from_meta(&meta, &Some("night".to_string())).expect("Should get palette");

    assert_eq!(palette[1].emission, 255);
    assert_eq!(palette[1].smoothness, 191);
    assert_eq!(palette[5].color, "d9ac4c");
    // sibling branches never contribute
    assert_eq!(palette[12].color, "1ca14a");
    assert_eq!(palette[15].color, "858585");
}

#[test]
fn test_missing_variant_reports_available_names() {
    let meta = nested_meta();
    let err = get_palette_from_meta(&meta, &Some("nonesuch".to_string()))
        .expect_err("missing variant must fail");
    match err {
        GetPaletteError::VariantNotExist(name, mut available) => {
            assert_eq!(name, "nonesuch");
            available.sort();
            let mut expected = vec![
                "foo".to_string(),
                "bar".to_string(),
                "lorem".to_string(),
                "ipsum".to_string(),
                "deep".to_string(),
                "night".to_string(),
            ];
            expected.sort();
            assert_eq!(available, expected);
        }
        other => panic!("unexpected error {:?}", other),
    }
}

#[test]
fn test_missing_variant_on_empty_forest() {
    let meta = VTMetaSchema {
        materials: vec![material("404040")],
        variants: vec![],
    };
    let err = get_palette_from_meta(&meta, &Some("any".to_string()))
        .expect_err("missing variant must fail");
    match err {
        GetPaletteError::VariantNotExist(name, available) => {
            assert_eq!(name, "any");
            assert!(available.is_empty());
        }
        other => panic!("unexpected error {:?}", other),
    }
}

#[test]
fn test_out_of_range_override_fails_resolution() {
    let meta = VTMetaSchema {
        materials: vec![material("404040"), material("ffffff")],
        variants: vec![entry("broken", vec![over(5, material("ff0000"))], vec![])],
    };
    let err = get_palette_from_meta(&meta, &Some("broken".to_string()))
        .expect_err("out-of-range override must fail");
    assert!(matches!(
        err,
        GetPaletteError::OverrideIndexOutOfRange(5, 2)
    ));
}

#[test]
fn test_out_of_range_override_on_chain_fails_even_for_clean_target() {
    // the chain passes through a node whose override is out of range
    let child = entry("leaf", vec![over(0, material("00ff00"))], vec![]);
    let parent = entry("parent", vec![over(9, material("ff0000"))], vec![child]);
    let meta = VTMetaSchema {
        materials: vec![material("404040"), material("ffffff")],
        variants: vec![parent],
    };
    let err = get_palette_from_meta(&meta, &Some("leaf".to_string()))
        .expect_err("chain with out-of-range override must fail");
    assert!(matches!(
        err,
        GetPaletteError::OverrideIndexOutOfRange(9, 2)
    ));
}

#[test]
fn test_empty_override_node_is_a_noop_along_the_path() {
    let child = entry("inner", vec![over(0, material("00ff00"))], vec![]);
    let wrapper = entry("wrapper", vec![], vec![child]);
    let meta = VTMetaSchema {
        materials: vec![material("404040"), material("ffffff")],
        variants: vec![wrapper],
    };

    // the wrapper alone changes nothing
    let palette =
        get_palette_from_meta(&meta, &Some("wrapper".to_string())).expect("Should get palette");
    assert_eq!(palette[0].color, "404040");
    assert_eq!(palette[1].color, "ffffff");

    // a path through the wrapper applies only the inner overrides
    let palette =
        get_palette_from_meta(&meta, &Some("inner".to_string())).expect("Should get palette");
    assert_eq!(palette[0].color, "00ff00");
    assert_eq!(palette[1].color, "ffffff");
}
