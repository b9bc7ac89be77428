use vt_utils::schema::{MaterialOverride, MaterialSchema, VTMetaSchema, VariantEntry, VariantSchema};
use vt_utils::variants::{get_variant_path_from_meta, get_variants_names_from_meta};

fn material(color: &str) -> MaterialSchema {
    MaterialSchema {
        color: color.to_string(),
        company_tint: 0,
        emission: 0,
        glassiness: 0,
        smoothness: 0,
        specular: 0,
    }
}

fn material_full(
    color: &str,
    company_tint: u8,
    emission: u8,
    glassiness: u8,
    smoothness: u8,
    specular: u8,
) -> MaterialSchema {
    MaterialSchema {
        color: color.to_string(),
        company_tint,
        emission,
        glassiness,
        smoothness,
        specular,
    }
}

fn over(index: u8, material: MaterialSchema) -> MaterialOverride {
    MaterialOverride { index, material }
}

fn entry(name: &str, materials: Vec<MaterialOverride>, variants: Vec<VariantEntry>) -> VariantEntry {
    VariantEntry {
        name: name.to_string(),
        variant: VariantSchema { materials, variants },
    }
}

fn base_materials() -> Vec<MaterialSchema> {
    vec![
        material("404040"),
        material("9f1200"),
        material("ffffff"),
        material("404040"),
        material("32a6a6"),
        material_full("272727", 0, 0, 255, 0, 255),
        material("c6c6c6"),
        material("f4dda4"),
        material("404040"),
        material("ffffff"),
        material("ffffff"),
        material("f4dda4"),
        material("1ca14a"),
        material("404040"),
        material("c7171e"),
        material("858585"),
    ]
}

fn meta_with_variants() -> VTMetaSchema {
    let deep = entry(
        "deep",
        vec![over(12, material("a18b1c")), over(15, material("ce7837"))],
        vec![],
    );
    let ipsum = entry("ipsum", vec![over(11, material("f0a4f4"))], vec![deep]);
    let lorem = entry("lorem", vec![over(7, material("505050"))], vec![ipsum]);
    let bar = entry("bar", vec![over(15, material("bb4040"))], vec![lorem]);
    let foo = entry("foo", vec![over(12, material("a11c1c"))], vec![bar]);
    let night = entry(
        "night",
        vec![
            over(1, material_full("9f1200", 0, 255, 0, 191, 0)),
            over(5, material_full("d9ac4c", 0, 255, 255, 160, 255)),
        ],
        vec![],
    );
    VTMetaSchema {
        materials: base_materials(),
        variants: vec![foo, night],
    }
}

fn meta_without_variants() -> VTMetaSchema {
    VTMetaSchema {
        materials: vec![material_full("424242", 21, 37, 69, 66, 13)],
        variants: vec![],
    }
}

#[test]
fn test_get_variants_names() {
    let meta = meta_with_variants();
    let mut variants = get_variants_names_from_meta(&meta).expect("Should get variants");
    variants.sort();

    let mut expected_variants = vec![
        "foo".to_string(),
        "bar".to_string(),
        "night".to_string(),
        "lorem".to_string(),
        "ipsum".to_string(),
        "deep".to_string(),
    ];
    expected_variants.sort();
    assert_eq!(variants, expected_variants);

    let meta_without = meta_without_variants();
    assert!(get_variants_names_from_meta(&meta_without).is_none());
}

#[test]
fn test_get_variant_path_from_meta_deep_lvl() {
    let meta = meta_with_variants();
    let expected_variants = vec![
        "foo".to_string(),
        "bar".to_string(),
        "lorem".to_string(),
        "ipsum".to_string(),
        "deep".to_string(),
    ];

    let variants =
        get_variant_path_from_meta(&meta, &"deep".to_string()).expect("Should get variants");

    assert_eq!(variants, expected_variants);
}

#[test]
fn test_get_variant_path_from_meta_first_lvl() {
    let meta = meta_with_variants();
    let expected_variants = vec!["night".to_string()];

    let variants =
        get_variant_path_from_meta(&meta, &"night".to_string()).expect("Should get variants");

    assert_eq!(variants, expected_variants);
}

#[test]
fn test_names_are_in_preorder() {
    let meta = meta_with_variants();
    let variants = get_variants_names_from_meta(&meta).expect("Should get variants");
    assert_eq!(
        variants,
        vec![
            "foo".to_string(),
            "bar".to_string(),
            "lorem".to_string(),
            "ipsum".to_string(),
            "deep".to_string(),
            "night".to_string(),
        ]
    );
}

#[test]
fn test_missing_variant_has_no_path() {
    let meta = meta_with_variants();
    assert!(get_variant_path_from_meta(&meta, &"nonesuch".to_string()).is_none());
}
