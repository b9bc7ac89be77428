use vt_utils::get_colors_from_meta::{
    get_colors_from_meta, get_colors_from_palette, value_to_rgb, MaterialProperty,
};
use vt_utils::save_image::{render_palette_pixels, SaveImageError};
use vt_utils::schema::{MaterialSchema, VTMetaSchema};

fn material(color: &str) -> MaterialSchema {
    MaterialSchema {
        color: color.to_string(),
        company_tint: 0,
        emission: 0,
        glassiness: 0,
        smoothness: 0,
        specular: 0,
    }
}

fn emissive(color: &str, emission: u8) -> MaterialSchema {
    MaterialSchema {
        color: color.to_string(),
        company_tint: 0,
        emission,
        glassiness: 0,
        smoothness: 0,
        specular: 0,
    }
}

fn sixteen_colors() -> Vec<MaterialSchema> {
    vec![
        material("404040"),
        material("9f1200"),
        material("ffffff"),
        material("404040"),
        material("32a6a6"),
        material("272727"),
        material("c6c6c6"),
        material("f4dda4"),
        material("404040"),
        material("ffffff"),
        material("ffffff"),
        material("f4dda4"),
        material("1ca14a"),
        material("404040"),
        material("c7171e"),
        material("858585"),
    ]
}

#[test]
fn test_value_to_rgb_broadcasts() {
    assert_eq!(value_to_rgb(37), [37, 37, 37]);
    assert_eq!(value_to_rgb(0), [0, 0, 0]);
    assert_eq!(value_to_rgb(255), [255, 255, 255]);
}

#[test]
fn test_color_channel_parses_hex() {
    let palette = sixteen_colors();
    let colors = get_colors_from_palette(&palette, &MaterialProperty::Color);
    assert_eq!(colors.len(), 16);
    assert_eq!(colors[0], [64, 64, 64]);
    assert_eq!(colors[1], [159, 18, 0]);
    assert_eq!(colors[2], [255, 255, 255]);
    assert_eq!(colors[12], [28, 161, 74]);
}

#[test]
fn test_color_channel_falls_back_to_black() {
    let palette = vec![
        material("not-a-color"),
        material("12345"),
        material("404040"),
    ];
    let colors = get_colors_from_palette(&palette, &MaterialProperty::Color);
    assert_eq!(colors, vec![[0, 0, 0], [0, 0, 0], [64, 64, 64]]);
}

#[test]
fn test_emission_channel_broadcasts_scalar() {
    let palette: Vec<MaterialSchema> = (0..16).map(|_| emissive("404040", 37)).collect();
    let colors = get_colors_from_palette(&palette, &MaterialProperty::Emission);
    assert_eq!(colors.len(), 16);
    for c in colors {
        assert_eq!(c, [37, 37, 37]);
    }
}

#[test]
fn test_get_colors_from_meta_uses_base_palette() {
    let meta = VTMetaSchema {
        materials: sixteen_colors(),
        variants: vec![],
    };
    let colors = get_colors_from_meta(meta, MaterialProperty::Color);
    assert_eq!(colors.len(), 16);
    assert_eq!(colors[1], [159, 18, 0]);
}

#[test]
fn test_render_sixteen_colors_makes_a_64x64_image() {
    let palette = sixteen_colors();
    let colors = get_colors_from_palette(&palette, &MaterialProperty::Color);
    let pixels = render_palette_pixels(&colors).expect("16 colors are accepted");
    assert_eq!(pixels.len(), 3 * 64 * 64);

    // the image is vertically flipped: the first palette tile sits at the
    // bottom-left corner of the finished image
    let bottom_left = 3 * (63 * 64 + 0);
    assert_eq!(
        &pixels[bottom_left..bottom_left + 3],
        &[64, 64, 64][..]
    );
    let bottom_second_tile = 3 * (63 * 64 + 16);
    assert_eq!(
        &pixels[bottom_second_tile..bottom_second_tile + 3],
        &[159, 18, 0][..]
    );
    // the top-left corner holds the first tile of the last tile row
    assert_eq!(&pixels[0..3], &[28, 161, 74][..]);
}

#[test]
fn test_render_sixty_four_colors_makes_a_128x128_image() {
    let colors: Vec<[u8; 3]> = (0..64).map(|i| [i as u8, 0, 255]).collect();
    let pixels = render_palette_pixels(&colors).expect("64 colors are accepted");
    assert_eq!(pixels.len(), 3 * 128 * 128);
    // bottom-left corner holds color 0
    let bottom_left = 3 * (127 * 128);
    assert_eq!(&pixels[bottom_left..bottom_left + 3], &[0, 0, 255][..]);
    // top-left corner holds the first color of the last tile row
    assert_eq!(&pixels[0..3], &[56, 0, 255][..]);
}

#[test]
fn test_render_rejects_other_lengths() {
    let colors: Vec<[u8; 3]> = (0..17).map(|_| [0, 0, 0]).collect();
    assert!(matches!(
        render_palette_pixels(&colors),
        Err(SaveImageError::InvalidInputLength(17))
    ));
    let empty: Vec<[u8; 3]> = vec![];
    assert!(matches!(
        render_palette_pixels(&empty),
        Err(SaveImageError::InvalidInputLength(0))
    ));
}

#[test]
fn test_render_is_deterministic() {
    let palette = sixteen_colors();
    let colors = get_colors_from_palette(&palette, &MaterialProperty::Color);
    let first = render_palette_pixels(&colors).expect("16 colors are accepted");
    let second = render_palette_pixels(&colors).expect("16 colors are accepted");
    assert_eq!(first, second);
}
