use mlsim_common::atlas::{Image, StaticAtlasData, StaticFont};
use mlsim_common::graphics::FontKey;

fn atlas() -> StaticAtlasData {
    StaticAtlasData {
        file: &[],
        size: 64,
        replacement_image: Image::new(0, 0, 1, 1, 0, 0),
        white: Image::new(1, 0, 1, 1, 0, 0),
        images: vec![("a", Image::new(2, 3, 4, 5, -1, 2)), ("b", Image::new(8, 8, 2, 2, 0, 0)), ("a", Image::new(9, 9, 1, 1, 0, 0))],
        fonts: vec![
            (FontKey::new("f", 12, false, false), StaticFont(vec![Image::zero()])),
            (FontKey::new("f", 12, true, false), StaticFont(vec![Image::new(1, 1, 1, 1, 0, 0)])),
            (FontKey::new("g", 12, true, false), StaticFont(vec![])),
        ],
    }
}

#[test]
fn image_size_origin_and_corners() {
    let img = Image::new(2, 3, 4, 5, -1, 2);
    assert_eq!(img.size(), (4, 5));
    assert_eq!(img.origin(), (-1, 2));
    assert_eq!(img.uv_coords(), [(2, 3), (6, 3), (6, 8), (2, 8)]);
    assert_eq!(Image::zero().size(), (0, 0));
}

#[test]
fn atlas_get_image_finds_first_or_replacement() {
    let a = atlas();
    assert_eq!(a.get_image("a").uv_coords()[0], (2, 3));
    assert_eq!(a.get_image("b").size(), (2, 2));
    assert_eq!(a.get_image("missing").uv_coords()[0], (0, 0));
    assert_eq!(a.get_image("missing").size(), (1, 1));
}

#[test]
fn atlas_get_font_matches_style_or_first() {
    let a = atlas();
    assert_eq!(a.get_font(20, true, false).0.name, "f");
    assert!(a.get_font(20, true, false).0.bold);
    assert!(!a.get_font(20, false, true).0.bold);
    assert_eq!(a.get_font(20, false, true).0.size, 12);
}

#[test]
fn font_char_image_falls_back_to_first() {
    let font = StaticFont(vec![Image::new(0, 0, 1, 1, 0, 0), Image::new(5, 5, 2, 3, 0, 0)]);
    assert_eq!(font.get_char_image('\u{1}').size(), (2, 3));
    assert_eq!(font.get_char_image('A').size(), (1, 1));
}
