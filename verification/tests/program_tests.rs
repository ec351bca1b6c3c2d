use radiant_rs::program::{is_self_contained, shader_kind, shader_source, str_contains, ShaderKind};

#[test]
fn contains_finds_substrings() {
    assert!(str_contains("hello world", "lo w"));
    assert!(str_contains("hello", "hello"));
    assert!(str_contains("hello", ""));
    assert!(str_contains("", ""));
    assert!(!str_contains("hello", "hello!"));
    assert!(!str_contains("hello", "ol"));
    assert!(str_contains("aaab", "aab"));
    assert!(str_contains("grüße", "üß"));
}

#[test]
fn shader_kind_from_fragment_input() {
    assert_eq!(shader_kind("@fragment fn main(input: SpriteFragmentInput) {}"), ShaderKind::Sprite);
    assert_eq!(shader_kind("@fragment fn main(input: TextureFragmentInput) {}"), ShaderKind::Texture);
}

#[test]
fn self_contained_shaders_keep_their_source() {
    let own = "@group(0) @binding(0) var<uniform> u: U;\n@fragment fn main(input: SpriteFragmentInput) {}";
    assert!(is_self_contained(own));
    assert_eq!(shader_source(own, "SPRITE", "TEXTURE"), own);
}

#[test]
fn preamble_is_chosen_by_kind() {
    let sprite = "@fragment fn main(input: SpriteFragmentInput) {}";
    let texture = "@group(0) @binding(3) var extra: texture_2d<f32>;\n@fragment fn main(input: TextureFragmentInput) {}";
    assert!(!is_self_contained(texture));
    assert_eq!(shader_source(sprite, "SPRITE", "TEXTURE"), format!("SPRITE\n{}", sprite));
    assert_eq!(shader_source(texture, "SPRITE", "TEXTURE"), format!("TEXTURE\n{}", texture));
}
