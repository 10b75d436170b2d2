use bento::output::godot::generate_tres;
use bento::output::json::{sprite_to_json, Frame, JsonSize};
use bento::output::tpsheet::sprite_to_tpsprite;
use bento::sprite::{PackedSprite, TrimInfo};

#[test]
fn test_generate_tres_no_margin() {
    let sprite = PackedSprite {
        name: "test".to_string(),
        x: 10,
        y: 20,
        width: 32,
        height: 32,
        trim_info: TrimInfo::untrimmed(32, 32),
        atlas_index: 0,
    };

    let tres = generate_tres(&sprite, "res://atlas_0.png");

    assert!(tres.contains("region = Rect2(10, 20, 32, 32)"));
    assert!(!tres.contains("margin"));
    assert!(tres.contains("filter_clip = true"));
}

#[test]
fn test_generate_tres_with_margin() {
    let sprite = PackedSprite {
        name: "test".to_string(),
        x: 10,
        y: 20,
        width: 28,
        height: 28,
        trim_info: TrimInfo {
            offset_x: 2,
            offset_y: 2,
            source_width: 32,
            source_height: 32,
            trimmed_width: 28,
            trimmed_height: 28,
        },
        atlas_index: 0,
    };

    let tres = generate_tres(&sprite, "res://atlas_0.png");

    assert!(tres.contains("region = Rect2(10, 20, 28, 28)"));
    assert!(tres.contains("margin = Rect2(2, 2, 2, 2)"));
}

#[test]
fn test_sprite_to_tpsprite_untrimmed() {
    let sprite = PackedSprite {
        name: "sprite1.png".to_string(),
        x: 10,
        y: 20,
        width: 32,
        height: 32,
        trim_info: TrimInfo::untrimmed(32, 32),
        atlas_index: 0,
    };

    let tp = sprite_to_tpsprite(&sprite);

    assert_eq!(tp.filename, "sprite1.png");
    assert_eq!(tp.region.x, 10);
    assert_eq!(tp.region.y, 20);
    assert_eq!(tp.region.w, 32);
    assert_eq!(tp.region.h, 32);
    assert_eq!(tp.margin.x, 0);
    assert_eq!(tp.margin.y, 0);
    assert_eq!(tp.margin.w, 0);
    assert_eq!(tp.margin.h, 0);
}

#[test]
fn test_sprite_to_tpsprite_trimmed() {
    let sprite = PackedSprite {
        name: "folder/sprite2.png".to_string(),
        x: 34,
        y: 0,
        width: 28,
        height: 30,
        trim_info: TrimInfo {
            offset_x: 2,
            offset_y: 1,
            source_width: 32,
            source_height: 32,
            trimmed_width: 28,
            trimmed_height: 30,
        },
        atlas_index: 0,
    };

    let tp = sprite_to_tpsprite(&sprite);

    assert_eq!(tp.filename, "folder/sprite2.png");
    assert_eq!(tp.region.x, 34);
    assert_eq!(tp.region.y, 0);
    assert_eq!(tp.region.w, 28);
    assert_eq!(tp.region.h, 30);
    assert_eq!(tp.margin.x, 2);
    assert_eq!(tp.margin.y, 1);
    assert_eq!(tp.margin.w, 4); // 32 - 28
    assert_eq!(tp.margin.h, 2); // 32 - 30
}

#[test]
fn tres_text_without_margin_is_exact() {
    let sprite = PackedSprite {
        name: "test".to_string(),
        x: 0,
        y: 4096,
        width: 7,
        height: 100,
        trim_info: TrimInfo::untrimmed(7, 100),
        atlas_index: 3,
    };
    let tres = generate_tres(&sprite, "res://atlas_3.png");
    let expected = "[gd_resource type=\"AtlasTexture\" load_steps=2 format=3]\n\n[ext_resource type=\"Texture2D\" path=\"res://atlas_3.png\" id=\"1\"]\n\n[resource]\natlas = ExtResource(\"1\")\nregion = Rect2(0, 4096, 7, 100)\nfilter_clip = true\n";
    assert_eq!(tres, expected);
}

#[test]
fn tres_text_with_negative_margin_is_exact() {
    let sprite = PackedSprite {
        name: "test".to_string(),
        x: 1,
        y: 2,
        width: 10,
        height: 10,
        trim_info: TrimInfo {
            offset_x: -3,
            offset_y: 0,
            source_width: 10,
            source_height: 12,
            trimmed_width: 10,
            trimmed_height: 10,
        },
        atlas_index: 0,
    };
    let tres = generate_tres(&sprite, "a.png");
    let expected = "[gd_resource type=\"AtlasTexture\" load_steps=2 format=3]\n\n[ext_resource type=\"Texture2D\" path=\"a.png\" id=\"1\"]\n\n[resource]\natlas = ExtResource(\"1\")\nregion = Rect2(1, 2, 10, 10)\nmargin = Rect2(-3, 0, 3, 2)\nfilter_clip = true\n";
    assert_eq!(tres, expected);
}

#[test]
fn tres_text_prints_the_largest_numbers() {
    let sprite = PackedSprite {
        name: "test".to_string(),
        x: u32::MAX,
        y: 10,
        width: 1000000,
        height: 99,
        trim_info: TrimInfo {
            offset_x: i32::MAX,
            offset_y: -i32::MAX,
            source_width: 0,
            source_height: 0,
            trimmed_width: 1,
            trimmed_height: 0,
        },
        atlas_index: 0,
    };
    assert!(sprite.trim_info.margins_fit());
    let tres = generate_tres(&sprite, "");
    assert!(tres.contains("path=\"\" id"));
    assert!(tres.contains("region = Rect2(4294967295, 10, 1000000, 99)\n"));
    assert!(tres.contains("margin = Rect2(2147483647, -2147483647, -2147483648, 2147483647)\n"));
}

#[test]
fn json_sprite_of_a_trimmed_sprite() {
    let sprite = PackedSprite {
        name: "folder/sprite2.png".to_string(),
        x: 34,
        y: 5,
        width: 28,
        height: 30,
        trim_info: TrimInfo {
            offset_x: 2,
            offset_y: 1,
            source_width: 32,
            source_height: 33,
            trimmed_width: 28,
            trimmed_height: 30,
        },
        atlas_index: 1,
    };
    let js = sprite_to_json(&sprite);
    assert_eq!(js.name, "folder/sprite2.png");
    assert_eq!(js.frame, Frame { x: 34, y: 5, w: 28, h: 30 });
    assert!(js.trimmed);
    assert_eq!(js.sprite_source_size, Frame { x: 2, y: 1, w: 28, h: 30 });
    assert_eq!(js.source_size, JsonSize { w: 32, h: 33 });
}

#[test]
fn json_sprite_of_an_untrimmed_sprite() {
    let sprite = PackedSprite {
        name: "a".to_string(),
        x: 0,
        y: 0,
        width: 8,
        height: 9,
        trim_info: TrimInfo::untrimmed(8, 9),
        atlas_index: 0,
    };
    let js = sprite_to_json(&sprite);
    assert!(!js.trimmed);
    assert_eq!(js.frame, Frame { x: 0, y: 0, w: 8, h: 9 });
    assert_eq!(js.sprite_source_size, Frame { x: 0, y: 0, w: 8, h: 9 });
    assert_eq!(js.source_size, JsonSize { w: 8, h: 9 });
}
