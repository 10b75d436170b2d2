use bento::bitmap::{Bitmap, Color};
use bento::sprite::trimmer::{content_box, trim_sprite, trim_sprite_with_margin};
use bento::sprite::TrimInfo;

#[test]
fn test_godot_margin() {
    let info = TrimInfo {
        offset_x: 2,
        offset_y: 3,
        source_width: 10,
        source_height: 10,
        trimmed_width: 4,
        trimmed_height: 4,
    };

    let (left, top, right, bottom) = info.godot_margin();
    assert_eq!(left, 2);
    assert_eq!(top, 3);
    assert_eq!(right, 4); // 10 - 4 - 2 = 4
    assert_eq!(bottom, 3); // 10 - 4 - 3 = 3
}

#[test]
fn untrimmed_sprite_has_no_margins() {
    let info = TrimInfo::untrimmed(32, 16);
    assert_eq!(info.offset_x, 0);
    assert_eq!(info.offset_y, 0);
    assert_eq!(info.source_width, 32);
    assert_eq!(info.source_height, 16);
    assert_eq!(info.trimmed_width, 32);
    assert_eq!(info.trimmed_height, 16);
    assert!(!info.was_trimmed());
    assert!(info.margins_fit());
    assert_eq!(info.godot_margin(), (0, 0, 0, 0));
}

#[test]
fn was_trimmed_looks_at_both_sides() {
    let mut info = TrimInfo::untrimmed(10, 10);
    info.trimmed_width = 9;
    assert!(info.was_trimmed());
    let mut info = TrimInfo::untrimmed(10, 10);
    info.trimmed_height = 1;
    assert!(info.was_trimmed());
}

#[test]
fn margins_that_leave_the_i32_range_do_not_fit() {
    let info = TrimInfo {
        offset_x: i32::MIN,
        offset_y: 0,
        source_width: u32::MAX,
        source_height: 1,
        trimmed_width: 0,
        trimmed_height: 1,
    };
    assert!(!info.margins_fit());
    let info = TrimInfo {
        offset_x: 0,
        offset_y: 5,
        source_width: 8,
        source_height: 4,
        trimmed_width: 8,
        trimmed_height: 4,
    };
    assert!(info.margins_fit());
    assert_eq!(info.godot_margin(), (0, 5, 0, -5));
}

#[test]
fn test_trim_fully_opaque() {
    let mut img = Bitmap::new(10, 10).unwrap();
    for y in 0..10 {
        for x in 0..10 {
            img.put_pixel(x, y, Color { r: 255, g: 0, b: 0, a: 255 });
        }
    }

    let (trimmed, info) = trim_sprite(&img);

    assert_eq!(trimmed.width(), 10);
    assert_eq!(trimmed.height(), 10);
    assert_eq!(info.offset_x, 0);
    assert_eq!(info.offset_y, 0);
    assert!(!info.was_trimmed());
}

#[test]
fn test_trim_with_transparent_border() {
    let mut img = Bitmap::new(10, 10).unwrap();
    // Fill center 4x4 with opaque pixels
    for y in 3..7 {
        for x in 2..6 {
            img.put_pixel(x, y, Color { r: 255, g: 0, b: 0, a: 255 });
        }
    }

    let (trimmed, info) = trim_sprite(&img);

    assert_eq!(trimmed.width(), 4);
    assert_eq!(trimmed.height(), 4);
    assert_eq!(info.offset_x, 2);
    assert_eq!(info.offset_y, 3);
    assert_eq!(info.source_width, 10);
    assert_eq!(info.source_height, 10);
    assert!(info.was_trimmed());
}

#[test]
fn test_trim_fully_transparent() {
    let img = Bitmap::new(10, 10).unwrap();

    let (trimmed, info) = trim_sprite(&img);

    assert_eq!(trimmed.width(), 1);
    assert_eq!(trimmed.height(), 1);
    assert_eq!(info.source_width, 10);
    assert_eq!(info.source_height, 10);
}

#[test]
fn trim_keeps_the_pixels_of_the_content_box() {
    let mut img = Bitmap::new(5, 4).unwrap();
    let red = Color { r: 200, g: 0, b: 0, a: 1 };
    let blue = Color { r: 0, g: 0, b: 200, a: 255 };
    // colour without alpha does not count as content
    img.put_pixel(0, 0, Color { r: 9, g: 9, b: 9, a: 0 });
    img.put_pixel(3, 1, red);
    img.put_pixel(1, 2, blue);
    assert_eq!(content_box(&img), Some((1, 1, 3, 2)));
    let (trimmed, info) = trim_sprite(&img);
    assert_eq!((trimmed.width(), trimmed.height()), (3, 2));
    assert_eq!(
        info,
        TrimInfo {
            offset_x: 1,
            offset_y: 1,
            source_width: 5,
            source_height: 4,
            trimmed_width: 3,
            trimmed_height: 2,
        }
    );
    let clear = Color { r: 0, g: 0, b: 0, a: 0 };
    assert_eq!(trimmed.get_pixel(0, 0), Some(clear));
    assert_eq!(trimmed.get_pixel(2, 0), Some(red));
    assert_eq!(trimmed.get_pixel(0, 1), Some(blue));
    assert_eq!(trimmed.get_pixel(1, 1), Some(clear));
    assert_eq!(info.godot_margin(), (1, 1, 1, 1));
}

#[test]
fn trim_of_an_image_without_content_gives_one_transparent_pixel() {
    for (w, h) in [(0u32, 0u32), (0, 3), (4, 0), (2, 2)] {
        let img = Bitmap::new(w, h).unwrap();
        assert_eq!(content_box(&img), None);
        let (trimmed, info) = trim_sprite(&img);
        assert_eq!((trimmed.width(), trimmed.height()), (1, 1));
        assert_eq!(trimmed.get_pixel(0, 0), Some(Color { r: 0, g: 0, b: 0, a: 0 }));
        assert_eq!(
            info,
            TrimInfo {
                offset_x: 0,
                offset_y: 0,
                source_width: w,
                source_height: h,
                trimmed_width: 1,
                trimmed_height: 1,
            }
        );
    }
}

#[test]
fn trim_margin_keeps_a_border_inside_the_image() {
    let mut img = Bitmap::new(10, 8).unwrap();
    let c = Color { r: 1, g: 2, b: 3, a: 4 };
    img.put_pixel(1, 3, c);
    img.put_pixel(6, 4, c);
    let (trimmed, info) = trim_sprite_with_margin(&img, 2);
    // box (1,3)-(6,4) grows to (0,1)-(8,6)
    assert_eq!((info.offset_x, info.offset_y), (0, 1));
    assert_eq!((trimmed.width(), trimmed.height()), (9, 6));
    assert_eq!((info.trimmed_width, info.trimmed_height), (9, 6));
    assert_eq!(trimmed.get_pixel(1, 2), Some(c));
    assert_eq!(trimmed.get_pixel(6, 3), Some(c));
    let (all, info) = trim_sprite_with_margin(&img, 100);
    assert_eq!((all.width(), all.height()), (10, 8));
    assert_eq!((info.offset_x, info.offset_y), (0, 0));
    assert!(!info.was_trimmed());
    assert_eq!(all.to_rgba(), img.to_rgba());
    let (same, info) = trim_sprite_with_margin(&img, 0);
    assert_eq!((same.width(), same.height()), (6, 2));
    assert_eq!((info.offset_x, info.offset_y), (1, 3));
}

#[test]
fn crop_takes_a_part_of_the_bitmap() {
    let data: Vec<u8> = (0u8..48).collect();
    let img = Bitmap::from_rgba(4, 3, &data).unwrap();
    let part = img.crop(1, 1, 2, 2).unwrap();
    assert_eq!(part.to_rgba(), vec![20, 21, 22, 23, 24, 25, 26, 27, 36, 37, 38, 39, 40, 41, 42, 43]);
    assert!(img.crop(3, 0, 2, 1).is_none());
    assert!(img.crop(0, 2, 1, 2).is_none());
    assert_eq!(img.crop(4, 3, 0, 0).unwrap().to_rgba(), Vec::<u8>::new());
}
