use std::path::PathBuf;

use bento::atlas::render::{draw_sprite, extrude_sprite};
use bento::atlas::AtlasBuilder;
use bento::bitmap::{Bitmap, Color};
use bento::sprite::{SourceSprite, TrimInfo};

const A: Color = Color { r: 10, g: 0, b: 0, a: 255 };
const B: Color = Color { r: 0, g: 20, b: 0, a: 255 };
const C: Color = Color { r: 0, g: 0, b: 30, a: 255 };
const D: Color = Color { r: 40, g: 40, b: 40, a: 255 };
const CLEAR: Color = Color { r: 0, g: 0, b: 0, a: 0 };

fn two_by_two() -> Bitmap {
    let mut data: Vec<u8> = Vec::new();
    for c in [A, B, C, D] {
        data.extend_from_slice(&[c.r, c.g, c.b, c.a]);
    }
    Bitmap::from_rgba(2, 2, &data).unwrap()
}

fn rows(b: &Bitmap) -> Vec<Vec<Color>> {
    (0..b.height())
        .map(|y| (0..b.width()).map(|x| b.get_pixel(x, y).unwrap()).collect())
        .collect()
}

#[test]
fn extrusion_replicates_edges_and_diagonal_corners() {
    let mut canvas = Bitmap::new(6, 6).unwrap();
    extrude_sprite(&mut canvas, &two_by_two(), 2, 2, 2);
    let e = CLEAR;
    assert_eq!(
        rows(&canvas),
        vec![
            vec![A, e, A, B, e, B],
            vec![e, A, A, B, B, e],
            vec![A, A, e, e, B, B],
            vec![C, C, e, e, D, D],
            vec![e, C, C, D, D, e],
            vec![C, e, C, D, e, D],
        ]
    );
}

#[test]
fn drawing_puts_the_sprite_over_its_rim() {
    let mut canvas = Bitmap::new(4, 4).unwrap();
    draw_sprite(&mut canvas, &two_by_two(), 1, 1, 1);
    assert_eq!(
        rows(&canvas),
        vec![
            vec![A, A, B, B],
            vec![A, A, B, B],
            vec![C, C, D, D],
            vec![C, C, D, D],
        ]
    );
}

#[test]
fn extrusion_skips_what_falls_outside_the_canvas() {
    let mut canvas = Bitmap::new(3, 3).unwrap();
    extrude_sprite(&mut canvas, &two_by_two(), 0, 0, 3);
    let e = CLEAR;
    assert_eq!(
        rows(&canvas),
        vec![
            vec![e, e, B],
            vec![e, e, D],
            vec![C, D, D],
        ]
    );
}

#[test]
fn extrusion_by_zero_changes_nothing() {
    let mut canvas = Bitmap::new(4, 4).unwrap();
    extrude_sprite(&mut canvas, &two_by_two(), 1, 1, 0);
    assert_eq!(canvas.to_rgba(), vec![0u8; 64]);
    let empty = Bitmap::new(0, 2).unwrap();
    extrude_sprite(&mut canvas, &empty, 1, 1, 2);
    assert_eq!(canvas.to_rgba(), vec![0u8; 64]);
}

#[test]
fn transparent_and_opaque_pixels_are_laid_over_exactly() {
    let mut canvas = Bitmap::new(2, 1).unwrap();
    assert!(canvas.put_pixel(0, 0, A));
    assert!(canvas.put_pixel(1, 0, A));
    let top = Bitmap::from_rgba(2, 1, &vec![9, 9, 9, 0, 7, 8, 9, 255]).unwrap();
    draw_sprite(&mut canvas, &top, 0, 0, 0);
    assert_eq!(canvas.get_pixel(0, 0), Some(A));
    assert_eq!(canvas.get_pixel(1, 0), Some(Color { r: 7, g: 8, b: 9, a: 255 }));
}

#[test]
fn atlas_image_shows_the_sprites_at_their_places() {
    let first = SourceSprite {
        path: PathBuf::from("first.png"),
        name: "first".to_string(),
        image: two_by_two(),
        trim_info: TrimInfo::untrimmed(2, 2),
    };
    let second = SourceSprite {
        path: PathBuf::from("second.png"),
        name: "second".to_string(),
        image: Bitmap::from_rgba(1, 1, &vec![1, 2, 3, 255]).unwrap(),
        trim_info: TrimInfo::untrimmed(1, 1),
    };
    let atlases = AtlasBuilder::new(16, 16)
        .padding(1)
        .extrude(1)
        .build(vec![first, second])
        .unwrap();
    assert_eq!(atlases.len(), 1);
    let atlas = &atlases[0];
    // 2x2 sprite reserves 6x6 at the origin, the 1x1 sprite 5x5 beside it
    assert_eq!((atlas.sprites[0].x, atlas.sprites[0].y), (2, 2));
    assert_eq!((atlas.sprites[1].x, atlas.sprites[1].y), (8, 2));
    assert_eq!((atlas.width, atlas.height), (11, 6));
    let e = CLEAR;
    let s = Color { r: 1, g: 2, b: 3, a: 255 };
    assert_eq!(
        rows(&atlas.image),
        vec![
            vec![e, e, e, e, e, e, e, e, e, e, e],
            vec![e, A, A, B, B, e, e, s, s, s, e],
            vec![e, A, A, B, B, e, e, s, s, s, e],
            vec![e, C, C, D, D, e, e, s, s, s, e],
            vec![e, C, C, D, D, e, e, e, e, e, e],
            vec![e, e, e, e, e, e, e, e, e, e, e],
        ]
    );
}

#[test]
fn drawing_leaves_out_what_falls_outside_the_canvas() {
    let mut canvas = Bitmap::new(2, 2).unwrap();
    draw_sprite(&mut canvas, &two_by_two(), 1, 1, 0);
    let e = CLEAR;
    assert_eq!(rows(&canvas), vec![vec![e, e], vec![e, A]]);
    draw_sprite(&mut canvas, &two_by_two(), 5, 0, 0);
    draw_sprite(&mut canvas, &two_by_two(), 2, 2, 0);
    assert_eq!(rows(&canvas), vec![vec![e, e], vec![e, A]]);
    draw_sprite(&mut canvas, &two_by_two(), 2, 0, 1);
    assert_eq!(rows(&canvas), vec![vec![e, A], vec![e, C]]);
}
