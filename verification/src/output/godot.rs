use vstd::prelude::*;
use crate::sprite::sprite::PackedSprite;
use crate::text::{append_signed_decimal, decimal, signed_decimal};

verus! {

/// The four numbers of a `Rect2`, separated by commas.
pub open spec fn rect2_args(a: Seq<char>, b: Seq<char>, c: Seq<char>, d: Seq<char>) -> Seq<char> {
    a + ", "@ + b + ", "@ + c + ", "@ + d
}

/// The sprite has a margin on some side.
pub open spec fn has_margin(sprite: PackedSprite) -> bool {
    sprite.trim_info.offset_x != 0 || sprite.trim_info.offset_y != 0
        || sprite.trim_info.margin_right() != 0 || sprite.trim_info.margin_bottom() != 0
}

/// The head of a resource, up to the numbers of its region.
pub open spec fn tres_head(atlas_path: Seq<char>) -> Seq<char> {
    "[gd_resource type=\"AtlasTexture\" load_steps=2 format=3]\n\n[ext_resource type=\"Texture2D\" path=\""@
        + atlas_path
        + "\" id=\"1\"]\n\n[resource]\natlas = ExtResource(\"1\")\nregion = Rect2("@
}

/// The numbers of the region of a sprite in its atlas.
pub open spec fn region_args(sprite: PackedSprite) -> Seq<char> {
    rect2_args(
        decimal(sprite.x as nat),
        decimal(sprite.y as nat),
        decimal(sprite.width as nat),
        decimal(sprite.height as nat),
    )
}

/// The line that gives the margins of a sprite, if it has any.
pub open spec fn margin_line(sprite: PackedSprite) -> Seq<char> {
    if has_margin(sprite) {
        "\nmargin = Rect2("@ + rect2_args(
            signed_decimal(sprite.trim_info.offset_x as int),
            signed_decimal(sprite.trim_info.offset_y as int),
            signed_decimal(sprite.trim_info.margin_right()),
            signed_decimal(sprite.trim_info.margin_bottom()),
        ) + ")"@
    } else {
        Seq::<char>::empty()
    }
}

/// The text of the `AtlasTexture` resource of a sprite: the atlas image it
/// is cut from, its region there, its margins if it has any, and the
/// filter clip flag.
pub open spec fn tres_text(sprite: PackedSprite, atlas_path: Seq<char>) -> Seq<char> {
    tres_head(atlas_path) + region_args(sprite) + ")"@ + margin_line(sprite)
        + "\nfilter_clip = true\n"@
}

fn append_rect2(out: &mut String, a: i64, b: i64, c: i64, d: i64)
    ensures
        final(out)@ == old(out)@ + rect2_args(
            signed_decimal(a as int),
            signed_decimal(b as int),
            signed_decimal(c as int),
            signed_decimal(d as int),
        ),
{
    append_signed_decimal(out, a);
    out.append(", ");
    append_signed_decimal(out, b);
    let ghost half = out@;
    assert(half =~= old(out)@ + (signed_decimal(a as int) + ", "@ + signed_decimal(b as int)));
    out.append(", ");
    append_signed_decimal(out, c);
    out.append(", ");
    append_signed_decimal(out, d);
    assert(out@ =~= half + (", "@ + signed_decimal(c as int) + ", "@ + signed_decimal(d as int)));
    assert(out@ =~= old(out)@ + rect2_args(
        signed_decimal(a as int),
        signed_decimal(b as int),
        signed_decimal(c as int),
        signed_decimal(d as int),
    ));
}

fn append_margin_line(out: &mut String, sprite: &PackedSprite)
    requires
        sprite.trim_info.spec_margins_fit(),
    ensures
        final(out)@ == old(out)@ + margin_line(*sprite),
{
    let (margin_left, margin_top, margin_right, margin_bottom) = sprite.trim_info.godot_margin();

    let has_margin: bool = margin_left != 0 || margin_top != 0 || margin_right != 0
        || margin_bottom != 0;

    if has_margin {
        out.append("\nmargin = Rect2(");
        let ghost opened = out@;
        append_rect2(
            out,
            margin_left as i64,
            margin_top as i64,
            margin_right as i64,
            margin_bottom as i64,
        );
        let ghost filled = out@;
        out.append(")");
        assert(out@ =~= old(out)@ + margin_line(*sprite));
    } else {
        assert(out@ =~= old(out)@ + margin_line(*sprite));
    }
}

/// The text of the Godot `AtlasTexture` resource of a sprite whose
/// margins are `i32` values.
pub fn generate_tres(sprite: &PackedSprite, atlas_path: &str) -> (content: String)
    requires
        sprite.trim_info.spec_margins_fit(),
    ensures
        content@ == tres_text(*sprite, atlas_path@),
{
    let mut content = String::from_str(
        "[gd_resource type=\"AtlasTexture\" load_steps=2 format=3]\n\n[ext_resource type=\"Texture2D\" path=\"",
    );
    content.append(atlas_path);
    content.append("\" id=\"1\"]\n\n[resource]\natlas = ExtResource(\"1\")\nregion = Rect2(");
    assert(content@ =~= tres_head(atlas_path@));
    append_rect2(
        &mut content,
        sprite.x as i64,
        sprite.y as i64,
        sprite.width as i64,
        sprite.height as i64,
    );
    assert(content@ == tres_head(atlas_path@) + region_args(*sprite));
    content.append(")");
    append_margin_line(&mut content, sprite);
    content.append("\nfilter_clip = true\n");
    content
}

} // verus!
