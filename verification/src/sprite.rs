//! Sprite sheets whose rows depend on the facing direction, and the frame of
//! such a sheet that shows for a given pose.

use vstd::prelude::*;
use crate::clock::{frame_offset, frame_offset_spec, WALK_PERIOD_MS};
use crate::direction::{Direction, DirectionTable};
use crate::geometry::{
    dest_rect, display_zoom, display_zoom_spec, image_for_tile_reference, source_rect, Image, Zoom,
};

verus! {

/// Names a texture that the renderer holds. The engine never looks inside.
#[derive(Clone, Copy, Debug, PartialEq, Eq, Structural)]
pub struct TextureId(pub u32);

/// One step of a frame's drawing: sample `image.src_rect` from `texture` and
/// put it at `image.rect`, all scaled by `zoom`.
#[derive(Clone, Copy, Debug, PartialEq, Eq, Structural)]
pub struct DrawOp {
    pub texture: TextureId,
    pub image: Image,
    pub zoom: Zoom,
}

impl DrawOp {
    /// The operation that draws `image` from `texture` at the display zoom.
    pub open spec fn at_display_zoom_spec(texture: TextureId, image: Image) -> DrawOp {
        DrawOp { texture, image, zoom: display_zoom_spec() }
    }

    /// Makes the operation that draws `image` from `texture` at the display
    /// zoom.
    #[verifier::when_used_as_spec(at_display_zoom_spec)]
    pub fn at_display_zoom(texture: TextureId, image: Image) -> (op: DrawOp)
        ensures
            op == Self::at_display_zoom_spec(texture, image),
    {
        DrawOp { texture, image, zoom: display_zoom() }
    }
}

/// One part of a character: a texture, the frame it starts from and how its
/// frames are laid out and placed.
#[derive(Clone, Copy, Debug, PartialEq, Eq)]
pub struct SpriteFrameSet {
    pub texture: TextureId,
    /// Width of the texture in pixels.
    pub sheet_width: u32,
    /// The frame shown at rest, counted row by row.
    pub index: u32,
    pub frame_size: (u16, u16),
    /// Where the frame sits relative to the cell it is drawn for, in pixels.
    pub draw_offset: (i32, i32),
    pub rows: DirectionTable,
}

/// An animation in progress: the milliseconds it has run and the number of
/// frames in its cycle.
pub type Animation = (u32, u32);

/// The step into the cycle that `anim` has reached; none without animation.
pub open spec fn anim_index(anim: Option<Animation>) -> u32 {
    match anim {
        Some(a) => frame_offset_spec(a.0, WALK_PERIOD_MS, a.1),
        None => 0,
    }
}

impl SpriteFrameSet {
    /// A sheet has room for at least one frame per row.
    pub open spec fn wf(self) -> bool {
        0 < self.frame_size.0 <= self.sheet_width
    }

    /// Frames in one row of the sheet.
    pub open spec fn frames_per_row(self) -> u32 {
        (self.sheet_width as int / self.frame_size.0 as int) as u32
    }

    /// Whether the frame that `anim` selects can still be counted in 32 bits.
    pub open spec fn can_show(self, anim: Option<Animation>) -> bool {
        &&& anim matches Some(a) ==> a.1 > 0
        &&& self.index + anim_index(anim) <= u32::MAX
    }

    /// Whether the values are those of a usable sheet.
    pub fn check(&self) -> (ok: bool)
        ensures
            ok == self.wf(),
    {
        0 < self.frame_size.0 && self.frame_size.0 as u32 <= self.sheet_width
    }
}

/// The image of a part for a character at cell `pos` facing `dir`, or `None`
/// if the sheet has no art for that direction.
pub open spec fn sprite_image(
    texture: SpriteFrameSet,
    pos: (i32, i32),
    view: (i32, i32),
    offset: (i32, i32),
    anim: Option<Animation>,
    dir: Direction,
) -> Option<Image> {
    match texture.rows.row_spec(dir) {
        Some(base) => Some(
            Image {
                src_rect: source_rect(
                    texture.frames_per_row(),
                    texture.frame_size,
                    (texture.index + anim_index(anim)) as u32,
                    base,
                    texture.rows.mirrored_spec(dir),
                ),
                rect: dest_rect(texture.frame_size, pos, texture.draw_offset, offset, view),
            },
        ),
        None => None,
    }
}

/// Resolves the frame of a part for a pose. The row block comes from the
/// direction table, the step within the cycle from `anim`, and the frame is
/// mirrored where the table asks for it.
pub fn image_for_texture(
    texture: &SpriteFrameSet,
    pos: (i32, i32),
    view: (i32, i32),
    offset: (i32, i32),
    anim: Option<Animation>,
    dir: Direction,
) -> (image: Option<Image>)
    requires
        texture.wf(),
        texture.can_show(anim),
    ensures
        image == sprite_image(*texture, pos, view, offset, anim, dir),
        image is Some <==> texture.rows.row_spec(dir) is Some,
{
    let base = match texture.rows.row(dir) {
        Some(base) => base,
        None => {
            return None;
        },
    };
    let num_h_tiles = texture.sheet_width / texture.frame_size.0 as u32;
    assert(num_h_tiles > 0) by (nonlinear_arith)
        requires
            num_h_tiles == texture.sheet_width as int / texture.frame_size.0 as int,
            0 < texture.frame_size.0 <= texture.sheet_width,
    ;
    let flip = texture.rows.mirrored(dir);
    let anim_idx = match anim {
        Some(a) => frame_offset(a.0, WALK_PERIOD_MS, a.1),
        None => 0,
    };
    Some(
        image_for_tile_reference(
            num_h_tiles,
            texture.frame_size,
            texture.index + anim_idx,
            base,
            pos,
            texture.draw_offset,
            offset,
            view,
            flip,
        ),
    )
}

/// A part is drawn for a direction exactly when its table has an entry for it.
pub proof fn lemma_absent_row_suppresses(
    texture: SpriteFrameSet,
    pos: (i32, i32),
    view: (i32, i32),
    offset: (i32, i32),
    anim: Option<Animation>,
    dir: Direction,
)
    ensures
        sprite_image(texture, pos, view, offset, anim, dir) is None <==> texture.rows.row_spec(dir)
            is None,
{
}

/// A part is mirrored only when facing Left, and only on a sheet that uses
/// one row block for Left and Right; a mirrored frame has negative width.
pub proof fn lemma_mirrored_only_facing_left(
    texture: SpriteFrameSet,
    pos: (i32, i32),
    view: (i32, i32),
    offset: (i32, i32),
    anim: Option<Animation>,
    dir: Direction,
)
    requires
        texture.frame_size.0 > 0,
    ensures
        sprite_image(texture, pos, view, offset, anim, dir) matches Some(image) ==> (image.src_rect.w
            < 0 <==> dir == Direction::Left && texture.rows.left == texture.rows.right),
{
}

} // verus!
