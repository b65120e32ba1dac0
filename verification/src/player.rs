//! The player: where it stands, how far into its cell it has moved, and how a
//! displacement carries it within the cell or over into the next one.
//!
//! Positions inside a cell are kept in sub-pixel units, `SUBPIXEL` to the
//! pixel, so that every value the movement rules name is a whole number. The
//! offset runs from `-HALF_CELL` to `HALF_CELL`, zero at the cell's centre.

use vstd::prelude::*;
use crate::clock::WALK_FRAMES;
use crate::direction::{Direction, DirectionTable};
use crate::geometry::{trunc_div, CELL};
use crate::sprite::{SpriteFrameSet, TextureId};

verus! {

/// Sub-pixel units in one pixel.
pub const SUBPIXEL: i32 = 10_000;

/// Half a cell, 8 pixels: the offset at which a move leaves the cell.
pub const HALF_CELL: i32 = 80_000;

/// 7.99 pixels: where a blocked move comes to rest, just inside the cell.
pub const CLAMPED: i32 = 79_900;

/// Walking speed in pixels a second.
pub const WALK_SPEED: i64 = 100;

/// Sub-pixel units covered per microsecond at walking speed.
pub const SPEED: i64 = 1;

/// A texture and its width in pixels.
#[derive(Clone, Copy, Debug, PartialEq, Eq, Structural)]
pub struct SheetHandle {
    pub texture: TextureId,
    pub width: u32,
}

/// The player: the sprites of its parts in the order of their names here,
/// where it stands, how it faces and since when it has been moving.
#[derive(Clone, Copy, Debug, PartialEq, Eq)]
pub struct Player {
    pub base: SpriteFrameSet,
    pub bottom: SpriteFrameSet,
    pub arms: SpriteFrameSet,
    pub pants: SpriteFrameSet,
    pub hairstyle: SpriteFrameSet,
    pub hat: Option<SpriteFrameSet>,
    pub shirt: SpriteFrameSet,
    pub accessory: SpriteFrameSet,
    /// The map cell the player stands in.
    pub x: i32,
    pub y: i32,
    /// Offset from the centre of the cell, in sub-pixel units.
    pub offset_x: i32,
    pub offset_y: i32,
    /// When the current motion began; `None` while idle.
    pub last_move_start: Option<u32>,
    pub dir: Direction,
}

/// Which way a displacement of `delta` carries an offset out of its cell:
/// -1 or 1 if it crosses the lower or upper edge, 0 if it stays inside.
pub open spec fn crossing(offset: int, delta: int) -> int {
    if delta < 0 && offset + delta < -HALF_CELL {
        -1
    } else if delta > 0 && offset + delta > HALF_CELL {
        1
    } else {
        0
    }
}

/// Cell and offset on one axis after a displacement of `delta`. A move that
/// crosses an edge lands on the near edge of the next cell, or, if it must
/// stay in the current cell, comes to rest just short of the edge it ran into.
pub open spec fn axis_after(cell: int, offset: int, delta: int, clamp_to_current_pos: bool) -> (
    int,
    int,
) {
    if crossing(offset, delta) == -1 {
        if clamp_to_current_pos {
            (cell, -CLAMPED)
        } else {
            (cell - 1, HALF_CELL as int)
        }
    } else if crossing(offset, delta) == 1 {
        if clamp_to_current_pos {
            (cell, CLAMPED as int)
        } else {
            (cell + 1, -HALF_CELL)
        }
    } else {
        (cell, offset + delta)
    }
}

/// Whether an offset lies within its cell.
pub open spec fn offset_in_cell(offset: int) -> bool {
    -HALF_CELL <= offset <= HALF_CELL
}

/// Whether a part is usable and every frame of the walk cycle, counted from
/// its frame at rest, has an index that fits in 32 bits.
pub open spec fn can_walk(part: SpriteFrameSet) -> bool {
    part.wf() && part.index + (WALK_FRAMES - 1) <= u32::MAX
}

fn check_walk(part: &SpriteFrameSet) -> (ok: bool)
    ensures
        ok == can_walk(*part),
{
    part.check() && part.index <= u32::MAX - (WALK_FRAMES - 1)
}

fn crosses(offset: i32, delta: i64) -> (way: i8)
    ensures
        way == crossing(offset as int, delta as int),
{
    if delta < 0 && delta < -(HALF_CELL as i64) - offset as i64 {
        -1
    } else if delta > 0 && delta > HALF_CELL as i64 - offset as i64 {
        1
    } else {
        0
    }
}

impl Player {
    /// The sprites are usable, the walking parts can show every frame of the
    /// walk cycle, and the offsets lie within the cell.
    pub open spec fn wf(self) -> bool {
        &&& can_walk(self.base)
        &&& can_walk(self.bottom)
        &&& can_walk(self.arms)
        &&& can_walk(self.pants)
        &&& self.hairstyle.wf()
        &&& self.hat matches Some(hat) ==> hat.wf()
        &&& self.shirt.wf()
        &&& self.accessory.wf()
        &&& offset_in_cell(self.offset_x as int)
        &&& offset_in_cell(self.offset_y as int)
    }

    /// Whether the values are those of a usable player.
    pub fn check(&self) -> (ok: bool)
        ensures
            ok == self.wf(),
    {
        check_walk(&self.base) && check_walk(&self.bottom) && check_walk(&self.arms) && check_walk(
            &self.pants,
        ) && self.hairstyle.check() && (match self.hat {
            Some(hat) => hat.check(),
            None => true,
        }) && self.shirt.check() && self.accessory.check() && -HALF_CELL <= self.offset_x
            && self.offset_x <= HALF_CELL && -HALF_CELL <= self.offset_y && self.offset_y
            <= HALF_CELL
    }

    /// The cell a displacement would carry the player into.
    pub open spec fn adjusted_pos_spec(&self, delta_x: i64, delta_y: i64) -> (i64, i64) {
        (
            (self.x + crossing(self.offset_x as int, delta_x as int)) as i64,
            (self.y + crossing(self.offset_y as int, delta_y as int)) as i64,
        )
    }

    /// The cell that the player would stand in after moving by the given
    /// displacements, were nothing in the way: on each axis the current cell,
    /// or its neighbour if the move crosses the cell's edge.
    #[verifier::when_used_as_spec(adjusted_pos_spec)]
    pub fn adjusted_pos(&self, delta_x: i64, delta_y: i64) -> (cell: (i64, i64))
        ensures
            cell == self.adjusted_pos_spec(delta_x, delta_y),
            cell.0 == self.x + crossing(self.offset_x as int, delta_x as int),
            cell.1 == self.y + crossing(self.offset_y as int, delta_y as int),
    {
        let x = self.x as i64 + crosses(self.offset_x, delta_x) as i64;
        let y = self.y as i64 + crosses(self.offset_y, delta_y) as i64;
        (x, y)
    }

    /// Whether the cell index can take the step that the move asks for.
    pub open spec fn can_step(cell: i32, offset: i32, delta: i64, clamp_to_current_pos: bool) -> bool {
        i32::MIN <= axis_after(cell as int, offset as int, delta as int, clamp_to_current_pos).0
            <= i32::MAX
    }

    /// Moves the player horizontally by `delta`, staying in the current cell
    /// if `clamp_to_current_pos`.
    pub fn move_horiz(&mut self, delta: i64, clamp_to_current_pos: bool)
        requires
            Self::can_step(old(self).x, old(self).offset_x, delta, clamp_to_current_pos),
        ensures
            (final(self).x as int, final(self).offset_x as int) == axis_after(
                old(self).x as int,
                old(self).offset_x as int,
                delta as int,
                clamp_to_current_pos,
            ),
            *final(self) == (Player {
                x: final(self).x,
                offset_x: final(self).offset_x,
                ..*old(self)
            }),
            !clamp_to_current_pos && delta > 0 && old(self).offset_x + delta > HALF_CELL ==> final(self).x == old(self).x + 1 && final(self).offset_x == -HALF_CELL,
            !clamp_to_current_pos && delta < 0 && old(self).offset_x + delta < -HALF_CELL ==> final(self).x == old(self).x - 1 && final(self).offset_x == HALF_CELL,
            clamp_to_current_pos ==> final(self).x == old(self).x,
            clamp_to_current_pos && delta > 0 && old(self).offset_x + delta > HALF_CELL ==> final(self).offset_x == CLAMPED,
            clamp_to_current_pos && delta < 0 && old(self).offset_x + delta < -HALF_CELL ==> final(self).offset_x == -CLAMPED,
            offset_in_cell(old(self).offset_x as int) ==> offset_in_cell(final(self).offset_x as int),
    {
        let way = crosses(self.offset_x, delta);
        if way == -1 {
            if clamp_to_current_pos {
                self.offset_x = -CLAMPED;
            } else {
                self.offset_x = HALF_CELL;
                self.x = self.x - 1;
            }
        } else if way == 1 {
            if clamp_to_current_pos {
                self.offset_x = CLAMPED;
            } else {
                self.offset_x = -HALF_CELL;
                self.x = self.x + 1;
            }
        } else {
            self.offset_x = (self.offset_x as i64 + delta) as i32;
        }
    }

    /// Moves the player vertically by `delta`, staying in the current cell if
    /// `clamp_to_current_pos`.
    pub fn move_vert(&mut self, delta: i64, clamp_to_current_pos: bool)
        requires
            Self::can_step(old(self).y, old(self).offset_y, delta, clamp_to_current_pos),
        ensures
            (final(self).y as int, final(self).offset_y as int) == axis_after(
                old(self).y as int,
                old(self).offset_y as int,
                delta as int,
                clamp_to_current_pos,
            ),
            *final(self) == (Player {
                y: final(self).y,
                offset_y: final(self).offset_y,
                ..*old(self)
            }),
            !clamp_to_current_pos && delta > 0 && old(self).offset_y + delta > HALF_CELL ==> final(self).y == old(self).y + 1 && final(self).offset_y == -HALF_CELL,
            !clamp_to_current_pos && delta < 0 && old(self).offset_y + delta < -HALF_CELL ==> final(self).y == old(self).y - 1 && final(self).offset_y == HALF_CELL,
            clamp_to_current_pos ==> final(self).y == old(self).y,
            clamp_to_current_pos && delta > 0 && old(self).offset_y + delta > HALF_CELL ==> final(self).offset_y == CLAMPED,
            clamp_to_current_pos && delta < 0 && old(self).offset_y + delta < -HALF_CELL ==> final(self).offset_y == -CLAMPED,
            offset_in_cell(old(self).offset_y as int) ==> offset_in_cell(final(self).offset_y as int),
    {
        let way = crosses(self.offset_y, delta);
        if way == -1 {
            if clamp_to_current_pos {
                self.offset_y = -CLAMPED;
            } else {
                self.offset_y = HALF_CELL;
                self.y = self.y - 1;
            }
        } else if way == 1 {
            if clamp_to_current_pos {
                self.offset_y = CLAMPED;
            } else {
                self.offset_y = -HALF_CELL;
                self.y = self.y + 1;
            }
        } else {
            self.offset_y = (self.offset_y as i64 + delta) as i32;
        }
    }

    /// Whether the player's cell can take the steps that a move by `delta`
    /// asks for on the two axes.
    pub open spec fn can_move(&self, delta: (i64, i64), clamp_to_current_pos: bool) -> bool {
        &&& Self::can_step(self.x, self.offset_x, delta.0, clamp_to_current_pos)
        &&& Self::can_step(self.y, self.offset_y, delta.1, clamp_to_current_pos)
    }

    /// The player after a move by `delta`, each axis on its own.
    pub open spec fn moved(&self, delta: (i64, i64), clamp_to_current_pos: bool) -> Player {
        let horiz = axis_after(
            self.x as int,
            self.offset_x as int,
            delta.0 as int,
            clamp_to_current_pos,
        );
        let vert = axis_after(
            self.y as int,
            self.offset_y as int,
            delta.1 as int,
            clamp_to_current_pos,
        );
        Player {
            x: horiz.0 as i32,
            offset_x: horiz.1 as i32,
            y: vert.0 as i32,
            offset_y: vert.1 as i32,
            ..*self
        }
    }

    /// The offset within the cell in whole pixels, rounded towards the centre.
    pub open spec fn pixel_offset_spec(&self) -> (i32, i32) {
        (
            trunc_div(self.offset_x as int, SUBPIXEL as int) as i32,
            trunc_div(self.offset_y as int, SUBPIXEL as int) as i32,
        )
    }

    /// Works out the offset within the cell in whole pixels.
    #[verifier::when_used_as_spec(pixel_offset_spec)]
    pub fn pixel_offset(&self) -> (offset: (i32, i32))
        ensures
            offset == self.pixel_offset_spec(),
    {
        (self.offset_x / SUBPIXEL, self.offset_y / SUBPIXEL)
    }

    /// The player's position on the map in pixels: its cell's origin plus the
    /// whole pixels of its offset.
    pub open spec fn pixel_pos_spec(&self) -> (i64, i64) {
        (
            (self.x * CELL + trunc_div(self.offset_x as int, SUBPIXEL as int)) as i64,
            (self.y * CELL + trunc_div(self.offset_y as int, SUBPIXEL as int)) as i64,
        )
    }

    /// Works out the player's position on the map in pixels.
    #[verifier::when_used_as_spec(pixel_pos_spec)]
    pub fn pixel_pos(&self) -> (pos: (i64, i64))
        ensures
            pos == self.pixel_pos_spec(),
    {
        let offset = self.pixel_offset();
        (self.x as i64 * CELL + offset.0 as i64, self.y as i64 * CELL + offset.1 as i64)
    }

    /// The farmer as the scene opens: at rest in the middle of cell (10, 15),
    /// facing down, with no hat. Body, legs, arms and trousers come from the
    /// one `base` sheet; the other parts have sheets of their own.
    pub fn farmer(
        base: SheetHandle,
        hairstyles: SheetHandle,
        shirts: SheetHandle,
        accessories: SheetHandle,
    ) -> (player: Player)
        requires
            base.width >= 16,
            hairstyles.width >= 16,
            shirts.width >= 8,
            accessories.width >= 16,
        ensures
            player.wf(),
            player == Self::farmer_spec(base, hairstyles, shirts, accessories),
    {
        let body_rows = DirectionTable {
            down: Some(0),
            right: Some(2),
            up: Some(4),
            left: Some(2),
        };
        Player {
            base: SpriteFrameSet {
                texture: base.texture,
                sheet_width: base.width,
                index: 0,
                frame_size: (16, 16),
                draw_offset: (0, 0),
                rows: body_rows,
            },
            bottom: SpriteFrameSet {
                texture: base.texture,
                sheet_width: base.width,
                index: 24,
                frame_size: (16, 16),
                draw_offset: (0, 16),
                rows: body_rows,
            },
            arms: SpriteFrameSet {
                texture: base.texture,
                sheet_width: base.width,
                index: 30,
                frame_size: (16, 16),
                draw_offset: (0, 16),
                rows: body_rows,
            },
            pants: SpriteFrameSet {
                texture: base.texture,
                sheet_width: base.width,
                index: 42,
                frame_size: (16, 16),
                draw_offset: (0, 16),
                rows: body_rows,
            },
            hairstyle: SpriteFrameSet {
                texture: hairstyles.texture,
                sheet_width: hairstyles.width,
                index: 0,
                frame_size: (16, 16),
                draw_offset: (0, 0),
                rows: body_rows,
            },
            hat: None,
            shirt: SpriteFrameSet {
                texture: shirts.texture,
                sheet_width: shirts.width,
                index: 0,
                frame_size: (8, 8),
                draw_offset: (4, 15),
                rows: DirectionTable { down: Some(0), right: Some(1), up: Some(3), left: Some(2) },
            },
            accessory: SpriteFrameSet {
                texture: accessories.texture,
                sheet_width: accessories.width,
                index: 0,
                frame_size: (16, 16),
                draw_offset: (0, 3),
                rows: DirectionTable { down: Some(0), right: Some(1), up: None, left: Some(1) },
            },
            x: 10,
            y: 15,
            offset_x: 0,
            offset_y: 0,
            last_move_start: None,
            dir: Direction::Down,
        }
    }

    /// A walking part of the farmer: a 16 by 16 frame of the base sheet, with
    /// the row blocks of the body.
    pub open spec fn farmer_part(sheet: SheetHandle, index: u32, draw_offset: (i32, i32)) -> SpriteFrameSet {
        SpriteFrameSet {
            texture: sheet.texture,
            sheet_width: sheet.width,
            index,
            frame_size: (16, 16),
            draw_offset,
            rows: DirectionTable { down: Some(0), right: Some(2), up: Some(4), left: Some(2) },
        }
    }

    /// The farmer as the scene opens.
    pub open spec fn farmer_spec(
        base: SheetHandle,
        hairstyles: SheetHandle,
        shirts: SheetHandle,
        accessories: SheetHandle,
    ) -> Player {
        Player {
            base: Self::farmer_part(base, 0, (0, 0)),
            bottom: Self::farmer_part(base, 24, (0, 16)),
            arms: Self::farmer_part(base, 30, (0, 16)),
            pants: Self::farmer_part(base, 42, (0, 16)),
            hairstyle: Self::farmer_part(hairstyles, 0, (0, 0)),
            hat: None,
            shirt: SpriteFrameSet {
                texture: shirts.texture,
                sheet_width: shirts.width,
                index: 0,
                frame_size: (8, 8),
                draw_offset: (4, 15),
                rows: DirectionTable { down: Some(0), right: Some(1), up: Some(3), left: Some(2) },
            },
            accessory: SpriteFrameSet {
                texture: accessories.texture,
                sheet_width: accessories.width,
                index: 0,
                frame_size: (16, 16),
                draw_offset: (0, 3),
                rows: DirectionTable { down: Some(0), right: Some(1), up: None, left: Some(1) },
            },
            x: 10,
            y: 15,
            offset_x: 0,
            offset_y: 0,
            last_move_start: None,
            dir: Direction::Down,
        }
    }
}

/// The speed per microsecond is the walking speed: a second at it covers
/// `WALK_SPEED` pixels.
pub proof fn lemma_speed_is_walk_speed()
    ensures
        SPEED * 1_000_000 == WALK_SPEED * SUBPIXEL,
        HALF_CELL * 2 == crate::geometry::CELL * SUBPIXEL,
{
}

/// A move never takes an offset out of its cell.
pub proof fn lemma_offset_stays_in_cell(cell: int, offset: int, delta: int, clamp_to_current_pos: bool)
    requires
        offset_in_cell(offset),
    ensures
        offset_in_cell(axis_after(cell, offset, delta, clamp_to_current_pos).1),
{
}

/// A move changes the cell by at most one, and only in the direction of the
/// displacement.
pub proof fn lemma_cell_moves_with_delta(cell: int, offset: int, delta: int, clamp_to_current_pos: bool)
    ensures
        ({
            let after = axis_after(cell, offset, delta, clamp_to_current_pos).0;
            &&& cell - 1 <= after <= cell + 1
            &&& delta >= 0 ==> after >= cell
            &&& delta <= 0 ==> after <= cell
        }),
{
}

/// An unobstructed move past the upper edge of the cell lands on the lower
/// edge of the next cell, and one past the lower edge on the upper edge of
/// the cell before. The edge itself is not past it.
pub proof fn lemma_wrap_lands_on_opposite_edge(cell: int, offset: int, delta: int)
    ensures
        delta > 0 && offset + delta > HALF_CELL ==> axis_after(cell, offset, delta, false) == (
            cell + 1,
            -HALF_CELL as int,
        ),
        delta < 0 && offset + delta < -HALF_CELL ==> axis_after(cell, offset, delta, false) == (
            cell - 1,
            HALF_CELL as int,
        ),
        -HALF_CELL <= offset + delta <= HALF_CELL ==> axis_after(cell, offset, delta, false) == (
            cell,
            offset + delta,
        ),
{
}

/// A player that nothing obstructs and whose move goes past the upper edge
/// of its cell on an axis stands in the next cell on that axis afterwards,
/// on the lower edge; one whose move goes past the lower edge stands in the
/// cell before, on the upper edge. This holds wherever the cell index can
/// take the step.
pub proof fn lemma_player_wraps(player: Player, delta: (i64, i64))
    requires
        player.can_move(delta, false),
    ensures
        ({
            let after = player.moved(delta, false);
            &&& delta.0 > 0 && player.offset_x + delta.0 > HALF_CELL ==> after.x == player.x + 1
                && after.offset_x == -HALF_CELL
            &&& delta.0 < 0 && player.offset_x + delta.0 < -HALF_CELL ==> after.x == player.x - 1
                && after.offset_x == HALF_CELL
            &&& delta.1 > 0 && player.offset_y + delta.1 > HALF_CELL ==> after.y == player.y + 1
                && after.offset_y == -HALF_CELL
            &&& delta.1 < 0 && player.offset_y + delta.1 < -HALF_CELL ==> after.y == player.y - 1
                && after.offset_y == HALF_CELL
        }),
{
}

/// A player that is obstructed stays in its cell, and where its move would
/// have gone past an edge it rests at 7.99 pixels on that side.
pub proof fn lemma_player_is_held(player: Player, delta: (i64, i64))
    ensures
        ({
            let after = player.moved(delta, true);
            &&& after.x == player.x && after.y == player.y
            &&& delta.0 > 0 && player.offset_x + delta.0 > HALF_CELL ==> after.offset_x == CLAMPED
            &&& delta.0 < 0 && player.offset_x + delta.0 < -HALF_CELL ==> after.offset_x
                == -CLAMPED
            &&& delta.1 > 0 && player.offset_y + delta.1 > HALF_CELL ==> after.offset_y == CLAMPED
            &&& delta.1 < 0 && player.offset_y + delta.1 < -HALF_CELL ==> after.offset_y
                == -CLAMPED
        }),
{
}

/// An obstructed move never leaves the cell: where it would have crossed an
/// edge it rests at 7.99 pixels on that side, which is inside the cell.
pub proof fn lemma_clamp_keeps_cell(cell: int, offset: int, delta: int)
    ensures
        axis_after(cell, offset, delta, true).0 == cell,
        crossing(offset, delta) == 1 ==> axis_after(cell, offset, delta, true).1 == CLAMPED,
        crossing(offset, delta) == -1 ==> axis_after(cell, offset, delta, true).1 == -CLAMPED,
        crossing(offset, delta) == 0 ==> axis_after(cell, offset, delta, true).1 == offset + delta,
        -HALF_CELL < -CLAMPED && CLAMPED < HALF_CELL,
{
}

} // verus!
