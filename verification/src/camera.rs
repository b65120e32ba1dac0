//! The viewport and the rule by which it follows the player: it stays put
//! while the player is in the middle third of the view, keeps the player on
//! the edge of that third otherwise, and on a map that is at least as long
//! as the view never shows past the map.

use vstd::prelude::*;
use crate::geometry::{CELL, ZOOM_DEN, ZOOM_NUM};

verus! {

/// The top-left map pixel that is shown, and the size of the window in
/// window pixels.
#[derive(Clone, Copy, Debug, PartialEq, Eq, Structural)]
pub struct Camera {
    pub view_x: i32,
    pub view_y: i32,
    pub view_w: u32,
    pub view_h: u32,
}

/// The keys that push the viewport by hand.
#[derive(Clone, Copy, Debug, PartialEq, Eq, Structural)]
pub enum NudgeKey {
    Left,
    Right,
    Up,
    Down,
}

/// Map pixels that fit across `window` window pixels at the display zoom,
/// rounded down, and at most `i32::MAX`.
pub open spec fn logical_extent_spec(window: u32) -> i32 {
    let extent = window as int * ZOOM_DEN as int / ZOOM_NUM as int;
    if extent <= i32::MAX {
        extent as i32
    } else {
        i32::MAX
    }
}

/// Works out the map pixels that fit across a window.
#[verifier::when_used_as_spec(logical_extent_spec)]
pub fn logical_extent(window: u32) -> (extent: i32)
    ensures
        extent == logical_extent_spec(window),
        extent >= 0,
{
    let extent: u64 = window as u64 * ZOOM_DEN as u64 / ZOOM_NUM as u64;
    if extent <= i32::MAX as u64 {
        extent as i32
    } else {
        i32::MAX
    }
}

/// Where the view goes on one axis to follow a player at pixel `player`,
/// before the map's edges are taken into account. `view` is where it is now
/// and `extent` its length in map pixels.
pub open spec fn follow_axis(view: int, player: int, extent: int) -> int {
    let third = extent / 3;
    if player - view < third {
        player - third
    } else if player - view > third * 2 {
        player - third * 2
    } else {
        view
    }
}

/// The furthest the view may scroll on an axis of `map_cells` cells: the
/// map's length in pixels less the view's. With the view there, its far edge
/// is the map's.
pub open spec fn max_scroll(map_cells: u32, extent: int) -> int {
    map_cells * CELL - extent
}

/// `target` brought up to zero if below it, and then down to `limit` if
/// above it. Where the limit is negative, which is so on a map shorter than
/// the view, the limit wins.
pub open spec fn clamp_axis(target: int, limit: int) -> int {
    let raised = if target < 0 {
        0
    } else {
        target
    };
    if raised > limit {
        limit
    } else {
        raised
    }
}

/// Where the view goes on one axis: after the player, within the map.
pub open spec fn track_axis_spec(view: i32, player: i64, window: u32, map_cells: u32) -> i64 {
    let extent = logical_extent_spec(window) as int;
    clamp_axis(follow_axis(view as int, player as int, extent), max_scroll(map_cells, extent)) as i64
}

/// Works out where the view goes on one axis.
#[verifier::when_used_as_spec(track_axis_spec)]
pub fn track_axis(view: i32, player: i64, window: u32, map_cells: u32) -> (target: i64)
    ensures
        target == track_axis_spec(view, player, window, map_cells),
        target == clamp_axis(
            follow_axis(view as int, player as int, logical_extent_spec(window) as int),
            max_scroll(map_cells, logical_extent_spec(window) as int),
        ),
        target <= map_cells * CELL - logical_extent_spec(window),
        map_cells * CELL >= logical_extent_spec(window) ==> 0 <= target,
{
    let extent: i64 = logical_extent(window) as i64;
    let third: i64 = extent / 3;
    let limit: i64 = map_cells as i64 * CELL - extent;
    // The target is worked out already raised to zero, so that no
    // intermediate value leaves the range of the player's position.
    let raised: i64 = if player < view as i64 + third {
        if player < third {
            0
        } else {
            player - third
        }
    } else if player > view as i64 + third * 2 {
        if player < third * 2 {
            0
        } else {
            player - third * 2
        }
    } else if view < 0 {
        0
    } else {
        view as i64
    };
    if raised > limit {
        limit
    } else {
        raised
    }
}

impl Camera {
    /// A view whose top-left corner is the corner of cell `cell` on a grid of
    /// cells of `tile_size`.
    pub fn at_cell(cell: (i32, i32), tile_size: (u16, u16), window: (u32, u32)) -> (camera: Camera)
        requires
            i32::MIN <= cell.0 * tile_size.0 <= i32::MAX,
            i32::MIN <= cell.1 * tile_size.1 <= i32::MAX,
        ensures
            camera.view_x == cell.0 * tile_size.0,
            camera.view_y == cell.1 * tile_size.1,
            camera.view_w == window.0,
            camera.view_h == window.1,
    {
        Camera {
            view_x: (cell.0 as i64 * tile_size.0 as i64) as i32,
            view_y: (cell.1 as i64 * tile_size.1 as i64) as i32,
            view_w: window.0,
            view_h: window.1,
        }
    }

    /// The view after following a player at map pixel `player` on a map of
    /// `map_size` cells.
    pub open spec fn followed(self, player: (i64, i64), map_size: (u32, u32)) -> Camera {
        Camera {
            view_x: track_axis_spec(self.view_x, player.0, self.view_w, map_size.0) as i32,
            view_y: track_axis_spec(self.view_y, player.1, self.view_h, map_size.1) as i32,
            view_w: self.view_w,
            view_h: self.view_h,
        }
    }

    /// Whether the place the view would go to can be held in the view's
    /// coordinates.
    pub open spec fn can_follow(self, player: (i64, i64), map_size: (u32, u32)) -> bool {
        &&& i32::MIN <= track_axis_spec(self.view_x, player.0, self.view_w, map_size.0) <= i32::MAX
        &&& i32::MIN <= track_axis_spec(self.view_y, player.1, self.view_h, map_size.1) <= i32::MAX
    }

    /// Moves the view after the player.
    pub fn follow(&mut self, player: (i64, i64), map_size: (u32, u32))
        requires
            old(self).can_follow(player, map_size),
        ensures
            *final(self) == old(self).followed(player, map_size),
            final(self).view_x <= map_size.0 * CELL - logical_extent_spec(old(self).view_w),
            final(self).view_y <= map_size.1 * CELL - logical_extent_spec(old(self).view_h),
            map_size.0 * CELL >= logical_extent_spec(old(self).view_w) ==> 0 <= final(self).view_x,
            map_size.1 * CELL >= logical_extent_spec(old(self).view_h) ==> 0 <= final(self).view_y,
    {
        proof {
            lemma_track_bounds(self.view_x, player.0, self.view_w, map_size.0);
            lemma_track_bounds(self.view_y, player.1, self.view_h, map_size.1);
        }
        self.view_x = track_axis(self.view_x, player.0, self.view_w, map_size.0) as i32;
        self.view_y = track_axis(self.view_y, player.1, self.view_h, map_size.1) as i32;
    }

    /// The view after a push by hand: one pixel the way of the key, but not
    /// up or left from a position that is not positive.
    pub open spec fn nudged(self, key: NudgeKey) -> Camera {
        match key {
            NudgeKey::Left => if self.view_x > 0 {
                Camera { view_x: (self.view_x - 1) as i32, ..self }
            } else {
                self
            },
            NudgeKey::Right => Camera { view_x: (self.view_x + 1) as i32, ..self },
            NudgeKey::Up => if self.view_y > 0 {
                Camera { view_y: (self.view_y - 1) as i32, ..self }
            } else {
                self
            },
            NudgeKey::Down => Camera { view_y: (self.view_y + 1) as i32, ..self },
        }
    }

    /// Pushes the view by hand. This takes no account of the player or of the
    /// map's far edges; the next `follow` may move the view back.
    pub fn nudge(&mut self, key: NudgeKey)
        requires
            key == NudgeKey::Right ==> old(self).view_x < i32::MAX,
            key == NudgeKey::Down ==> old(self).view_y < i32::MAX,
        ensures
            *final(self) == old(self).nudged(key),
    {
        match key {
            NudgeKey::Left => {
                if self.view_x > 0 {
                    self.view_x = self.view_x - 1;
                }
            },
            NudgeKey::Right => {
                self.view_x = self.view_x + 1;
            },
            NudgeKey::Up => {
                if self.view_y > 0 {
                    self.view_y = self.view_y - 1;
                }
            },
            NudgeKey::Down => {
                self.view_y = self.view_y + 1;
            },
        }
    }
}

/// The view stays where it is exactly while the player is in its middle
/// third, both ends included. Otherwise it moves just far enough that the
/// player stands on the nearer end of that third; one pixel out moves it by
/// one pixel.
pub proof fn lemma_dead_zone(view: int, player: int, extent: int)
    requires
        extent >= 0,
    ensures
        ({
            let third = extent / 3;
            let after = follow_axis(view, player, extent);
            &&& third <= player - view <= third * 2 <==> after == view
            &&& player - view < third ==> player - after == third
            &&& player - view > third * 2 ==> player - after == third * 2
            &&& third <= player - after <= third * 2
            &&& player - view == third - 1 ==> after == view - 1
            &&& player - view == third * 2 + 1 ==> after == view + 1
        }),
{
}

/// Wherever the player is, and wherever the view was, on a map that is at
/// least as long as the view the view ends up on the map: not below zero,
/// and no further than the map's length in pixels less the view's, so that
/// its far edge is not past the map's.
pub proof fn lemma_view_stays_on_map(view: i32, player: i64, window: u32, map_cells: u32)
    requires
        map_cells * CELL >= logical_extent_spec(window),
    ensures
        0 <= track_axis_spec(view, player, window, map_cells) <= map_cells * CELL
            - logical_extent_spec(window),
        track_axis_spec(view, player, window, map_cells) + logical_extent_spec(window)
            <= map_cells * CELL,
{
    lemma_track_bounds(view, player, window, map_cells);
}

/// On any map the view ends up no further than the map's length in pixels
/// less the view's, and below zero only on a map shorter than the view,
/// where it rests at that negative limit.
pub proof fn lemma_track_bounds(view: i32, player: i64, window: u32, map_cells: u32)
    ensures
        ({
            let limit = map_cells * CELL - logical_extent_spec(window);
            let target = clamp_axis(
                follow_axis(view as int, player as int, logical_extent_spec(window) as int),
                limit,
            );
            &&& limit == max_scroll(map_cells, logical_extent_spec(window) as int)
            &&& target == track_axis_spec(view, player, window, map_cells)
            &&& target <= limit
            &&& limit >= 0 ==> target >= 0
            &&& limit < 0 ==> target == limit
            &&& -0x8000_0000 < limit <= map_cells * CELL
        }),
{
}

/// A view that is on the map and has the player in its middle third stays
/// where it is.
pub proof fn lemma_view_at_rest(view: i32, player: i64, window: u32, map_cells: u32)
    requires
        0 <= view <= map_cells * CELL - logical_extent_spec(window),
        logical_extent_spec(window) / 3 <= player - view <= logical_extent_spec(window) / 3 * 2,
    ensures
        track_axis_spec(view, player, window, map_cells) == view,
{
}

/// The view's position fits its coordinates on every map whose length in
/// pixels does.
pub proof fn lemma_can_follow(camera: Camera, player: (i64, i64), map_size: (u32, u32))
    requires
        map_size.0 * CELL <= i32::MAX,
        map_size.1 * CELL <= i32::MAX,
    ensures
        camera.can_follow(player, map_size),
{
    lemma_track_bounds(camera.view_x, player.0, camera.view_w, map_size.0);
    lemma_track_bounds(camera.view_y, player.1, camera.view_h, map_size.1);
}

} // verus!
