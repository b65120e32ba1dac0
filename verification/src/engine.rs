//! The engine's state between frames, and the two steps that a frame takes:
//! an update, which moves the player and the view, and a render, which
//! composes what is to be drawn.

use vstd::prelude::*;
use crate::camera::{lemma_can_follow, lemma_track_bounds, logical_extent_spec, Camera};
use crate::character::Character;
use crate::clock::advance;
use crate::compositor::{characters_wf, compose, scene_ops};
use crate::geometry::CELL;
use crate::input::{Facing, InputState, MoveKey};
use crate::player::{lemma_offset_stays_in_cell, Player};
use crate::sprite::DrawOp;
use crate::tilemap::TileMap;

verus! {

/// Microseconds in one tick of the animation clock.
pub const MICROS_PER_TICK: u32 = 1000;

/// The state that the engine keeps from frame to frame.
#[derive(Clone, Copy, Debug, PartialEq, Eq, Structural)]
pub struct App {
    pub camera: Camera,
    /// Milliseconds that the updates so far have covered.
    pub ticks: u32,
    pub input: InputState,
}

impl App {
    /// An engine at tick zero with no key held.
    pub fn new(camera: Camera) -> (app: App)
        ensures
            app.camera == camera,
            app.ticks == 0,
            app.input == (InputState {
                w_pressed: false,
                s_pressed: false,
                a_pressed: false,
                d_pressed: false,
                update_last_move: false,
            }),
    {
        App { camera, ticks: 0, input: InputState::new() }
    }

    /// Whether the player's motion, if it is in motion, began no later than
    /// the clock reads.
    pub open spec fn in_step_with(&self, player: Player) -> bool {
        player.last_move_start matches Some(start) ==> start <= self.ticks
    }

    /// Tests whether the player's motion began no later than the clock
    /// reads.
    #[verifier::when_used_as_spec(in_step_with)]
    pub fn is_in_step_with(&self, player: Player) -> (ok: bool)
        ensures
            ok == self.in_step_with(player),
    {
        match player.last_move_start {
            Some(start) => start <= self.ticks,
            None => true,
        }
    }

    /// Takes note that a movement key went down.
    pub fn key_pressed(&mut self, key: MoveKey)
        ensures
            final(self).input == old(self).input.with_key(
                key,
                true,
                old(self).input.update_last_move || !old(self).input.held_spec(key),
            ),
            final(self).camera == old(self).camera,
            final(self).ticks == old(self).ticks,
    {
        self.input.key_pressed(key);
    }

    /// Takes note that a movement key went up.
    pub fn key_released(&mut self, key: MoveKey)
        ensures
            final(self).input == old(self).input.with_key(
                key,
                false,
                old(self).input.update_last_move || old(self).input.held_spec(key),
            ),
            final(self).camera == old(self).camera,
            final(self).ticks == old(self).ticks,
    {
        self.input.key_released(key);
    }

    /// The clock's reading after an update that covers `elapsed_micros`.
    pub open spec fn ticks_after(&self, elapsed_micros: u32) -> u32 {
        (self.ticks + elapsed_micros / MICROS_PER_TICK) as u32
    }

    /// The player facing as the held keys say at the time of the update.
    pub open spec fn player_turned(&self, player: Player, elapsed_micros: u32) -> Player {
        let facing = self.input.refreshed(
            Facing { dir: player.dir, last_move_start: player.last_move_start },
            self.ticks_after(elapsed_micros),
        );
        Player { dir: facing.dir, last_move_start: facing.last_move_start, ..player }
    }

    /// Whether the move that the held keys ask for runs into an obstruction:
    /// whether the cell below the one that the move leads to is obstructed.
    /// That is the cell where the player's feet would come to stand.
    pub open spec fn blocked(&self, player: Player, map: TileMap, elapsed_micros: u32) -> bool {
        let delta = self.input.deltas_spec(elapsed_micros);
        let target = player.adjusted_pos_spec(delta.0, delta.1);
        map.obstructed_spec(target.0, (target.1 + 1) as i64)
    }

    /// The player after an update: turned as the keys say, and moved by what
    /// the keys ask for, within its cell if the move is blocked.
    pub open spec fn player_after(&self, player: Player, map: TileMap, elapsed_micros: u32) -> Player {
        self.player_turned(player, elapsed_micros).moved(
            self.input.deltas_spec(elapsed_micros),
            self.blocked(player, map, elapsed_micros),
        )
    }

    /// The engine after an update: the clock advanced, the keys taken note
    /// of, and the view gone after the player.
    pub open spec fn after_update(&self, player: Player, map: TileMap, elapsed_micros: u32) -> App {
        App {
            camera: self.camera.followed(
                self.player_after(player, map, elapsed_micros).pixel_pos_spec(),
                (map.layers[0].width, map.layers[0].height),
            ),
            ticks: self.ticks_after(elapsed_micros),
            input: InputState { update_last_move: false, ..self.input },
        }
    }

    /// Whether an update that covers `elapsed_micros` stays within what the
    /// clock and the player's cell can hold.
    pub open spec fn can_update(&self, player: Player, map: TileMap, elapsed_micros: u32) -> bool {
        &&& self.ticks + elapsed_micros / MICROS_PER_TICK <= u32::MAX
        &&& player.can_move(
            self.input.deltas_spec(elapsed_micros),
            self.blocked(player, map, elapsed_micros),
        )
    }

    /// Tests whether an update that covers `elapsed_micros` can be made.
    pub fn check_update(&self, player: &Player, map: &TileMap, elapsed_micros: u32) -> (ok: bool)
        requires
            map.walkable(),
        ensures
            ok == self.can_update(*player, *map, elapsed_micros),
    {
        if elapsed_micros / MICROS_PER_TICK > u32::MAX - self.ticks {
            return false;
        }
        let delta = self.input.deltas(elapsed_micros);
        let target = player.adjusted_pos(delta.0, delta.1);
        let blocked = map.obstructed(target.0, target.1 + 1);
        if blocked {
            return true;
        }
        let min = i32::MIN as i64;
        let max = i32::MAX as i64;
        min <= target.0 && target.0 <= max && min <= target.1 && target.1 <= max
    }

    /// Advances the scene by `elapsed_micros`: the clock runs on, the player
    /// turns and moves as the held keys say and the map allows, and the view
    /// goes after the player.
    pub fn update(&mut self, elapsed_micros: u32, player: &mut Player, map: &TileMap)
        requires
            map.walkable(),
            old(self).can_update(*old(player), *map, elapsed_micros),
        ensures
            *final(player) == old(self).player_after(*old(player), *map, elapsed_micros),
            *final(self) == old(self).after_update(*old(player), *map, elapsed_micros),
            final(self).ticks >= old(self).ticks,
            old(player).wf() ==> final(player).wf(),
            old(self).in_step_with(*old(player)) ==> final(self).in_step_with(*final(player)),
            final(self).camera.view_x <= map.layers[0].width * CELL - logical_extent_spec(
                old(self).camera.view_w,
            ),
            final(self).camera.view_y <= map.layers[0].height * CELL - logical_extent_spec(
                old(self).camera.view_h,
            ),
            map.layers[0].width * CELL >= logical_extent_spec(old(self).camera.view_w) ==> 0
                <= final(self).camera.view_x,
            map.layers[0].height * CELL >= logical_extent_spec(old(self).camera.view_h) ==> 0
                <= final(self).camera.view_y,
    {
        self.ticks = advance(self.ticks, elapsed_micros / MICROS_PER_TICK);

        let facing = self.input.refresh_facing(
            Facing { dir: player.dir, last_move_start: player.last_move_start },
            self.ticks,
        );
        player.dir = facing.dir;
        player.last_move_start = facing.last_move_start;

        let delta = self.input.deltas(elapsed_micros);
        let target = player.adjusted_pos(delta.0, delta.1);
        let clamp_to_current_pos = map.obstructed(target.0, target.1 + 1);

        proof {
            if old(player).wf() {
                lemma_offset_stays_in_cell(
                    player.x as int,
                    player.offset_x as int,
                    delta.0 as int,
                    clamp_to_current_pos,
                );
                lemma_offset_stays_in_cell(
                    player.y as int,
                    player.offset_y as int,
                    delta.1 as int,
                    clamp_to_current_pos,
                );
            }
        }
        player.move_horiz(delta.0, clamp_to_current_pos);
        player.move_vert(delta.1, clamp_to_current_pos);

        let size = map.size();
        proof {
            lemma_can_follow(self.camera, player.pixel_pos_spec(), size);
            lemma_track_bounds(self.camera.view_x, player.pixel_pos_spec().0, self.camera.view_w, size.0);
            lemma_track_bounds(self.camera.view_y, player.pixel_pos_spec().1, self.camera.view_h, size.1);
        }
        self.camera.follow(player.pixel_pos(), size);
    }

    /// Composes the frame for a window of `window` pixels, and keeps the
    /// window's size for the updates to follow.
    pub fn render(
        &mut self,
        window: (u32, u32),
        player: &Player,
        characters: &Vec<Character>,
        map: &TileMap,
    ) -> (ops: Vec<DrawOp>)
        requires
            map.drawable(),
            player.wf(),
            old(self).in_step_with(*player),
            characters_wf(characters@),
        ensures
            *final(self) == (App {
                camera: Camera { view_w: window.0, view_h: window.1, ..old(self).camera },
                ..*old(self)
            }),
            ops@ == scene_ops(*map, final(self).camera, old(self).ticks, *player, characters@),
    {
        self.camera.view_w = window.0;
        self.camera.view_h = window.1;
        compose(map, self.camera, self.ticks, player, characters)
    }
}

/// After an update the view shows no more than the map, on each axis on
/// which the map is at least as long as the view: it is not below zero and
/// no further than the map's length in pixels less the view's, wherever the
/// player has got to and wherever the view was. On an axis on which the map
/// is shorter, the view is still no further than that, now negative, limit.
pub proof fn lemma_update_keeps_view_on_map(app: App, player: Player, map: TileMap, elapsed_micros: u32)
    requires
        map.layers.len() > 0,
        map.fits_viewport(),
    ensures
        ({
            let after = app.after_update(player, map, elapsed_micros).camera;
            let map_w = map.layers[0].width * CELL;
            let map_h = map.layers[0].height * CELL;
            let view_w = logical_extent_spec(app.camera.view_w) as int;
            let view_h = logical_extent_spec(app.camera.view_h) as int;
            &&& after.view_x <= map_w - view_w
            &&& after.view_y <= map_h - view_h
            &&& map_w >= view_w ==> 0 <= after.view_x
            &&& map_h >= view_h ==> 0 <= after.view_y
        }),
{
    let at = app.player_after(player, map, elapsed_micros).pixel_pos_spec();
    lemma_track_bounds(app.camera.view_x, at.0, app.camera.view_w, map.layers[0].width);
    lemma_track_bounds(app.camera.view_y, at.1, app.camera.view_h, map.layers[0].height);
}

/// A player whose move is blocked stays in its cell; one whose move is not
/// goes to the cell that the move leads to.
pub proof fn lemma_update_moves_by_the_probe(app: App, player: Player, map: TileMap, elapsed_micros: u32)
    requires
        app.can_update(player, map, elapsed_micros),
    ensures
        ({
            let after = app.player_after(player, map, elapsed_micros);
            let delta = app.input.deltas_spec(elapsed_micros);
            let target = player.adjusted_pos_spec(delta.0, delta.1);
            &&& app.blocked(player, map, elapsed_micros) ==> after.x == player.x && after.y
                == player.y
            &&& !app.blocked(player, map, elapsed_micros) ==> after.x == target.0 && after.y
                == target.1
        }),
{
}

/// An update leaves the player's sprites alone: it changes only where the
/// player is, how it faces and when its motion began.
pub proof fn lemma_update_keeps_sprites(app: App, player: Player, map: TileMap, elapsed_micros: u32)
    ensures
        ({
            let after = app.player_after(player, map, elapsed_micros);
            after == (Player {
                x: after.x,
                y: after.y,
                offset_x: after.offset_x,
                offset_y: after.offset_y,
                dir: after.dir,
                last_move_start: after.last_move_start,
                ..player
            })
        }),
{
}

} // verus!
