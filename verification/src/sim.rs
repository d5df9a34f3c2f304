//! Entities and the per-frame update passes of the simulation.
//!
//! Every pass works on milli-unit fixed-point coordinates. A frame runs, in
//! order: player movement, enemy movement, enemy direction update (edge
//! bounce, computed from the positions already moved this frame), and
//! confinement of every confined entity into the window's inset rectangle.

use vstd::prelude::*;
use crate::math::{
    normalize, scaled_step, norm_coord, displacement, lemma_norm_magnitude,
};
use crate::rng::rand_range_i64;
use crate::{MILLI, SPRITE_SIZE, PLAYER_SPEED, ENEMY_SPEED, ENEMY_MAX_COUNT};

verus! {

/// Largest window dimension the simulation accepts, in milli-units.
pub const MAX_WINDOW: i64 = 1_000_000_000;

/// Positions are kept within this magnitude between frames.
pub const POS_LIMIT: i64 = 1_000_000_000_000;

/// Largest frame time accepted, in milliseconds (one hour).
pub const MAX_DT_MS: u64 = 3_600_000;

/// A 2D point or vector in milli-units.
#[derive(Clone, Copy, PartialEq, Eq, Structural, Debug)]
pub struct Vec2i {
    pub x: i64,
    pub y: i64,
}

/// Marker for an entity whose position is kept within the window bounds.
#[derive(Clone, Copy, PartialEq, Eq, Structural, Debug)]
pub struct Confined;

/// The single player-controlled entity.
#[derive(Clone, Copy, PartialEq, Eq, Structural, Debug)]
pub struct Player {
    pub pos: Vec2i,
    pub confined: Confined,
}

/// A bouncing enemy: a position and a unit (or zero) direction vector.
#[derive(Clone, Copy, PartialEq, Eq, Structural, Debug)]
pub struct Enemy {
    pub pos: Vec2i,
    pub direction: Vec2i,
    pub confined: Confined,
}

/// The legal center-point range along one window dimension `d`: the window
/// inset by half the sprite size on both sides.
pub open spec fn inset_min(d: int) -> int {
    -(d / 2) + (SPRITE_SIZE as int) / 2
}

pub open spec fn inset_max(d: int) -> int {
    d / 2 - (SPRITE_SIZE as int) / 2
}

/// The inset rectangle of a window, as executable data.
#[derive(Clone, Copy, PartialEq, Eq, Structural, Debug)]
pub struct Bounds {
    pub x_min: i64,
    pub x_max: i64,
    pub y_min: i64,
    pub y_max: i64,
}

impl Bounds {
    pub open spec fn wf(self) -> bool {
        -MAX_WINDOW <= self.x_min <= self.x_max <= MAX_WINDOW && -MAX_WINDOW <= self.y_min
            <= self.y_max <= MAX_WINDOW
    }
}

/// Compute the inset rectangle of a window: the window rectangle reduced on
/// all sides by half the sprite size.
pub fn inset_bounds(width: i64, height: i64) -> (b: Bounds)
    requires
        SPRITE_SIZE <= width <= MAX_WINDOW,
        SPRITE_SIZE <= height <= MAX_WINDOW,
    ensures
        b.x_min == inset_min(width as int),
        b.x_max == inset_max(width as int),
        b.y_min == inset_min(height as int),
        b.y_max == inset_max(height as int),
        b.wf(),
{
    let half: i64 = SPRITE_SIZE / 2;
    Bounds {
        x_min: -(width / 2) + half,
        x_max: width / 2 - half,
        y_min: -(height / 2) + half,
        y_max: height / 2 - half,
    }
}

/// Clamping of one coordinate into `[lo, hi]`.
pub open spec fn clamp_spec(v: int, lo: int, hi: int) -> int {
    if v < lo {
        lo
    } else if v > hi {
        hi
    } else {
        v
    }
}

/// Confinement: clamp a confined entity's position into the bounds. This is
/// the authoritative mechanism keeping entities inside the window.
pub fn confine_movement(pos: &mut Vec2i, b: Bounds)
    requires
        b.wf(),
    ensures
        final(pos).x == clamp_spec(old(pos).x as int, b.x_min as int, b.x_max as int),
        final(pos).y == clamp_spec(old(pos).y as int, b.y_min as int, b.y_max as int),
        b.x_min <= final(pos).x <= b.x_max,
        b.y_min <= final(pos).y <= b.y_max,
{
    if pos.x < b.x_min {
        pos.x = b.x_min;
    } else if pos.x > b.x_max {
        pos.x = b.x_max;
    }
    if pos.y < b.y_min {
        pos.y = b.y_min;
    } else if pos.y > b.y_max {
        pos.y = b.y_max;
    }
}

/// A direction vector is unit length up to fixed-point rounding, or exactly
/// the zero vector.
pub open spec fn unit_or_zero(d: Vec2i) -> bool {
    (d.x == 0 && d.y == 0) || (995_999 <= d.x * d.x + d.y * d.y <= 1_002_002 && -MILLI <= d.x
        <= MILLI && -MILLI <= d.y <= MILLI)
}

/// Normalize a direction vector to unit length, leaving the zero vector as is.
pub fn normalize_dir(v: Vec2i) -> (r: Vec2i)
    requires
        -2 * MILLI <= v.x <= 2 * MILLI,
        -2 * MILLI <= v.y <= 2 * MILLI,
    ensures
        r.x == norm_coord(v.x as int, v.x as int, v.y as int),
        r.y == norm_coord(v.y as int, v.x as int, v.y as int),
        unit_or_zero(r),
        v.x == 0 && v.y == 0 ==> r.x == 0 && r.y == 0,
{
    let (nx, ny) = normalize(v.x, v.y);
    proof {
        if !(v.x == 0 && v.y == 0) {
            lemma_norm_magnitude(v.x as int, v.y as int);
        }
    }
    Vec2i { x: nx, y: ny }
}

/// The set of directional keys currently held.
#[derive(Clone, Copy, PartialEq, Eq, Structural, Debug, Default)]
pub struct InputState {
    pub key_w: bool,
    pub key_s: bool,
    pub key_a: bool,
    pub key_d: bool,
    pub key_up: bool,
    pub key_down: bool,
    pub key_left: bool,
    pub key_right: bool,
}

impl InputState {
    /// Horizontal input accumulator: D/Right add one, A/Left subtract one.
    pub open spec fn dir_x(self) -> int {
        (if self.key_d || self.key_right {
            1int
        } else {
            0int
        }) - (if self.key_a || self.key_left {
            1int
        } else {
            0int
        })
    }

    /// Vertical input accumulator: W/Up add one, S/Down subtract one.
    pub open spec fn dir_y(self) -> int {
        (if self.key_w || self.key_up {
            1int
        } else {
            0int
        }) - (if self.key_s || self.key_down {
            1int
        } else {
            0int
        })
    }
}

/// Per-frame player movement: accumulate the held keys into a direction,
/// normalize it so diagonal movement is no faster than axis-aligned movement,
/// and advance the position by `PLAYER_SPEED` times the elapsed time. With no
/// effective input the player does not move, whatever the elapsed time.
pub fn player_movement(player: &mut Player, input: InputState, dt_ms: u64)
    requires
        dt_ms <= MAX_DT_MS,
        -POS_LIMIT <= old(player).pos.x <= POS_LIMIT,
        -POS_LIMIT <= old(player).pos.y <= POS_LIMIT,
    ensures
        ({
            let dx = input.dir_x() * (MILLI as int);
            let dy = input.dir_y() * (MILLI as int);
            final(player).pos.x == old(player).pos.x + displacement(
                norm_coord(dx, dx, dy),
                PLAYER_SPEED as int,
                dt_ms as int,
            ) && final(player).pos.y == old(player).pos.y + displacement(
                norm_coord(dy, dx, dy),
                PLAYER_SPEED as int,
                dt_ms as int,
            )
        }),
        input.dir_x() == 0 && input.dir_y() == 0 ==> final(player).pos == old(player).pos,
        -POS_LIMIT - 1_800_000_000 <= final(player).pos.x <= POS_LIMIT + 1_800_000_000,
        -POS_LIMIT - 1_800_000_000 <= final(player).pos.y <= POS_LIMIT + 1_800_000_000,
{
    let mut ix: i64 = 0;
    let mut iy: i64 = 0;
    if input.key_w || input.key_up {
        iy = iy + MILLI;
    }
    if input.key_s || input.key_down {
        iy = iy - MILLI;
    }
    if input.key_a || input.key_left {
        ix = ix - MILLI;
    }
    if input.key_d || input.key_right {
        ix = ix + MILLI;
    }
    let (nx, ny) = normalize(ix, iy);
    let sx = scaled_step(nx, PLAYER_SPEED, dt_ms);
    let sy = scaled_step(ny, PLAYER_SPEED, dt_ms);
    player.pos.x = player.pos.x + sx;
    player.pos.y = player.pos.y + sy;
}

/// Per-frame enemy translation: pure movement along the stored direction at
/// `ENEMY_SPEED`; bounds are left to the direction update and confinement.
pub fn enemy_movement(enemy: &mut Enemy, dt_ms: u64)
    requires
        dt_ms <= MAX_DT_MS,
        unit_or_zero(old(enemy).direction),
        -POS_LIMIT <= old(enemy).pos.x <= POS_LIMIT,
        -POS_LIMIT <= old(enemy).pos.y <= POS_LIMIT,
    ensures
        final(enemy).direction == old(enemy).direction,
        final(enemy).pos.x == old(enemy).pos.x + displacement(
            old(enemy).direction.x as int,
            ENEMY_SPEED as int,
            dt_ms as int,
        ),
        final(enemy).pos.y == old(enemy).pos.y + displacement(
            old(enemy).direction.y as int,
            ENEMY_SPEED as int,
            dt_ms as int,
        ),
        -POS_LIMIT - 1_800_000_000 <= final(enemy).pos.x <= POS_LIMIT + 1_800_000_000,
        -POS_LIMIT - 1_800_000_000 <= final(enemy).pos.y <= POS_LIMIT + 1_800_000_000,
{
    let sx = scaled_step(enemy.direction.x, ENEMY_SPEED, dt_ms);
    let sy = scaled_step(enemy.direction.y, ENEMY_SPEED, dt_ms);
    enemy.pos.x = enemy.pos.x + sx;
    enemy.pos.y = enemy.pos.y + sy;
}

/// One direction coordinate after reflecting off an edge of `[lo, hi]` the
/// enemy has reached while still heading outward.
pub open spec fn reflect_coord(p: int, d: int, lo: int, hi: int) -> int {
    if p <= lo && d < 0 {
        -d
    } else if p >= hi && d > 0 {
        -d
    } else {
        d
    }
}

/// Per-frame edge bounce: reflect the direction off window edges the enemy
/// has reached, then re-normalize; an exactly-zero direction stays zero and
/// the enemy stays stationary.
pub fn enemy_update_direction(enemy: &mut Enemy, b: Bounds)
    requires
        b.wf(),
        unit_or_zero(old(enemy).direction),
    ensures
        final(enemy).pos == old(enemy).pos,
        ({
            let rx = reflect_coord(
                old(enemy).pos.x as int,
                old(enemy).direction.x as int,
                b.x_min as int,
                b.x_max as int,
            );
            let ry = reflect_coord(
                old(enemy).pos.y as int,
                old(enemy).direction.y as int,
                b.y_min as int,
                b.y_max as int,
            );
            final(enemy).direction.x == norm_coord(rx, rx, ry) && final(enemy).direction.y
                == norm_coord(ry, rx, ry)
        }),
        unit_or_zero(final(enemy).direction),
        old(enemy).direction.x == 0 && old(enemy).direction.y == 0 ==> final(enemy).direction
            == old(enemy).direction,
{
    let mut dx = enemy.direction.x;
    let mut dy = enemy.direction.y;
    if enemy.pos.x <= b.x_min && dx < 0 {
        dx = -dx;
    } else if enemy.pos.x >= b.x_max && dx > 0 {
        dx = -dx;
    }
    if enemy.pos.y <= b.y_min && dy < 0 {
        dy = -dy;
    } else if enemy.pos.y >= b.y_max && dy > 0 {
        dy = -dy;
    }
    enemy.direction = normalize_dir(Vec2i { x: dx, y: dy });
}

/// Startup: the player starts at the origin, confined.
pub fn spawn_player() -> (p: Player)
    ensures
        p.pos.x == 0 && p.pos.y == 0,
{
    Player { pos: Vec2i { x: 0, y: 0 }, confined: Confined }
}

/// The enemy's position lies in the half-open inset spawn rectangle of the
/// window `(w, h)`.
pub open spec fn enemy_in_spawn_rect(e: Enemy, w: int, h: int) -> bool {
    inset_min(w) <= e.pos.x < inset_max(w) && inset_min(h) <= e.pos.y < inset_max(h)
}

/// Startup: spawn `ENEMY_MAX_COUNT` enemies, each at an independent uniform
/// random position within the inset spawn rectangle and with an independent
/// random direction normalized to unit length (zero if the zero vector was
/// drawn). The window must leave the spawn rectangle non-empty.
pub fn spawn_enemies(width: i64, height: i64) -> (enemies: Vec<Enemy>)
    requires
        SPRITE_SIZE + 2 <= width <= MAX_WINDOW,
        SPRITE_SIZE + 2 <= height <= MAX_WINDOW,
    ensures
        enemies@.len() == ENEMY_MAX_COUNT,
        forall|i: int|
            0 <= i < enemies@.len() ==> enemy_in_spawn_rect(
                #[trigger] enemies@[i],
                width as int,
                height as int,
            ),
        forall|i: int| 0 <= i < enemies@.len() ==> unit_or_zero(#[trigger] enemies@[i].direction),
{
    let b = inset_bounds(width, height);
    let mut enemies: Vec<Enemy> = Vec::new();
    let mut i: usize = 0;
    while i < ENEMY_MAX_COUNT
        invariant
            i <= ENEMY_MAX_COUNT,
            enemies@.len() == i,
            b.x_min == inset_min(width as int),
            b.x_max == inset_max(width as int),
            b.y_min == inset_min(height as int),
            b.y_max == inset_max(height as int),
            b.x_min < b.x_max,
            b.y_min < b.y_max,
            forall|j: int|
                0 <= j < i ==> enemy_in_spawn_rect(
                    #[trigger] enemies@[j],
                    width as int,
                    height as int,
                ),
            forall|j: int| 0 <= j < i ==> unit_or_zero(#[trigger] enemies@[j].direction),
        decreases ENEMY_MAX_COUNT - i,
    {
        let x = rand_range_i64(b.x_min, b.x_max);
        let y = rand_range_i64(b.y_min, b.y_max);
        let rdx = rand_range_i64(-MILLI, MILLI);
        let rdy = rand_range_i64(-MILLI, MILLI);
        let dir = normalize_dir(Vec2i { x: rdx, y: rdy });
        enemies.push(Enemy { pos: Vec2i { x, y }, direction: dir, confined: Confined });
        i = i + 1;
    }
    enemies
}

/// The whole simulation state: exactly one player and the fixed enemy set.
pub struct Game {
    pub player: Player,
    pub enemies: Vec<Enemy>,
}

impl Game {
    /// Holds between frames: the enemy count is fixed, every enemy direction
    /// is unit length or zero, and every position is bounded.
    pub open spec fn wf(self) -> bool {
        self.enemies@.len() == ENEMY_MAX_COUNT && -POS_LIMIT <= self.player.pos.x <= POS_LIMIT
            && -POS_LIMIT <= self.player.pos.y <= POS_LIMIT && (forall|i: int|
            0 <= i < self.enemies@.len() ==> {
                let e = #[trigger] self.enemies@[i];
                unit_or_zero(e.direction) && -POS_LIMIT <= e.pos.x <= POS_LIMIT && -POS_LIMIT
                    <= e.pos.y <= POS_LIMIT
            })
    }

    /// Startup: the player at the origin and `ENEMY_MAX_COUNT` enemies spawned
    /// inside the window's inset rectangle.
    pub fn new(width: i64, height: i64) -> (g: Game)
        requires
            SPRITE_SIZE + 2 <= width <= MAX_WINDOW,
            SPRITE_SIZE + 2 <= height <= MAX_WINDOW,
        ensures
            g.wf(),
            g.player.pos.x == 0 && g.player.pos.y == 0,
            g.enemies@.len() == ENEMY_MAX_COUNT,
            forall|i: int|
                0 <= i < g.enemies@.len() ==> enemy_in_spawn_rect(
                    #[trigger] g.enemies@[i],
                    width as int,
                    height as int,
                ),
    {
        let player = spawn_player();
        let enemies = spawn_enemies(width, height);
        Game { player, enemies }
    }

    /// One frame of the update loop, in order: player movement, enemy
    /// movement, enemy direction update (using the positions already moved
    /// this frame), then confinement of every confined entity. After the
    /// frame, every position lies in the window's inset rectangle and every
    /// enemy direction is unit length or zero.
    pub fn update(&mut self, input: InputState, dt_ms: u64, width: i64, height: i64)
        requires
            old(self).wf(),
            dt_ms <= MAX_DT_MS,
            SPRITE_SIZE <= width <= MAX_WINDOW,
            SPRITE_SIZE <= height <= MAX_WINDOW,
        ensures
            final(self).wf(),
            final(self).enemies@.len() == old(self).enemies@.len(),
            ({
                let w = width as int;
                let h = height as int;
                let dx = input.dir_x() * (MILLI as int);
                let dy = input.dir_y() * (MILLI as int);
                let px = old(self).player.pos.x + displacement(
                    norm_coord(dx, dx, dy),
                    PLAYER_SPEED as int,
                    dt_ms as int,
                );
                let py = old(self).player.pos.y + displacement(
                    norm_coord(dy, dx, dy),
                    PLAYER_SPEED as int,
                    dt_ms as int,
                );
                final(self).player.pos.x == clamp_spec(px, inset_min(w), inset_max(w))
                    && final(self).player.pos.y == clamp_spec(py, inset_min(h), inset_max(h))
            }),
            inset_min(width as int) <= final(self).player.pos.x <= inset_max(width as int),
            inset_min(height as int) <= final(self).player.pos.y <= inset_max(height as int),
            forall|i: int|
                0 <= i < old(self).enemies@.len() ==> {
                    let w = width as int;
                    let h = height as int;
                    let e = #[trigger] old(self).enemies@[i];
                    let f = final(self).enemies@[i];
                    let mx = e.pos.x + displacement(
                        e.direction.x as int,
                        ENEMY_SPEED as int,
                        dt_ms as int,
                    );
                    let my = e.pos.y + displacement(
                        e.direction.y as int,
                        ENEMY_SPEED as int,
                        dt_ms as int,
                    );
                    let rx = reflect_coord(mx, e.direction.x as int, inset_min(w), inset_max(w));
                    let ry = reflect_coord(my, e.direction.y as int, inset_min(h), inset_max(h));
                    f.pos.x == clamp_spec(mx, inset_min(w), inset_max(w)) && f.pos.y == clamp_spec(
                        my,
                        inset_min(h),
                        inset_max(h),
                    ) && f.direction.x == norm_coord(rx, rx, ry) && f.direction.y == norm_coord(
                        ry,
                        rx,
                        ry,
                    )
                },
            forall|i: int|
                0 <= i < final(self).enemies@.len() ==> {
                    let f = #[trigger] final(self).enemies@[i];
                    inset_min(width as int) <= f.pos.x <= inset_max(width as int) && inset_min(
                        height as int,
                    ) <= f.pos.y <= inset_max(height as int) && unit_or_zero(f.direction)
                },
    {
        let ghost orig_player = self.player;
        let ghost orig_e = self.enemies@;
        let b = inset_bounds(width, height);
        player_movement(&mut self.player, input, dt_ms);
        let ghost moved_player = self.player;

        let mut k: usize = 0;
        while k < ENEMY_MAX_COUNT
            invariant
                self.player == moved_player,
                self.enemies@.len() == ENEMY_MAX_COUNT,
                orig_e.len() == ENEMY_MAX_COUNT,
                k <= ENEMY_MAX_COUNT,
                dt_ms <= MAX_DT_MS,
                forall|j: int|
                    0 <= j < orig_e.len() ==> unit_or_zero(#[trigger] orig_e[j].direction)
                        && -POS_LIMIT <= orig_e[j].pos.x <= POS_LIMIT && -POS_LIMIT
                        <= orig_e[j].pos.y <= POS_LIMIT,
                forall|j: int|
                    k <= j < ENEMY_MAX_COUNT ==> #[trigger] self.enemies@[j] == orig_e[j],
                forall|j: int|
                    0 <= j < k ==> {
                        let e = #[trigger] orig_e[j];
                        let f = self.enemies@[j];
                        f.direction == e.direction && f.pos.x == e.pos.x + displacement(
                            e.direction.x as int,
                            ENEMY_SPEED as int,
                            dt_ms as int,
                        ) && f.pos.y == e.pos.y + displacement(
                            e.direction.y as int,
                            ENEMY_SPEED as int,
                            dt_ms as int,
                        )
                    },
            decreases ENEMY_MAX_COUNT - k,
        {
            enemy_movement(&mut self.enemies[k], dt_ms);
            k = k + 1;
        }

        let ghost moved = self.enemies@;
        proof {
            assert forall|j: int| 0 <= j < moved.len() implies unit_or_zero(
                #[trigger] moved[j].direction,
            ) by {
                assert(moved[j].direction == orig_e[j].direction);
            }
        }
        let mut k: usize = 0;
        while k < ENEMY_MAX_COUNT
            invariant
                self.player == moved_player,
                self.enemies@.len() == ENEMY_MAX_COUNT,
                moved.len() == ENEMY_MAX_COUNT,
                k <= ENEMY_MAX_COUNT,
                b.wf(),
                forall|j: int|
                    0 <= j < moved.len() ==> unit_or_zero(#[trigger] moved[j].direction),
                forall|j: int| k <= j < ENEMY_MAX_COUNT ==> #[trigger] self.enemies@[j] == moved[j],
                forall|j: int|
                    0 <= j < k ==> {
                        let e = #[trigger] moved[j];
                        let f = self.enemies@[j];
                        let rx = reflect_coord(
                            e.pos.x as int,
                            e.direction.x as int,
                            b.x_min as int,
                            b.x_max as int,
                        );
                        let ry = reflect_coord(
                            e.pos.y as int,
                            e.direction.y as int,
                            b.y_min as int,
                            b.y_max as int,
                        );
                        f.pos == e.pos && f.direction.x == norm_coord(rx, rx, ry) && f.direction.y
                            == norm_coord(ry, rx, ry) && unit_or_zero(f.direction)
                    },
            decreases ENEMY_MAX_COUNT - k,
        {
            enemy_update_direction(&mut self.enemies[k], b);
            k = k + 1;
        }

        let ghost bounced = self.enemies@;
        confine_movement(&mut self.player.pos, b);
        let ghost conf_player = self.player;
        let mut k: usize = 0;
        while k < ENEMY_MAX_COUNT
            invariant
                self.player == conf_player,
                self.enemies@.len() == ENEMY_MAX_COUNT,
                bounced.len() == ENEMY_MAX_COUNT,
                k <= ENEMY_MAX_COUNT,
                b.wf(),
                forall|j: int| k <= j < ENEMY_MAX_COUNT ==> #[trigger] self.enemies@[j]
                    == bounced[j],
                forall|j: int|
                    0 <= j < k ==> {
                        let e = #[trigger] bounced[j];
                        let f = self.enemies@[j];
                        f.direction == e.direction && f.pos.x == clamp_spec(
                            e.pos.x as int,
                            b.x_min as int,
                            b.x_max as int,
                        ) && f.pos.y == clamp_spec(e.pos.y as int, b.y_min as int, b.y_max as int)
                            && b.x_min <= f.pos.x <= b.x_max && b.y_min <= f.pos.y <= b.y_max
                    },
            decreases ENEMY_MAX_COUNT - k,
        {
            confine_movement(&mut self.enemies[k].pos, b);
            k = k + 1;
        }

        proof {
            assert forall|i: int| 0 <= i < orig_e.len() implies {
                let w = width as int;
                let h = height as int;
                let e = #[trigger] orig_e[i];
                let f = self.enemies@[i];
                let mx = e.pos.x + displacement(
                    e.direction.x as int,
                    ENEMY_SPEED as int,
                    dt_ms as int,
                );
                let my = e.pos.y + displacement(
                    e.direction.y as int,
                    ENEMY_SPEED as int,
                    dt_ms as int,
                );
                let rx = reflect_coord(mx, e.direction.x as int, inset_min(w), inset_max(w));
                let ry = reflect_coord(my, e.direction.y as int, inset_min(h), inset_max(h));
                f.pos.x == clamp_spec(mx, inset_min(w), inset_max(w)) && f.pos.y == clamp_spec(
                    my,
                    inset_min(h),
                    inset_max(h),
                ) && f.direction.x == norm_coord(rx, rx, ry) && f.direction.y == norm_coord(
                    ry,
                    rx,
                    ry,
                ) && unit_or_zero(f.direction)
            } by {
                assert(moved[i].pos.x == orig_e[i].pos.x + displacement(
                    orig_e[i].direction.x as int,
                    ENEMY_SPEED as int,
                    dt_ms as int,
                ));
                assert(moved[i].direction == orig_e[i].direction);
                assert(bounced[i].pos == moved[i].pos);
                assert(self.enemies@[i].direction == bounced[i].direction);
            }
            assert forall|i: int| 0 <= i < self.enemies@.len() implies {
                let f = #[trigger] self.enemies@[i];
                inset_min(width as int) <= f.pos.x <= inset_max(width as int) && inset_min(
                    height as int,
                ) <= f.pos.y <= inset_max(height as int) && unit_or_zero(f.direction)
            } by {
                assert(self.enemies@[i].direction == bounced[i].direction);
                assert(unit_or_zero(moved[i].direction));
                assert(b.x_min <= self.enemies@[i].pos.x <= b.x_max);
                assert(b.y_min <= self.enemies@[i].pos.y <= b.y_max);
            }
        }
    }
}

} // verus!
