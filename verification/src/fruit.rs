//! Falling fruit: the two kinds, the fixed fall speed and box extent, and
//! the random spawn point at the top edge.
//!
//! Positions are in thousandths of a unit; time is in milliseconds.

use vstd::prelude::*;
use rand::Rng;

verus! {

/// Falling speed of a fruit, in thousandths of a unit per millisecond.
pub const FRUIT_SPEED: i64 = 300;

/// Full extent of a fruit's box on either axis.
pub const FRUIT_SIZE: i64 = 30_000;

/// Every fruit appears at this vertical position.
pub const SPAWN_Y: i64 = 350_000;

/// A fruit whose centre sinks below this line leaves the game uncaught.
pub const DESPAWN_Y: i64 = -400_000;

/// Fruit appear with a horizontal position in `[SPAWN_X_MIN, SPAWN_X_MAX)`.
pub const SPAWN_X_MIN: i64 = -380_000;

/// Upper end, itself excluded, of the horizontal spawn band.
pub const SPAWN_X_MAX: i64 = 380_000;

/// The two kinds of fruit.
#[derive(Clone, Copy, Debug, PartialEq, Eq, Structural)]
pub enum FruitKind {
    Banana,
    Grape,
}

/// One falling fruit: its kind and the centre of its box.
#[derive(Clone, Copy, Debug, PartialEq, Eq, Structural)]
pub struct Fruit {
    pub kind: FruitKind,
    pub x: i64,
    pub y: i64,
}

/// A fruit exactly as the spawner makes it: on the top line, inside the band.
pub open spec fn spawned_ok(f: Fruit) -> bool {
    &&& f.y == SPAWN_Y
    &&& SPAWN_X_MIN <= f.x < SPAWN_X_MAX
}

/// The positions a live fruit can hold: spawned inside the band and not yet
/// fallen past the despawn line.
pub open spec fn fruit_wf(f: Fruit) -> bool {
    &&& SPAWN_X_MIN <= f.x < SPAWN_X_MAX
    &&& DESPAWN_Y <= f.y <= SPAWN_Y
}

/// A fruit after falling for `dt` milliseconds: same kind, same column,
/// lower by speed times elapsed time.
pub open spec fn fallen_fruit(f: Fruit, dt: int) -> Fruit {
    Fruit { kind: f.kind, x: f.x, y: (f.y - FRUIT_SPEED * dt) as i64 }
}

/// A fruit outlives the frame when its new height is still at or above the
/// despawn line.
pub open spec fn stays_on_screen(f: Fruit, dt: int) -> bool {
    f.y - FRUIT_SPEED * dt >= DESPAWN_Y
}

/// The fruit collection after one frame of falling: fruit that would end
/// below the despawn line are gone; the rest keep kind and column and are
/// lower by exactly speed times elapsed time, in their old order.
pub open spec fn moved_fruits(fruits: Seq<Fruit>, dt: int) -> Seq<Fruit> {
    fruits.filter(|f: Fruit| stays_on_screen(f, dt)).map_values(|f: Fruit| fallen_fruit(f, dt))
}

/// Relies on rand::Rng::gen_range on an i64 range: the draw is uniform in
/// the half-open range `low..high`, and panics only when the range is empty.
#[verifier::external_body]
fn rand_range_i64(low: i64, high: i64) -> (r: i64)
    requires
        low < high,
    ensures
        low <= r < high,
{
    rand::thread_rng().gen_range(low..high)
}

impl FruitKind {
    /// A fruit kind drawn at random, uniformly over the two kinds.
    pub fn random() -> (k: FruitKind)
        ensures
            k == FruitKind::Banana || k == FruitKind::Grape,
    {
        if rand_range_i64(0, 2) == 0 {
            FruitKind::Grape
        } else {
            FruitKind::Banana
        }
    }
}

/// A random spawn point: x drawn uniformly from the spawn band, y fixed at
/// the top line.
pub fn random_position() -> (p: (i64, i64))
    ensures
        SPAWN_X_MIN <= p.0 < SPAWN_X_MAX,
        p.1 == SPAWN_Y,
{
    (rand_range_i64(SPAWN_X_MIN, SPAWN_X_MAX), SPAWN_Y)
}

} // verus!
