//! The world state and the per-frame rules: catching, moving, despawning
//! and the interval-gated spawner.

use vstd::prelude::*;
use vstd::multiset::Multiset;
use crate::fruit::{
    Fruit, FruitKind, FRUIT_SIZE, SPAWN_Y, DESPAWN_Y, SPAWN_X_MIN, SPAWN_X_MAX, spawned_ok,
    fruit_wf, fallen_fruit, stays_on_screen, moved_fruits, random_position,
};
use crate::geometry::{spec_clamp, boxes_overlap, aabb_overlap};
use crate::player::{
    PLAYER_SPEED, PLAYER_CLAMP, PLAYER_Y, PLAYER_START_X, PLAYER_SIZE, net_direction,
    player_new_x,
};

verus! {

broadcast use vstd::seq_lib::group_filter_ensures;

/// Milliseconds between two spawns.
pub const SPAWN_INTERVAL_MS: i64 = 2_000;

/// The whole world: the score, the paddle's horizontal position, the live
/// fruit, and how long the spawner has waited since it last fired.
#[derive(Debug)]
pub struct Game {
    pub score: usize,
    pub player_x: i64,
    pub fruits: Vec<Fruit>,
    pub spawn_elapsed: i64,
}

/// The paddle standing at `player_x` catches a fruit exactly when their
/// boxes overlap with positive area.
pub open spec fn caught(player_x: int, f: Fruit) -> bool {
    boxes_overlap(
        player_x,
        PLAYER_Y as int,
        PLAYER_SIZE as int,
        PLAYER_SIZE as int,
        f.x as int,
        f.y as int,
        FRUIT_SIZE as int,
        FRUIT_SIZE as int,
    )
}

/// The fruit that slip past the paddle at `player_x`, in their old order.
pub open spec fn survivors_of(fruits: Seq<Fruit>, player_x: int) -> Seq<Fruit> {
    fruits.filter(|f: Fruit| !caught(player_x, f))
}

/// The fruit the paddle at `player_x` catches, in their old order.
pub open spec fn caught_of(fruits: Seq<Fruit>, player_x: int) -> Seq<Fruit> {
    fruits.filter(|f: Fruit| caught(player_x, f))
}

/// How often the spawner fires during a frame: once per full interval the
/// accumulator reaches.
pub open spec fn spawn_count(elapsed: int, dt: int) -> int {
    (elapsed + dt) / (SPAWN_INTERVAL_MS as int)
}

/// One frame's effect on the fruit already in play: the catch test runs on
/// the old positions, then the rest fall and those past the line leave.
pub open spec fn stepped_fruits(fruits: Seq<Fruit>, player_x: int, dt: int) -> Seq<Fruit> {
    moved_fruits(survivors_of(fruits, player_x), dt)
}

impl Game {
    /// What always holds of a game between frames: the paddle inside its
    /// clamp bound, the spawn accumulator short of the interval, and every
    /// fruit inside the band and between the top and the despawn line.
    pub open spec fn wf(self) -> bool {
        &&& -PLAYER_CLAMP <= self.player_x <= PLAYER_CLAMP
        &&& 0 <= self.spawn_elapsed < SPAWN_INTERVAL_MS
        &&& forall|i: int| 0 <= i < self.fruits@.len() ==> fruit_wf(#[trigger] self.fruits@[i])
    }

    /// A fresh game: no points, no fruit, the paddle at the centre, the
    /// spawner's accumulator empty.
    pub fn new() -> (g: Game)
        ensures
            g.wf(),
            g.score == 0,
            g.player_x == PLAYER_START_X,
            g.fruits@ == Seq::<Fruit>::empty(),
            g.spawn_elapsed == 0,
    {
        let g = Game { score: 0, player_x: PLAYER_START_X, fruits: Vec::new(), spawn_elapsed: 0 };
        proof {
            assert(g.fruits@ =~= Seq::<Fruit>::empty());
        }
        g
    }

    /// One frame of paddle movement: displace by speed times net direction
    /// times elapsed time, clamped to the canvas; with no net direction the
    /// paddle does not move. Nothing else changes.
    pub fn move_player(&mut self, left: bool, right: bool, dt: i64)
        requires
            old(self).wf(),
            0 <= dt,
        ensures
            final(self).wf(),
            final(self).player_x as int == spec_clamp(
                old(self).player_x + PLAYER_SPEED * net_direction(left, right) * dt,
                -PLAYER_CLAMP as int,
                PLAYER_CLAMP as int,
            ),
            net_direction(left, right) == 0 ==> final(self).player_x == old(self).player_x,
            final(self).score == old(self).score,
            final(self).fruits == old(self).fruits,
            final(self).spawn_elapsed == old(self).spawn_elapsed,
    {
        self.player_x = player_new_x(self.player_x, left, right, dt);
        proof {
            let nd = net_direction(left, right);
            if nd == 0 {
                assert(PLAYER_SPEED * nd * dt == 0) by (nonlinear_arith)
                    requires
                        nd == 0,
                ;
            }
        }
    }

    /// Spawn one fruit: a random kind at a random point on the top line.
    /// Everything already in play, the score and the accumulator stay as
    /// they are.
    pub fn create_fruits(&mut self)
        ensures
            final(self).fruits@.len() == old(self).fruits@.len() + 1,
            final(self).fruits@.drop_last() == old(self).fruits@,
            spawned_ok(final(self).fruits@.last()),
            final(self).score == old(self).score,
            final(self).player_x == old(self).player_x,
            final(self).spawn_elapsed == old(self).spawn_elapsed,
    {
        let kind = FruitKind::random();
        let (x, y) = random_position();
        self.fruits.push(Fruit { kind, x, y });
        proof {
            assert(self.fruits@.drop_last() =~= old(self).fruits@);
        }
    }

    /// One frame of the catch rule: every fruit whose box overlaps the
    /// paddle's is removed and scores exactly one point; the rest stay, in
    /// their old order and untouched.
    pub fn fruits_catch(&mut self)
        requires
            old(self).wf(),
            old(self).score + old(self).fruits@.len() <= usize::MAX,
        ensures
            final(self).wf(),
            final(self).fruits@ == survivors_of(old(self).fruits@, old(self).player_x as int),
            final(self).score == old(self).score + caught_of(
                old(self).fruits@,
                old(self).player_x as int,
            ).len(),
            final(self).player_x == old(self).player_x,
            final(self).spawn_elapsed == old(self).spawn_elapsed,
    {
        let ghost px: int = self.player_x as int;
        let mut kept: Vec<Fruit> = Vec::new();
        let mut i: usize = 0;
        while i < self.fruits.len()
            invariant
                i <= self.fruits@.len(),
                self.fruits == old(self).fruits,
                self.player_x == old(self).player_x,
                self.spawn_elapsed == old(self).spawn_elapsed,
                px == old(self).player_x as int,
                old(self).wf(),
                old(self).score + old(self).fruits@.len() <= usize::MAX,
                kept@ == survivors_of(old(self).fruits@.subrange(0, i as int), px),
                self.score == old(self).score + caught_of(
                    old(self).fruits@.subrange(0, i as int),
                    px,
                ).len(),
                forall|j: int| 0 <= j < kept@.len() ==> fruit_wf(#[trigger] kept@[j]),
            decreases self.fruits@.len() - i,
        {
            let f = self.fruits[i];
            proof {
                assert(old(self).fruits@.subrange(0, i as int + 1) =~= old(self).fruits@.subrange(
                    0,
                    i as int,
                ).push(f));
                lemma_catch_partition_push(old(self).fruits@.subrange(0, i as int), f, px);
            }
            if aabb_overlap(
                self.player_x,
                PLAYER_Y,
                PLAYER_SIZE,
                PLAYER_SIZE,
                f.x,
                f.y,
                FRUIT_SIZE,
                FRUIT_SIZE,
            ) {
                self.score = self.score + 1;
            } else {
                kept.push(f);
            }
            i = i + 1;
        }
        proof {
            assert(old(self).fruits@.subrange(0, old(self).fruits@.len() as int) =~= old(
                self,
            ).fruits@);
        }
        self.fruits = kept;
    }

    /// One frame of falling: every fruit sinks by speed times elapsed time;
    /// one that ends below the despawn line leaves the game with no other
    /// effect, the rest keep their kind and column, in their old order.
    pub fn move_fruits(&mut self, dt: i64)
        requires
            old(self).wf(),
            0 <= dt,
        ensures
            final(self).wf(),
            final(self).fruits@ == moved_fruits(old(self).fruits@, dt as int),
            final(self).score == old(self).score,
            final(self).player_x == old(self).player_x,
            final(self).spawn_elapsed == old(self).spawn_elapsed,
    {
        let mut kept: Vec<Fruit> = Vec::new();
        let mut i: usize = 0;
        while i < self.fruits.len()
            invariant
                i <= self.fruits@.len(),
                *self == *old(self),
                0 <= dt,
                old(self).wf(),
                kept@ == moved_fruits(old(self).fruits@.subrange(0, i as int), dt as int),
                forall|j: int| 0 <= j < kept@.len() ==> fruit_wf(#[trigger] kept@[j]),
            decreases self.fruits@.len() - i,
        {
            let f = self.fruits[i];
            let ny: i128 = f.y as i128 - 300 * (dt as i128);
            proof {
                assert(old(self).fruits@.subrange(0, i as int + 1) =~= old(self).fruits@.subrange(
                    0,
                    i as int,
                ).push(f));
                lemma_moved_push(old(self).fruits@.subrange(0, i as int), f, dt as int);
            }
            if ny >= DESPAWN_Y as i128 {
                kept.push(Fruit { kind: f.kind, x: f.x, y: ny as i64 });
            }
            i = i + 1;
        }
        proof {
            assert(old(self).fruits@.subrange(0, old(self).fruits@.len() as int) =~= old(
                self,
            ).fruits@);
        }
        self.fruits = kept;
    }

    /// One frame of the spawner: the accumulator gathers the elapsed time
    /// and the spawner fires once per full interval reached, each fire
    /// adding exactly one fruit at the top line; what remains of the
    /// accumulator is carried into the next frame.
    pub fn tick_spawner(&mut self, dt: i64)
        requires
            old(self).wf(),
            0 <= dt <= i64::MAX - SPAWN_INTERVAL_MS,
        ensures
            final(self).wf(),
            final(self).score == old(self).score,
            final(self).player_x == old(self).player_x,
            final(self).spawn_elapsed as int == (old(self).spawn_elapsed + dt) % (
            SPAWN_INTERVAL_MS as int),
            final(self).fruits@.len() == old(self).fruits@.len() + spawn_count(
                old(self).spawn_elapsed as int,
                dt as int,
            ),
            final(self).fruits@.subrange(0, old(self).fruits@.len() as int) == old(self).fruits@,
            forall|i: int|
                old(self).fruits@.len() <= i < final(self).fruits@.len() ==> spawned_ok(
                    #[trigger] final(self).fruits@[i],
                ),
    {
        let ghost total: int = old(self).spawn_elapsed + dt;
        let ghost n0: int = old(self).fruits@.len() as int;
        self.spawn_elapsed = self.spawn_elapsed + dt;
        while self.spawn_elapsed >= SPAWN_INTERVAL_MS
            invariant
                0 <= self.spawn_elapsed,
                self.score == old(self).score,
                self.player_x == old(self).player_x,
                old(self).wf(),
                n0 == old(self).fruits@.len() as int,
                self.fruits@.len() >= n0,
                self.spawn_elapsed + SPAWN_INTERVAL_MS * (self.fruits@.len() - n0) == total,
                self.fruits@.subrange(0, n0) == old(self).fruits@,
                forall|i: int|
                    n0 <= i < self.fruits@.len() ==> spawned_ok(#[trigger] self.fruits@[i]),
            decreases self.spawn_elapsed,
        {
            let ghost prev = self.fruits@;
            self.create_fruits();
            self.spawn_elapsed = self.spawn_elapsed - SPAWN_INTERVAL_MS;
            proof {
                assert forall|j: int| 0 <= j < n0 implies #[trigger] self.fruits@[j] == old(
                    self,
                ).fruits@[j] by {
                    assert(self.fruits@[j] == self.fruits@.drop_last()[j]);
                    assert(prev[j] == prev.subrange(0, n0)[j]);
                }
                assert(self.fruits@.subrange(0, n0) =~= old(self).fruits@);
                assert forall|i: int|
                    n0 <= i < self.fruits@.len() implies spawned_ok(
                    #[trigger] self.fruits@[i],
                ) by {
                    if i < self.fruits@.len() - 1 {
                        assert(self.fruits@[i] == self.fruits@.drop_last()[i]);
                        assert(self.fruits@.drop_last()[i] == prev[i]);
                    } else {
                        assert(self.fruits@[i] == self.fruits@.last());
                    }
                }
            }
        }
        proof {
            assert forall|i: int|
                0 <= i < self.fruits@.len() implies fruit_wf(#[trigger] self.fruits@[i]) by {
                if i < n0 {
                    assert(self.fruits@[i] == self.fruits@.subrange(0, n0)[i]);
                }
            }
            let k = self.fruits@.len() - n0;
            vstd::arithmetic::div_mod::lemma_fundamental_div_mod_converse_div(
                total,
                SPAWN_INTERVAL_MS as int,
                k,
                self.spawn_elapsed as int,
            );
            vstd::arithmetic::div_mod::lemma_fundamental_div_mod_converse_mod(
                total,
                SPAWN_INTERVAL_MS as int,
                k,
                self.spawn_elapsed as int,
            );
        }
    }

    /// One whole frame, in the game's order: the catch test on the old
    /// positions, then the paddle's move, then the fruits' fall, then the
    /// spawner. The score never goes down, and grows by exactly one per
    /// fruit caught this frame.
    pub fn update(&mut self, left: bool, right: bool, dt: i64)
        requires
            old(self).wf(),
            0 <= dt <= i64::MAX - SPAWN_INTERVAL_MS,
            old(self).score + old(self).fruits@.len() <= usize::MAX,
        ensures
            final(self).wf(),
            final(self).score == old(self).score + caught_of(
                old(self).fruits@,
                old(self).player_x as int,
            ).len(),
            final(self).score >= old(self).score,
            final(self).player_x as int == spec_clamp(
                old(self).player_x + PLAYER_SPEED * net_direction(left, right) * dt,
                -PLAYER_CLAMP as int,
                PLAYER_CLAMP as int,
            ),
            final(self).spawn_elapsed as int == (old(self).spawn_elapsed + dt) % (
            SPAWN_INTERVAL_MS as int),
            final(self).fruits@.len() == stepped_fruits(
                old(self).fruits@,
                old(self).player_x as int,
                dt as int,
            ).len() + spawn_count(old(self).spawn_elapsed as int, dt as int),
            final(self).fruits@.subrange(
                0,
                stepped_fruits(old(self).fruits@, old(self).player_x as int, dt as int).len() as int,
            ) == stepped_fruits(old(self).fruits@, old(self).player_x as int, dt as int),
            forall|i: int|
                stepped_fruits(old(self).fruits@, old(self).player_x as int, dt as int).len() <= i
                    < final(self).fruits@.len() ==> spawned_ok(#[trigger] final(self).fruits@[i]),
    {
        self.fruits_catch();
        self.move_player(left, right, dt);
        self.move_fruits(dt);
        self.tick_spawner(dt);
    }
}

/// Filtering a sequence and filtering the collection of its elements agree:
/// the filtered sequence holds exactly the passing elements, kept with
/// their multiplicities.
proof fn lemma_filter_to_multiset<A>(s: Seq<A>, pred: spec_fn(A) -> bool)
    ensures
        s.filter(pred).to_multiset() == s.to_multiset().filter(pred),
    decreases s.len(),
{
    broadcast use vstd::seq_lib::group_to_multiset_ensures;
    broadcast use vstd::multiset::group_multiset_axioms;

    reveal_with_fuel(Seq::filter, 2);
    if s.len() == 0 {
        assert(s =~= Seq::<A>::empty());
        assert(s.to_multiset() =~= Multiset::<A>::empty());
        assert(s.filter(pred).to_multiset() =~= s.to_multiset().filter(pred));
    } else {
        let t = s.drop_last();
        let l = s.last();
        lemma_filter_to_multiset(t, pred);
        assert(s =~= t.push(l));
        assert(s.to_multiset() =~= t.to_multiset().insert(l));
        if pred(l) {
            assert(s.filter(pred) == t.filter(pred).push(l));
            assert(s.filter(pred).to_multiset() =~= t.filter(pred).to_multiset().insert(l));
            assert(t.to_multiset().insert(l).filter(pred) =~= t.to_multiset().filter(pred).insert(
                l,
            ));
        } else {
            assert(s.filter(pred) == t.filter(pred));
            assert(t.to_multiset().insert(l).filter(pred) =~= t.to_multiset().filter(pred));
        }
    }
}

/// Law: one frame of the catch rule does not depend on the order the fruit
/// are processed in. Two arrangements of the same fruit leave the same
/// surviving fruit, as a collection, and score the same number of points.
pub proof fn lemma_catch_order_irrelevant(s1: Seq<Fruit>, s2: Seq<Fruit>, player_x: int)
    requires
        s1.to_multiset() == s2.to_multiset(),
    ensures
        survivors_of(s1, player_x).to_multiset() == survivors_of(s2, player_x).to_multiset(),
        caught_of(s1, player_x).len() == caught_of(s2, player_x).len(),
{
    broadcast use vstd::seq_lib::group_to_multiset_ensures;

    lemma_filter_to_multiset(s1, |f: Fruit| !caught(player_x, f));
    lemma_filter_to_multiset(s2, |f: Fruit| !caught(player_x, f));
    lemma_filter_to_multiset(s1, |f: Fruit| caught(player_x, f));
    lemma_filter_to_multiset(s2, |f: Fruit| caught(player_x, f));
    assert(caught_of(s1, player_x).len() == caught_of(s1, player_x).to_multiset().len());
    assert(caught_of(s2, player_x).len() == caught_of(s2, player_x).to_multiset().len());
}

/// How one more fruit extends the catch partition of a frame: a caught
/// fruit lengthens the caught side, any other the surviving side.
proof fn lemma_catch_partition_push(s: Seq<Fruit>, f: Fruit, player_x: int)
    ensures
        survivors_of(s.push(f), player_x) == (if caught(player_x, f) {
            survivors_of(s, player_x)
        } else {
            survivors_of(s, player_x).push(f)
        }),
        caught_of(s.push(f), player_x) == (if caught(player_x, f) {
            caught_of(s, player_x).push(f)
        } else {
            caught_of(s, player_x)
        }),
{
    reveal_with_fuel(Seq::filter, 2);
    let s1 = s.push(f);
    assert(s1.drop_last() =~= s);
    assert(s1.last() == f);
}

/// How one more fruit extends a frame of falling: it lands in the result
/// exactly when it stays above the despawn line.
proof fn lemma_moved_push(s: Seq<Fruit>, f: Fruit, dt: int)
    ensures
        moved_fruits(s.push(f), dt) == (if stays_on_screen(f, dt) {
            moved_fruits(s, dt).push(fallen_fruit(f, dt))
        } else {
            moved_fruits(s, dt)
        }),
{
    reveal_with_fuel(Seq::filter, 2);
    let s1 = s.push(f);
    assert(s1.drop_last() =~= s);
    assert(s1.last() == f);
    let keep = |g: Fruit| stays_on_screen(g, dt);
    let fall = |g: Fruit| fallen_fruit(g, dt);
    if stays_on_screen(f, dt) {
        assert(s1.filter(keep) == s.filter(keep).push(f));
        assert(s.filter(keep).push(f).map_values(fall) =~= s.filter(keep).map_values(fall).push(
            fallen_fruit(f, dt),
        ));
    } else {
        assert(s1.filter(keep) == s.filter(keep));
    }
}

} // verus!

