//! The simulation world: one snake, food items, statistics and the two
//! clocks, advanced frame by frame with a staged tick pipeline.

use vstd::prelude::*;

verus! {

use crate::HALF_MAP_HEIGHT;
use crate::HALF_MAP_WIDTH;
use crate::MEAT_CAP;
use crate::chain::Chain;
use crate::chain::anim_flag;
use crate::geometry::GridPos;
use crate::geometry::SnakeDirection;
use crate::geometry::wrap_pos_spec;
use crate::spatial::SpatialIndex;
use crate::tick::TickTimer;

/// A live food item: a unique identity, a cell, and a display hue in
/// degrees.
#[derive(Clone, Copy, Debug, PartialEq, Eq, Structural)]
pub struct Food {
    pub id: u64,
    pub pos: GridPos,
    pub color: i32,
}

/// Sent once when the snake's head is spawned; carries the head identity.
#[derive(Clone, Copy, Debug, PartialEq, Eq, Structural)]
pub struct SnakeSpawnedEvent(pub u64);

/// Sent when a snake head shares a cell with another tracked entity.
#[derive(Clone, Copy, Debug, PartialEq, Eq, Structural)]
pub struct SnakeCollisionEvent {
    pub snake: u64,
    pub other: u64,
    pub position: GridPos,
}

/// Sent when a snake head collides with a snake segment; fatal to the
/// round.
#[derive(Clone, Copy, Debug, PartialEq, Eq, Structural)]
pub struct SnakeCatastrophicEvent(pub u64);

/// Sent when a snake head collides with a food item, which is consumed.
#[derive(Clone, Copy, Debug, PartialEq, Eq, Structural)]
pub struct MeatEaten {
    pub snake: u64,
    pub position: GridPos,
    pub color: i32,
}

/// Round statistics; monotonically non-decreasing within a round and
/// reset on round start.
#[derive(Clone, Copy, Debug, PartialEq, Eq, Structural)]
pub struct PlayerStats {
    pub score: u32,
    pub food_eaten: u32,
    pub distance_traveled: u32,
}

impl Default for PlayerStats {
    /// A fresh round: everything at zero.
    fn default() -> (s: Self)
        ensures
            s == (PlayerStats { score: 0, food_eaten: 0, distance_traveled: 0 }),
    {
        PlayerStats { score: 0, food_eaten: 0, distance_traveled: 0 }
    }
}

/// The whole simulation state of one round.
pub struct World {
    pub chain: Chain,
    pub segment_ids: Vec<u64>,
    pub foods: Vec<Food>,
    pub next_id: u64,
    pub stats: PlayerStats,
    pub tick_timer: TickTimer,
    pub meat_timer: TickTimer,
}

/// The interior of the play field where food may spawn: one cell away
/// from every border.
pub open spec fn interior_spec(p: GridPos) -> bool {
    &&& -(HALF_MAP_WIDTH - 1) <= p.x <= HALF_MAP_WIDTH - 1
    &&& -(HALF_MAP_HEIGHT - 1) <= p.y <= HALF_MAP_HEIGHT - 1
}

impl World {
    /// Identity bookkeeping: one identity per segment, all identities
    /// pairwise distinct and below the allocation counter.
    pub open spec fn ids_ok(self) -> bool {
        &&& self.segment_ids@.len() == self.chain.segments@.len()
        &&& forall|i: int|
            0 <= i < self.segment_ids@.len() ==> #[trigger] self.segment_ids@[i] < self.next_id
        &&& forall|i: int, j: int|
            0 <= i < j < self.segment_ids@.len() ==> self.segment_ids@[i] != self.segment_ids@[j]
        &&& forall|i: int|
            0 <= i < self.foods@.len() ==> (#[trigger] self.foods@[i]).id < self.next_id
        &&& forall|i: int, j: int|
            0 <= i < j < self.foods@.len() ==> self.foods@[i].id != self.foods@[j].id
        &&& forall|i: int, j: int|
            0 <= i < self.segment_ids@.len() && 0 <= j < self.foods@.len()
                ==> self.segment_ids@[i] != self.foods@[j].id
    }

    /// Food sanity: never above the population cap, every item on the
    /// play field with a valid hue.
    pub open spec fn foods_ok(self) -> bool {
        &&& self.foods@.len() <= MEAT_CAP
        &&& forall|i: int| 0 <= i < self.foods@.len() ==> (#[trigger] self.foods@[i]).pos.in_bounds()
        &&& forall|i: int| 0 <= i < self.foods@.len() ==> 0 <= (#[trigger] self.foods@[i]).color <= 360
    }

    pub open spec fn wf(self) -> bool {
        &&& self.chain.wf()
        &&& self.ids_ok()
        &&& self.foods_ok()
        &&& self.tick_timer.wf()
        &&& self.meat_timer.wf()
    }

    /// Everything the spatial index tracks: all chain segments, then all
    /// food items, each under its identity.
    pub open spec fn entries_spec(self) -> Seq<(GridPos, u64)> {
        Seq::new(
            self.chain.segments@.len(),
            |i: int| (self.chain.seg(i).pos, self.segment_ids@[i]),
        ) + self.foods@.map_values(|f: Food| (f.pos, f.id))
    }

    /// Whether any live entity (segment or food) occupies the cell.
    pub open spec fn occupied_spec(self, p: GridPos) -> bool {
        ||| exists|i: int|
            0 <= i < self.chain.segments@.len() && (#[trigger] self.chain.seg(i)).pos == p
        ||| exists|i: int| 0 <= i < self.foods@.len() && (#[trigger] self.foods@[i]).pos == p
    }

    /// Round start: a lone head at the origin under identity 0, no food,
    /// fresh statistics, both clocks at zero.
    pub fn new() -> (r: (World, SnakeSpawnedEvent))
        ensures
            r.0.wf(),
            r.0.chain.segments@.len() == 1,
            r.0.chain.seg(0).pos == (GridPos { x: 0, y: 0 }),
            r.0.chain.direction == crate::geometry::SnakeDirection::Right,
            r.0.chain.buffer.queue@ == Seq::<crate::geometry::SnakeDirection>::empty(),
            r.0.segment_ids@ == seq![0u64],
            r.0.foods@ == Seq::<Food>::empty(),
            r.0.next_id == 1,
            r.0.stats == (PlayerStats { score: 0, food_eaten: 0, distance_traveled: 0 }),
            r.0.tick_timer.interval_ms == crate::TICK_INTERVAL_MS,
            r.0.tick_timer.elapsed_ms == 0 && !r.0.tick_timer.fired,
            r.0.meat_timer.interval_ms == crate::MEAT_SPAWN_INTERVAL_MS,
            r.0.meat_timer.elapsed_ms == 0 && !r.0.meat_timer.fired,
            r.1 == (SnakeSpawnedEvent(0)),
    {
        let chain = Chain::new();
        let mut segment_ids: Vec<u64> = Vec::new();
        segment_ids.push(0);
        proof {
            assert(segment_ids@ =~= seq![0u64]);
        }
        let world = World {
            chain,
            segment_ids,
            foods: Vec::new(),
            next_id: 1,
            stats: PlayerStats::default(),
            tick_timer: TickTimer::new(crate::TICK_INTERVAL_MS),
            meat_timer: TickTimer::new(crate::MEAT_SPAWN_INTERVAL_MS),
        };
        (world, SnakeSpawnedEvent(0))
    }

    /// Rebuild the spatial index from the committed world state: every
    /// segment and every food item under its identity, in that order.
    pub fn rebuild_index(&self) -> (index: SpatialIndex)
        requires
            self.wf(),
        ensures
            index.wf(),
            index.contents() == self.entries_spec(),
    {
        let mut index = SpatialIndex::new();
        let n = self.chain.len();
        let mut i: usize = 0;
        while i < n
            invariant
                self.wf(),
                0 <= i <= n,
                n == self.chain.segments@.len(),
                index.wf(),
                index.contents() =~= Seq::new(
                    i as nat,
                    |k: int| (self.chain.seg(k).pos, self.segment_ids@[k]),
                ),
            decreases n - i,
        {
            let pos = self.chain.segments[i].pos;
            let id = self.segment_ids[i];
            proof {
                assert forall|k: int| 0 <= k < index.contents().len() implies (
                #[trigger] index.contents()[k]).1 != id by {
                    assert(index.contents()[k].1 == self.segment_ids@[k]);
                }
            }
            index.insert(pos, id);
            proof {
                assert(index.contents() =~= Seq::new(
                    (i + 1) as nat,
                    |k: int| (self.chain.seg(k).pos, self.segment_ids@[k]),
                ));
            }
            i += 1;
        }
        let m = self.foods.len();
        let mut j: usize = 0;
        while j < m
            invariant
                self.wf(),
                0 <= j <= m,
                m == self.foods@.len(),
                n == self.chain.segments@.len(),
                index.wf(),
                index.contents() =~= Seq::new(
                    self.chain.segments@.len(),
                    |k: int| (self.chain.seg(k).pos, self.segment_ids@[k]),
                ) + self.foods@.take(j as int).map_values(|f: Food| (f.pos, f.id)),
            decreases m - j,
        {
            let f = self.foods[j];
            proof {
                let segs: int = self.chain.segments@.len() as int;
                assert forall|k: int| 0 <= k < index.contents().len() implies (
                #[trigger] index.contents()[k]).1 != f.id by {
                    if k < segs {
                        assert(index.contents()[k].1 == self.segment_ids@[k]);
                    } else {
                        assert(index.contents()[k].1 == self.foods@[k - segs].id);
                    }
                }
            }
            index.insert(f.pos, f.id);
            proof {
                assert(index.contents() =~= Seq::new(
                    self.chain.segments@.len(),
                    |k: int| (self.chain.seg(k).pos, self.segment_ids@[k]),
                ) + self.foods@.take(j + 1).map_values(|f: Food| (f.pos, f.id)));
            }
            j += 1;
        }
        proof {
            assert(self.foods@.take(m as int) =~= self.foods@);
            assert(index.contents() =~= self.entries_spec());
        }
        index
    }

    /// The head's committed cell.
    #[verifier::inline]
    pub open spec fn head_pos(self) -> GridPos {
        self.chain.seg(0).pos
    }

    /// The head's identity.
    #[verifier::inline]
    pub open spec fn head_id(self) -> u64 {
        self.segment_ids@[0]
    }

    /// Whether an identity belongs to one of the snake's segments.
    pub open spec fn is_segment_id(self, id: u64) -> bool {
        exists|i: int| 0 <= i < self.segment_ids@.len() && #[trigger] self.segment_ids@[i] == id
    }

    fn contains_segment_id(&self, id: u64) -> (r: bool)
        ensures
            r == self.is_segment_id(id),
    {
        let n = self.segment_ids.len();
        let mut i: usize = 0;
        while i < n
            invariant
                0 <= i <= n,
                n == self.segment_ids@.len(),
                forall|k: int| 0 <= k < i ==> #[trigger] self.segment_ids@[k] != id,
            decreases n - i,
        {
            if self.segment_ids[i] == id {
                return true;
            }
            i += 1;
        }
        false
    }

    /// Collision detector: query the spatial index within one cell of the
    /// head and keep exactly the occupants that share the head's cell and
    /// are not the head itself, in tracking order.
    pub fn snake_collision(&self, index: &SpatialIndex) -> (events: Vec<SnakeCollisionEvent>)
        requires
            self.wf(),
            index.wf(),
        ensures
            events@ == index.contents().filter(
                collision_pred(self.head_pos(), self.head_id()),
            ).map_values(mk_collision(self.head_id())),
            forall|k1: int, k2: int|
                0 <= k1 < k2 < events@.len() ==> (#[trigger] events@[k1]).other != (
                #[trigger] events@[k2]).other,
    {
        let hp = self.chain.segments[0].pos;
        let hid = self.segment_ids[0];
        let cand = index.within_distance(hp, 1);
        let mut events: Vec<SnakeCollisionEvent> = Vec::new();
        let n = cand.len();
        let mut i: usize = 0;
        while i < n
            invariant
                0 <= i <= n,
                n == cand@.len(),
                hp == self.head_pos(),
                hid == self.head_id(),
                events@ =~= cand@.take(i as int).filter(collision_pred(hp, hid)).map_values(
                    mk_collision(hid),
                ),
                forall|k1: int, k2: int|
                    0 <= k1 < k2 < cand@.len() ==> (#[trigger] cand@[k1]).1 != (
                    #[trigger] cand@[k2]).1,
                forall|k: int|
                    0 <= k < events@.len() ==> exists|j: int|
                        0 <= j < i && (#[trigger] events@[k]).other == cand@[j].1,
                forall|k1: int, k2: int|
                    0 <= k1 < k2 < events@.len() ==> (#[trigger] events@[k1]).other != (
                    #[trigger] events@[k2]).other,
            decreases n - i,
        {
            let ghost pre = events@;
            let e = cand[i];
            if e.1 != hid && e.0 == hp {
                events.push(SnakeCollisionEvent { snake: hid, other: e.1, position: e.0 });
            }
            proof {
                assert(cand@.take(i + 1) =~= cand@.take(i as int).push(e));
                cand@.take(i as int).lemma_filter_push(e, collision_pred(hp, hid));
                assert(events@ =~= cand@.take(i + 1).filter(collision_pred(hp, hid)).map_values(
                    mk_collision(hid),
                ));
                assert forall|k: int| 0 <= k < events@.len() implies exists|j: int|
                    0 <= j < i + 1 && (#[trigger] events@[k]).other == cand@[j].1 by {
                    if k < pre.len() {
                        assert(events@[k] == pre[k]);
                    } else {
                        assert(events@[k].other == cand@[i as int].1);
                    }
                }
                assert forall|k1: int, k2: int| 0 <= k1 < k2 < events@.len() implies (
                #[trigger] events@[k1]).other != (#[trigger] events@[k2]).other by {
                    if k2 == events@.len() - 1 && events@.len() > pre.len() {
                        let j1 = choose|j: int| 0 <= j < i && pre[k1].other == cand@[j].1;
                        assert(events@[k1].other == cand@[j1].1);
                        assert(events@[k2].other == cand@[i as int].1);
                    } else {
                        assert(events@[k1] == pre[k1] && events@[k2] == pre[k2]);
                    }
                }
            }
            i += 1;
        }
        proof {
            assert(cand@.take(n as int) =~= cand@);
            assert((hp.x - hp.x) * (hp.x - hp.x) + (hp.y - hp.y) * (hp.y - hp.y) == 0)
                by (nonlinear_arith);
            assert forall|e: (GridPos, u64)| #[trigger] collision_pred(hp, hid)(e) implies
                crate::spatial::near_pred(hp, 1)(e) by {
                assert(crate::spatial::dist2_spec(e.0, hp) == crate::spatial::dist2_spec(hp, hp));
            }
            lemma_filter_subsumed(
                index.contents(),
                crate::spatial::near_pred(hp, 1),
                collision_pred(hp, hid),
            );
        }
        events
    }

    /// Collision reducer: a collision whose other party is a snake
    /// segment is a catastrophe for that snake; collisions with food are
    /// left to the consumption path.
    pub fn snake_collision_with_snakes(&self, events: &Vec<SnakeCollisionEvent>) -> (cats: Vec<
        SnakeCatastrophicEvent,
    >)
        requires
            self.wf(),
        ensures
            cats@ == events@.filter(body_pred(*self)).map_values(mk_catastrophe()),
    {
        let mut cats: Vec<SnakeCatastrophicEvent> = Vec::new();
        let n = events.len();
        let mut i: usize = 0;
        while i < n
            invariant
                0 <= i <= n,
                n == events@.len(),
                cats@ =~= events@.take(i as int).filter(body_pred(*self)).map_values(
                    mk_catastrophe(),
                ),
            decreases n - i,
        {
            let ev = events[i];
            if self.contains_segment_id(ev.other) {
                cats.push(SnakeCatastrophicEvent(ev.snake));
            }
            proof {
                assert(events@.take(i + 1) =~= events@.take(i as int).push(ev));
                events@.take(i as int).lemma_filter_push(ev, body_pred(*self));
                assert(cats@ =~= events@.take(i + 1).filter(body_pred(*self)).map_values(
                    mk_catastrophe(),
                ));
            }
            i += 1;
        }
        proof {
            assert(events@.take(n as int) =~= events@);
        }
        cats
    }

    fn find_food(&self, id: u64) -> (r: Option<usize>)
        ensures
            r is None ==> find_food_idx(self.foods@, id) == -1,
            r is Some ==> 0 <= r->Some_0 < self.foods@.len() && self.foods@[
                r->Some_0 as int
            ].id == id && find_food_idx(self.foods@, id) == r->Some_0,
    {
        let n = self.foods.len();
        let mut i: usize = 0;
        while i < n
            invariant
                0 <= i <= n,
                n == self.foods@.len(),
                forall|j: int| 0 <= j < i ==> (#[trigger] self.foods@[j]).id != id,
            decreases n - i,
        {
            if self.foods[i].id == id {
                proof {
                    lemma_find_food_hit(self.foods@, id, i as int);
                }
                return Some(i);
            }
            i += 1;
        }
        proof {
            lemma_find_food_miss(self.foods@, id);
        }
        None
    }

    /// Consumption path: each collision event whose other party is a live
    /// food item consumes it — the item is despawned and exactly one
    /// MeatEaten with the event's cell and the item's hue is emitted;
    /// any other event changes nothing here.
    pub fn snake_collision_with_meat(&mut self, events: &Vec<SnakeCollisionEvent>) -> (eaten: Vec<
        MeatEaten,
    >)
        requires
            old(self).wf(),
        ensures
            final(self).wf(),
            final(self).chain == old(self).chain,
            final(self).segment_ids == old(self).segment_ids,
            final(self).next_id == old(self).next_id,
            final(self).stats == old(self).stats,
            final(self).tick_timer == old(self).tick_timer,
            final(self).meat_timer == old(self).meat_timer,
            final(self).foods@ == consume_meat_spec(old(self).foods@, events@).0,
            eaten@ == consume_meat_spec(old(self).foods@, events@).1,
            final(self).foods@.len() <= old(self).foods@.len(),
    {
        let n = events.len();
        let mut eaten: Vec<MeatEaten> = Vec::new();
        let mut k: usize = 0;
        proof {
            assert(events@.skip(0) =~= events@);
            assert(eaten@ + consume_meat_spec(self.foods@, events@).1 =~= consume_meat_spec(
                self.foods@,
                events@,
            ).1);
        }
        while k < n
            invariant
                0 <= k <= n,
                n == events@.len(),
                self.chain == old(self).chain,
                self.segment_ids == old(self).segment_ids,
                self.next_id == old(self).next_id,
                self.stats == old(self).stats,
                self.tick_timer == old(self).tick_timer,
                self.meat_timer == old(self).meat_timer,
                old(self).wf(),
                self.foods@.len() <= old(self).foods@.len(),
                forall|i: int|
                    0 <= i < self.foods@.len() ==> (#[trigger] self.foods@[i]).id < self.next_id,
                forall|i: int, j: int|
                    0 <= i < j < self.foods@.len() ==> self.foods@[i].id != self.foods@[j].id,
                forall|i: int, j: int|
                    0 <= i < self.segment_ids@.len() && 0 <= j < self.foods@.len()
                        ==> self.segment_ids@[i] != self.foods@[j].id,
                forall|i: int|
                    0 <= i < self.foods@.len() ==> (#[trigger] self.foods@[i]).pos.in_bounds(),
                forall|i: int|
                    0 <= i < self.foods@.len() ==> 0 <= (#[trigger] self.foods@[i]).color <= 360,
                consume_meat_spec(old(self).foods@, events@).0 == consume_meat_spec(
                    self.foods@,
                    events@.skip(k as int),
                ).0,
                consume_meat_spec(old(self).foods@, events@).1 =~= eaten@ + consume_meat_spec(
                    self.foods@,
                    events@.skip(k as int),
                ).1,
            decreases n - k,
        {
            let ev = events[k];
            let ghost pre_foods = self.foods@;
            let ghost pre_eaten = eaten@;
            proof {
                assert(events@.skip(k as int)[0] == events@[k as int]);
                assert(events@.skip(k as int).drop_first() =~= events@.skip(k as int + 1));
            }
            if let Some(j) = self.find_food(ev.other) {
                let f = self.foods[j];
                eaten.push(MeatEaten { snake: ev.snake, position: ev.position, color: f.color });
                self.foods.remove(j);
                proof {
                    assert(self.foods@ =~= pre_foods.remove(j as int));
                    assert(eaten@ =~= pre_eaten + seq![
                        MeatEaten { snake: ev.snake, position: ev.position, color: f.color },
                    ]);
                    assert(pre_eaten + consume_meat_spec(pre_foods, events@.skip(k as int)).1
                        =~= eaten@ + consume_meat_spec(self.foods@, events@.skip(k as int + 1)).1);
                    assert forall|i1: int, i2: int|
                        0 <= i1 < i2 < self.foods@.len() implies self.foods@[i1].id
                        != self.foods@[i2].id by {
                        let j1: int = if i1 < j { i1 } else { i1 + 1 };
                        let j2: int = if i2 < j { i2 } else { i2 + 1 };
                        assert(self.foods@[i1] == pre_foods[j1]);
                        assert(self.foods@[i2] == pre_foods[j2]);
                    }
                    assert forall|i: int| 0 <= i < self.foods@.len() implies {
                        &&& (#[trigger] self.foods@[i]).id < self.next_id
                        &&& self.foods@[i].pos.in_bounds()
                        &&& 0 <= self.foods@[i].color <= 360
                        &&& forall|i2: int|
                            0 <= i2 < self.segment_ids@.len() ==> #[trigger] self.segment_ids@[i2]
                                != self.foods@[i].id
                    } by {
                        if i < j {
                            assert(self.foods@[i] == pre_foods[i]);
                        } else {
                            assert(self.foods@[i] == pre_foods[i + 1]);
                        }
                    }
                }
            }
            k += 1;
        }
        proof {
            assert(events@.skip(n as int) =~= Seq::<SnakeCollisionEvent>::empty());
            assert(eaten@ + Seq::<MeatEaten>::empty() =~= eaten@);
        }
        eaten
    }

    /// Score keeper: one fixed reward and one count per eaten item,
    /// saturating at the counter limit; distance is untouched here.
    pub fn player_score_collector(&mut self, eaten_count: usize)
        requires
            old(self).wf(),
        ensures
            final(self).wf(),
            final(self).chain == old(self).chain,
            final(self).segment_ids == old(self).segment_ids,
            final(self).foods == old(self).foods,
            final(self).next_id == old(self).next_id,
            final(self).tick_timer == old(self).tick_timer,
            final(self).meat_timer == old(self).meat_timer,
            final(self).stats.score == sat_u32(
                old(self).stats.score + crate::MEAT_SCORE * eaten_count,
            ),
            final(self).stats.food_eaten == sat_u32(old(self).stats.food_eaten + eaten_count),
            final(self).stats.distance_traveled == old(self).stats.distance_traveled,
    {
        let mut i: usize = 0;
        while i < eaten_count
            invariant
                0 <= i <= eaten_count,
                self.chain == old(self).chain,
                self.segment_ids == old(self).segment_ids,
                self.foods == old(self).foods,
                self.next_id == old(self).next_id,
                self.tick_timer == old(self).tick_timer,
                self.meat_timer == old(self).meat_timer,
                old(self).wf(),
                self.stats.score == sat_u32(old(self).stats.score + crate::MEAT_SCORE * i),
                self.stats.food_eaten == sat_u32(old(self).stats.food_eaten + i),
                self.stats.distance_traveled == old(self).stats.distance_traveled,
            decreases eaten_count - i,
        {
            self.stats.score = self.stats.score.saturating_add(crate::MEAT_SCORE);
            self.stats.food_eaten = self.stats.food_eaten.saturating_add(1);
            i += 1;
        }
    }

    fn is_occupied(&self, p: GridPos) -> (r: bool)
        ensures
            r == self.occupied_spec(p),
    {
        let n = self.chain.len();
        let mut i: usize = 0;
        while i < n
            invariant
                0 <= i <= n,
                n == self.chain.segments@.len(),
                forall|k: int| 0 <= k < i ==> (#[trigger] self.chain.seg(k)).pos != p,
            decreases n - i,
        {
            if self.chain.segments[i].pos == p {
                return true;
            }
            i += 1;
        }
        let m = self.foods.len();
        let mut j: usize = 0;
        while j < m
            invariant
                0 <= j <= m,
                m == self.foods@.len(),
                forall|k: int|
                    0 <= k < self.chain.segments@.len() ==> (#[trigger] self.chain.seg(k)).pos
                        != p,
                forall|k: int| 0 <= k < j ==> (#[trigger] self.foods@[k]).pos != p,
            decreases m - j,
        {
            if self.foods[j].pos == p {
                return true;
            }
            j += 1;
        }
        false
    }

    /// The cells where food may spawn: every interior cell that no live
    /// entity occupies, in ascending order, column by column.
    pub fn free_cells(&self) -> (cells: Vec<GridPos>)
        requires
            self.wf(),
        ensures
            forall|p: GridPos| #[trigger] cells@.contains(p) <==> interior_spec(p)
                && !self.occupied_spec(p),
            cells@.len() <= 3871,
    {
        let mut cells: Vec<GridPos> = Vec::new();
        let hx = HALF_MAP_WIDTH - 1;
        let hy = HALF_MAP_HEIGHT - 1;
        let mut x: i32 = -hx;
        while x <= hx
            invariant
                self.wf(),
                hx == HALF_MAP_WIDTH - 1,
                hy == HALF_MAP_HEIGHT - 1,
                -hx <= x <= hx + 1,
                forall|p: GridPos| #[trigger] cells@.contains(p) <==> (interior_spec(p)
                    && !self.occupied_spec(p) && p.x < x),
                cells@.len() <= (x + 39) * 49,
            decreases hx + 1 - x,
        {
            let mut y: i32 = -hy;
            while y <= hy
                invariant
                    self.wf(),
                    hx == HALF_MAP_WIDTH - 1,
                    hy == HALF_MAP_HEIGHT - 1,
                    -hx <= x <= hx,
                    -hy <= y <= hy + 1,
                    forall|p: GridPos| #[trigger] cells@.contains(p) <==> (interior_spec(p)
                        && !self.occupied_spec(p) && (p.x < x || (p.x == x && p.y < y))),
                    cells@.len() <= (x + 39) * 49 + (y + 24),
                decreases hy + 1 - y,
            {
                let p = GridPos { x, y };
                let ghost pre = cells@;
                let occ = self.is_occupied(p);
                if !occ {
                    cells.push(p);
                }
                proof {
                    assert forall|q: GridPos| #[trigger] cells@.contains(q) <==> (interior_spec(q)
                        && !self.occupied_spec(q) && (q.x < x || (q.x == x && q.y < y + 1))) by {
                        if !occ {
                            vstd::seq_lib::lemma_seq_contains_after_push(pre, p, q);
                        }
                    }
                }
                y += 1;
            }
            proof {
                assert forall|q: GridPos| #[trigger] cells@.contains(q) <==> (interior_spec(q)
                    && !self.occupied_spec(q) && q.x < x + 1) by {}
            }
            x += 1;
        }
        cells
    }

    /// Spawn one food item at a free interior cell with the given hue,
    /// under a fresh identity.
    pub fn spawn_meat(&mut self, pos: GridPos, color: i32)
        requires
            old(self).wf(),
            old(self).foods@.len() < MEAT_CAP,
            interior_spec(pos),
            !old(self).occupied_spec(pos),
            0 <= color <= 360,
            old(self).next_id < u64::MAX,
        ensures
            final(self).wf(),
            final(self).chain == old(self).chain,
            final(self).segment_ids == old(self).segment_ids,
            final(self).stats == old(self).stats,
            final(self).tick_timer == old(self).tick_timer,
            final(self).meat_timer == old(self).meat_timer,
            final(self).foods@ == old(self).foods@.push(
                Food { id: old(self).next_id, pos, color },
            ),
            final(self).next_id == old(self).next_id + 1,
    {
        let f = Food { id: self.next_id, pos, color };
        self.foods.push(f);
        self.next_id = self.next_id + 1;
    }

    /// Food spawner: below the population cap, spawn one food item at a
    /// random free interior cell with a random hue under a fresh
    /// identity. At the cap, or with no free cell left, nothing spawns —
    /// a throttle, not an error.
    pub fn meat_spawner(&mut self)
        requires
            old(self).wf(),
            old(self).next_id < u64::MAX,
        ensures
            final(self).wf(),
            final(self).chain == old(self).chain,
            final(self).segment_ids == old(self).segment_ids,
            final(self).stats == old(self).stats,
            final(self).tick_timer == old(self).tick_timer,
            final(self).meat_timer == old(self).meat_timer,
            final(self).foods@.len() <= MEAT_CAP,
            old(self).foods@.len() >= MEAT_CAP ==> final(self).foods@ == old(self).foods@
                && final(self).next_id == old(self).next_id,
            old(self).foods@.len() < MEAT_CAP ==> {
                ||| (final(self).foods@ == old(self).foods@
                    && final(self).next_id == old(self).next_id
                    && (forall|p: GridPos| interior_spec(p) ==> old(self).occupied_spec(p)))
                ||| (exists|p: GridPos, c: i32|
                    interior_spec(p) && !old(self).occupied_spec(p) && 0 <= c <= 360
                        && final(self).foods@ == old(self).foods@.push(
                        Food { id: old(self).next_id, pos: p, color: c },
                    ) && final(self).next_id == old(self).next_id + 1)
            },
    {
        let count = self.foods.len();
        if count >= MEAT_CAP {
            return;
        }
        let cells = self.free_cells();
        if cells.len() == 0 {
            proof {
                assert forall|p: GridPos| interior_spec(p) implies self.occupied_spec(p) by {
                    if !self.occupied_spec(p) {
                        assert(cells@.contains(p));
                    }
                }
            }
            return;
        }
        let mut rng = crate::rng::thread_rng();
        let max_idx = cells.len() - 1;
        let k = crate::rng::gen_range_i32(&mut rng, 0, max_idx as i32);
        let pos = cells[k as usize];
        let hue = crate::rng::gen_range_i32(&mut rng, 0, 360);
        proof {
            assert(cells@.contains(cells@[k as int]));
        }
        self.spawn_meat(pos, hue);
    }

    /// Advance the world by one frame: scale the frame delta by the
    /// speed boost and feed both clocks, capture this frame's input, and
    /// when the game tick fires run the staged pipeline in order — apply
    /// one buffered direction, plan every segment, commit all planned
    /// positions with border wrap, count the travelled distance, step the
    /// growth controller, rebuild the spatial index, detect and classify
    /// collisions, consume collided food, collect the score, and arm the
    /// growth animator for eaten food. The food spawner runs on its own
    /// cadence, tick or no tick.
    pub fn frame(&mut self, delta_ms: u32, dir: Option<SnakeDirection>, boost: bool) -> (ev:
        FrameEvents)
        requires
            old(self).wf(),
            delta_ms <= 1000000,
            old(self).next_id + 2 <= u64::MAX,
        ensures
            final(self).wf(),
            ev.ticked == (old(self).tick_timer.elapsed_ms + delta_ms * (if boost {
                2int
            } else {
                1int
            }) >= old(self).tick_timer.interval_ms),
            !ev.ticked ==> final(self).chain.segments@ == old(self).chain.segments@
                && final(self).chain.direction == old(self).chain.direction
                && ev.collisions@.len() == 0 && ev.catastrophes@.len() == 0
                && ev.meat_eaten@.len() == 0,
            !ev.ticked ==> final(self).chain.buffer.queue@ == push_if_room(
                old(self).chain.buffer.queue@,
                dir,
            ),
            ev.ticked ==> {
                let q = push_if_room(old(self).chain.buffer.queue@, dir);
                &&& final(self).chain.direction == (if q.len() == 0 {
                    old(self).chain.direction
                } else if old(self).chain.direction.is_opposite_spec(q[0]) {
                    old(self).chain.direction
                } else {
                    q[0]
                })
                &&& final(self).chain.buffer.queue@ == (if q.len() == 0 {
                    q
                } else {
                    q.subrange(1, q.len() as int)
                })
            },
            ev.ticked ==> final(self).chain.segments@.len() == old(self).chain.segments@.len()
                + (if old(self).chain.tail_spawn_pending() {
                1int
            } else {
                0int
            }),
            // growth owed is conserved on the way: a tick that consumed
            // no food changes the pending spawn flags only by the one
            // flag the spawn phase turned into a segment
            ev.ticked && ev.meat_eaten@.len() == 0 ==> crate::chain::flag_count(
                final(self).chain,
            ) == crate::chain::flag_count(old(self).chain) - (if old(
                self,
            ).chain.tail_spawn_pending() {
                1int
            } else {
                0int
            }),
            // the head steps one cell along the applied direction and is
            // wrapped onto the play field
            ev.ticked ==> final(self).chain.seg(0).pos == wrap_pos_spec(
                GridPos {
                    x: (old(self).chain.seg(0).pos.x
                        + final(self).chain.direction.vector_spec().0) as i32,
                    y: (old(self).chain.seg(0).pos.y
                        + final(self).chain.direction.vector_spec().1) as i32,
                },
            ),
            // every other segment follows onto the pre-tick cell of its
            // forward neighbour, wrapped onto the play field
            ev.ticked ==> forall|i: int|
                1 <= i < old(self).chain.segments@.len() ==> (#[trigger] final(self).chain.seg(
                    i,
                )).pos == wrap_pos_spec(old(self).chain.seg(i - 1).pos),
            ev.ticked ==> final(self).stats.distance_traveled == sat_u32(
                old(self).stats.distance_traveled + 1,
            ),
            !ev.ticked ==> final(self).stats.distance_traveled == old(
                self,
            ).stats.distance_traveled,
            final(self).stats.score == sat_u32(
                old(self).stats.score + crate::MEAT_SCORE * ev.meat_eaten@.len(),
            ),
            final(self).stats.food_eaten == sat_u32(
                old(self).stats.food_eaten + ev.meat_eaten@.len(),
            ),
            final(self).foods@.len() <= MEAT_CAP,
    {
        let speed: u32 = if boost {
            2
        } else {
            1
        };
        self.tick_timer.tick(delta_ms * speed);
        self.meat_timer.tick(delta_ms);
        let ticked = self.tick_timer.just_finished();
        self.chain.buffer_input(dir);
        let mut ev = FrameEvents {
            ticked,
            collisions: Vec::new(),
            catastrophes: Vec::new(),
            meat_eaten: Vec::new(),
        };
        if ticked {
            let ghost c_in = self.chain;
            self.chain.apply_buffered_direction();
            let ghost c_app = self.chain;
            proof {
                assert(self.chain.tail_spawn_pending() == old(self).chain.tail_spawn_pending());
            }
            self.chain.plan_movement();
            let ghost c_plan = self.chain;
            proof {
                assert(self.chain.tail_spawn_pending() == old(self).chain.tail_spawn_pending());
            }
            self.chain.commit_movement();
            proof {
                assert(self.chain.tail_spawn_pending() == old(self).chain.tail_spawn_pending());
                assert(self.chain.all_committed());
                assert forall|i: int| 0 <= i < old(self).chain.len_spec() implies anim_flag(
                    (#[trigger] self.chain.seg(i)).animator,
                ) == anim_flag(old(self).chain.seg(i).animator) by {
                    assert(c_in.seg(i) == old(self).chain.seg(i));
                    assert(c_app.seg(i) == c_in.seg(i));
                    assert(c_plan.seg(i).animator == c_app.seg(i).animator);
                    assert(self.chain.seg(i).animator == c_plan.seg(i).animator);
                }
                crate::chain::lemma_equal_animators_equal_flags(old(self).chain, self.chain);
            }
            self.stats.distance_traveled = self.stats.distance_traveled.saturating_add(1);
            let ghost c_committed = self.chain;
            let spawned = self.chain.growth_spawn();
            proof {
                if spawned {
                    crate::chain::lemma_spawn_consumes_flag(c_committed, self.chain);
                } else {
                    crate::chain::lemma_equal_animators_equal_flags(c_committed, self.chain);
                }
            }
            if spawned {
                self.segment_ids.push(self.next_id);
                self.next_id = self.next_id + 1;
                proof {
                    let ids = self.segment_ids@;
                    assert forall|i: int, j: int| 0 <= i < j < ids.len() implies ids[i]
                        != ids[j] by {
                        if j < ids.len() - 1 {
                            assert(ids[i] == old(self).segment_ids@[i]);
                            assert(ids[j] == old(self).segment_ids@[j]);
                        } else {
                            assert(ids[j] == old(self).next_id);
                            assert(ids[i] == old(self).segment_ids@[i]);
                        }
                    }
                }
            }
            let ghost pre_spread = self.chain;
            self.chain.fat_spread();
            proof {
                crate::chain::lemma_spread_conserves_flags(pre_spread, self.chain);
                assert(self.ids_ok());
                assert(self.wf());
            }
            let index = self.rebuild_index();
            let collisions = self.snake_collision(&index);
            let catastrophes = self.snake_collision_with_snakes(&collisions);
            let eaten = self.snake_collision_with_meat(&collisions);
            self.player_score_collector(eaten.len());
            if eaten.len() > 0 {
                // one spawn-flagged animator per consumption burst: every
                // insert in the burst writes the same fresh animator
                self.chain.attach_fat_animator();
            }
            ev.collisions = collisions;
            ev.catastrophes = catastrophes;
            ev.meat_eaten = eaten;
        }
        if self.meat_timer.just_finished() {
            self.meat_spawner();
        }
        ev
    }
}

/// What one frame produced: whether the tick fired, and the events that
/// tick emitted, each drained by its consumer within the same frame.
pub struct FrameEvents {
    pub ticked: bool,
    pub collisions: Vec<SnakeCollisionEvent>,
    pub catastrophes: Vec<SnakeCatastrophicEvent>,
    pub meat_eaten: Vec<MeatEaten>,
}

/// One frame's input capture: the detected direction joins the backlog
/// unless the backlog is full.
pub open spec fn push_if_room(
    q: Seq<crate::geometry::SnakeDirection>,
    dir: Option<crate::geometry::SnakeDirection>,
) -> Seq<crate::geometry::SnakeDirection> {
    if dir is Some && q.len() < crate::INPUT_BUFFER_CAP {
        q.push(dir->Some_0)
    } else {
        q
    }
}

/// The occupants a collision is reported for: same cell as the head,
/// identity other than the head's.
pub open spec fn collision_pred(hp: GridPos, hid: u64) -> spec_fn((GridPos, u64)) -> bool {
    |e: (GridPos, u64)| e.0 == hp && e.1 != hid
}

/// The collision event built for one same-cell occupant.
pub open spec fn mk_collision(hid: u64) -> spec_fn((GridPos, u64)) -> SnakeCollisionEvent {
    |e: (GridPos, u64)| SnakeCollisionEvent { snake: hid, other: e.1, position: e.0 }
}

/// The collisions whose other party is a snake segment.
pub open spec fn body_pred(w: World) -> spec_fn(SnakeCollisionEvent) -> bool {
    |ev: SnakeCollisionEvent| w.is_segment_id(ev.other)
}

/// The catastrophe event built for one fatal collision.
pub open spec fn mk_catastrophe() -> spec_fn(SnakeCollisionEvent) -> SnakeCatastrophicEvent {
    |ev: SnakeCollisionEvent| SnakeCatastrophicEvent(ev.snake)
}

/// An unsigned count clipped to the u32 range.
pub open spec fn sat_u32(v: int) -> int {
    if v > u32::MAX {
        u32::MAX as int
    } else {
        v
    }
}

/// Index of the first food item carrying this identity, or -1 when no
/// live food item does.
pub open spec fn find_food_idx(foods: Seq<Food>, id: u64) -> int
    decreases foods.len(),
{
    if foods.len() == 0 {
        -1
    } else if foods[0].id == id {
        0
    } else {
        let r = find_food_idx(foods.drop_first(), id);
        if r == -1 {
            -1
        } else {
            r + 1
        }
    }
}

/// The collision events folded over the food population, oldest event
/// first: an event whose other party is a live food item consumes it —
/// the item is removed and exactly one MeatEaten with the event's cell
/// and the item's hue is emitted — and any other event changes nothing.
/// An identity consumed once is no longer live for later events.
pub open spec fn consume_meat_spec(foods: Seq<Food>, events: Seq<SnakeCollisionEvent>) -> (Seq<
    Food,
>, Seq<MeatEaten>)
    decreases events.len(),
{
    if events.len() == 0 {
        (foods, Seq::<MeatEaten>::empty())
    } else {
        let ev = events[0];
        let k = find_food_idx(foods, ev.other);
        if k >= 0 {
            let f = foods[k];
            let rec = consume_meat_spec(foods.remove(k), events.drop_first());
            (
                rec.0,
                seq![MeatEaten { snake: ev.snake, position: ev.position, color: f.color }]
                    + rec.1,
            )
        } else {
            consume_meat_spec(foods, events.drop_first())
        }
    }
}

proof fn lemma_find_food_hit(foods: Seq<Food>, id: u64, k: int)
    requires
        0 <= k < foods.len(),
        forall|j: int| 0 <= j < k ==> (#[trigger] foods[j]).id != id,
        foods[k].id == id,
    ensures
        find_food_idx(foods, id) == k,
    decreases k,
{
    if k > 0 {
        lemma_find_food_hit(foods.drop_first(), id, k - 1);
    }
}

proof fn lemma_find_food_miss(foods: Seq<Food>, id: u64)
    requires
        forall|j: int| 0 <= j < foods.len() ==> (#[trigger] foods[j]).id != id,
    ensures
        find_food_idx(foods, id) == -1,
    decreases foods.len(),
{
    if foods.len() > 0 {
        lemma_find_food_miss(foods.drop_first(), id);
    }
}

/// Filtering by a predicate that refines an earlier filter gives the same
/// result as filtering by the finer predicate alone.
proof fn lemma_filter_subsumed<A>(s: Seq<A>, p: spec_fn(A) -> bool, q: spec_fn(A) -> bool)
    requires
        forall|x: A| #[trigger] q(x) ==> p(x),
    ensures
        s.filter(p).filter(q) == s.filter(q),
    decreases s.len(),
{
    reveal(Seq::filter);
    if s.len() == 0 {
    } else {
        let rest = s.drop_last();
        lemma_filter_subsumed(rest, p, q);
        if p(s.last()) {
            rest.filter(p).lemma_filter_push(s.last(), q);
        }
    }
}

} // verus!
