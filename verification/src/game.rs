//! The tick-driven game state machine.
//!
//! One `GameState` holds the catalog, the live orders, the in-flight
//! projectiles, the score and the three periodic timers.  A frame advances
//! through `tick`, always in the same sequence: spawn triggers, motion,
//! despawn sweep, the player's match-attempts, then the overflow check that
//! loses the session when too many orders are pending at once.

use vstd::prelude::*;
use crate::catalog::{Catalog, IngredientId, RecipeStep, ToolId};
use crate::motion::{
    is_int_sqrt, spec_advance, spec_pos_x, spec_pos_y, throw_wf, Throw, DRIFT_OFFSET_RANGE,
    MAX_COORD,
};
use crate::order::ActiveOrder;

verus! {

/// More Pending orders than this lose the session.
pub const ORDER_LIMIT: usize = 7;

/// Longest tick the simulation accepts (milliseconds).
pub const MAX_DT_MS: u64 = 1_000_000;

/// Base period between order spawns (milliseconds).
pub const ORDER_PERIOD_BASE_MS: u64 = 10_000;

/// The order-spawn period never shrinks below this (milliseconds).
pub const ORDER_PERIOD_FLOOR_MS: u64 = 1_000;

/// The order-spawn period loses this much per score point (milliseconds).
pub const ORDER_PERIOD_STEP_MS: u64 = 50;

/// Base period between ingredient spawns (milliseconds).
pub const INGREDIENT_PERIOD_BASE_MS: u64 = 3_000;

/// The ingredient-spawn period never shrinks below this (milliseconds).
pub const INGREDIENT_PERIOD_FLOOR_MS: u64 = 300;

/// The ingredient-spawn period loses this much per score point (milliseconds).
pub const INGREDIENT_PERIOD_STEP_MS: u64 = 300;

/// Fixed period of the despawn sweep (milliseconds).
pub const DESPAWN_PERIOD_MS: u64 = 1_000;

/// Time-to-apex of a throw at score zero (milliseconds).
pub const APEX_TIME_BASE_MS: u64 = 5_000;

/// Time-to-apex lost per score point: throws get faster as the score
/// rises (milliseconds).
pub const APEX_TIME_STEP_MS: u64 = 100;

/// Time-to-apex never shrinks below this (milliseconds).
pub const APEX_TIME_FLOOR_MS: u64 = 100;

/// A match-attempt lands only within this distance of a projectile
/// (micro-units; fifty screen units).
pub const HIT_RADIUS: i64 = 50_000_000;

/// Projectiles spawn at least this far inside the left edge (micro-units).
pub const SPAWN_MARGIN: i64 = 25_000_000;

/// What became of one player action.
#[derive(Clone, Copy, PartialEq, Eq, Structural, Debug)]
pub enum ActionOutcome {
    /// No projectile lay within the hit radius; nothing changed.
    NoTarget,
    /// A projectile was taken and consumed, but its owning order owes no
    /// step for that (ingredient, tool) pair.
    NoMatchingStep,
    /// One remaining step of the owning order was consumed; more remain.
    StepMatched,
    /// The match consumed the order's last remaining step: the order is
    /// complete and leaves the active set with its projectiles.
    OrderCompleted(u64),
}

/// One discrete player action: a tool activated at a point of the play
/// area (world coordinates, micro-units).
#[derive(Clone, Copy, PartialEq, Eq, Structural, Debug)]
pub struct PlayerAction {
    /// The tool bound to the input that fired.
    pub tool: ToolId,
    /// Horizontal coordinate aimed at.
    pub x: i64,
    /// Vertical coordinate aimed at.
    pub y: i64,
}

/// An in-flight ingredient: which order it would contribute to, what it is,
/// and its frozen throw.
#[derive(Clone, Copy)]
pub struct Projectile {
    /// Key (`ActiveOrder::id`) of the live order this projectile belongs to.
    pub order_id: u64,
    /// The ingredient kind in flight.
    pub ingredient: IngredientId,
    /// Launch parameters and stopwatch.
    pub throw: Throw,
}

/// An accumulating timer that fires when its period has elapsed, then
/// starts over with a freshly supplied period.
#[derive(Clone, Copy)]
pub struct SpawnTimer {
    /// Milliseconds accumulated since the last firing.
    pub elapsed_ms: u64,
    /// The full period currently counted towards.
    pub period_ms: u64,
}

impl SpawnTimer {
    /// The timer's accumulation never reaches its (bounded) period between
    /// ticks.
    pub open spec fn wf(self) -> bool {
        &&& 1 <= self.period_ms <= ORDER_PERIOD_BASE_MS
        &&& self.elapsed_ms < self.period_ms
    }

    /// Accumulate `dt_ms`.  If the period is reached the timer fires:
    /// it resets to zero and adopts `next_period_ms` as its new period.
    pub fn step(&mut self, dt_ms: u64, next_period_ms: u64) -> (fired: bool)
        requires
            old(self).wf(),
            dt_ms <= MAX_DT_MS,
            1 <= next_period_ms <= ORDER_PERIOD_BASE_MS,
        ensures
            final(self).wf(),
            fired == (old(self).elapsed_ms + dt_ms >= old(self).period_ms),
            *final(self) == spec_timer_after(*old(self), dt_ms, next_period_ms),
    {
        let acc = self.elapsed_ms + dt_ms;
        if acc >= self.period_ms {
            self.period_ms = next_period_ms;
            self.elapsed_ms = 0;
            true
        } else {
            self.elapsed_ms = acc;
            false
        }
    }
}

/// The timer after accumulating `dt_ms`: reset onto `next_period_ms` if
/// its period was reached, otherwise simply further along.
pub open spec fn spec_timer_after(t: SpawnTimer, dt_ms: u64, next_period_ms: u64) -> SpawnTimer {
    if t.elapsed_ms + dt_ms >= t.period_ms {
        SpawnTimer { elapsed_ms: 0, period_ms: next_period_ms }
    } else {
        SpawnTimer { elapsed_ms: (t.elapsed_ms + dt_ms) as u64, period_ms: t.period_ms }
    }
}

/// Period between order spawns at the given score: the base period less
/// `ORDER_PERIOD_STEP_MS` per point, never below the floor.
pub open spec fn spec_order_period(score: u64) -> int {
    if ORDER_PERIOD_BASE_MS - ORDER_PERIOD_STEP_MS * (score as int)
        >= ORDER_PERIOD_FLOOR_MS {
        ORDER_PERIOD_BASE_MS - ORDER_PERIOD_STEP_MS * (score as int)
    } else {
        ORDER_PERIOD_FLOOR_MS as int
    }
}

/// Compute the order-spawn period for the given score.
pub fn order_period(score: u64) -> (p: u64)
    ensures
        p == spec_order_period(score),
        ORDER_PERIOD_FLOOR_MS <= p <= ORDER_PERIOD_BASE_MS,
{
    if score > (ORDER_PERIOD_BASE_MS - ORDER_PERIOD_FLOOR_MS) / ORDER_PERIOD_STEP_MS {
        ORDER_PERIOD_FLOOR_MS
    } else {
        ORDER_PERIOD_BASE_MS - ORDER_PERIOD_STEP_MS * score
    }
}

/// Period between ingredient spawns at the given score: the base period
/// less `INGREDIENT_PERIOD_STEP_MS` per point, never below the floor.
pub open spec fn spec_ingredient_period(score: u64) -> int {
    if INGREDIENT_PERIOD_BASE_MS - INGREDIENT_PERIOD_STEP_MS * (score as int)
        >= INGREDIENT_PERIOD_FLOOR_MS {
        INGREDIENT_PERIOD_BASE_MS - INGREDIENT_PERIOD_STEP_MS * (score as int)
    } else {
        INGREDIENT_PERIOD_FLOOR_MS as int
    }
}

/// Compute the ingredient-spawn period for the given score.
pub fn ingredient_period(score: u64) -> (p: u64)
    ensures
        p == spec_ingredient_period(score),
        INGREDIENT_PERIOD_FLOOR_MS <= p <= INGREDIENT_PERIOD_BASE_MS,
{
    if score > (INGREDIENT_PERIOD_BASE_MS - INGREDIENT_PERIOD_FLOOR_MS)
        / INGREDIENT_PERIOD_STEP_MS {
        INGREDIENT_PERIOD_FLOOR_MS
    } else {
        INGREDIENT_PERIOD_BASE_MS - INGREDIENT_PERIOD_STEP_MS * score
    }
}

/// Time-to-apex of a throw at the given score: the base less
/// `APEX_TIME_STEP_MS` per point — faster, harder throws as the score
/// rises — never below the floor.
pub open spec fn spec_apex_time(score: u64) -> int {
    if APEX_TIME_BASE_MS - APEX_TIME_STEP_MS * (score as int) >= APEX_TIME_FLOOR_MS {
        APEX_TIME_BASE_MS - APEX_TIME_STEP_MS * (score as int)
    } else {
        APEX_TIME_FLOOR_MS as int
    }
}

/// Compute the time-to-apex for the given score.
pub fn apex_time(score: u64) -> (t: u64)
    ensures
        t == spec_apex_time(score),
        APEX_TIME_FLOOR_MS <= t <= APEX_TIME_BASE_MS,
{
    if score > (APEX_TIME_BASE_MS - APEX_TIME_FLOOR_MS) / APEX_TIME_STEP_MS {
        APEX_TIME_FLOOR_MS
    } else {
        APEX_TIME_BASE_MS - APEX_TIME_STEP_MS * score
    }
}

/// There is a live order with this id.
pub open spec fn has_order(orders: Seq<ActiveOrder>, id: u64) -> bool {
    exists|i: int| 0 <= i < orders.len() && (#[trigger] orders[i]).id == id
}

/// No two live orders share an id.
pub open spec fn order_ids_unique(orders: Seq<ActiveOrder>) -> bool {
    forall|i: int, j: int|
        0 <= i < j < orders.len() ==> (#[trigger] orders[i]).id != (#[trigger] orders[j]).id
}

/// The index of the live order carrying this id.
pub open spec fn order_index(orders: Seq<ActiveOrder>, id: u64) -> int {
    choose|i: int| 0 <= i < orders.len() && (#[trigger] orders[i]).id == id
}

/// A score bumped by one completion, saturating at the machine limit.
pub open spec fn spec_bump(score: u64) -> u64 {
    if score < u64::MAX {
        (score + 1) as u64
    } else {
        score
    }
}

/// Squared distance between two points.
pub open spec fn spec_dist_sq(ax: int, ay: int, bx: int, by: int) -> int {
    (ax - bx) * (ax - bx) + (ay - by) * (ay - by)
}

/// Squared distance from a projectile's current position to a point.
pub open spec fn proj_dist_sq(p: Projectile, x: int, y: int) -> int {
    spec_dist_sq(spec_pos_x(p.throw), spec_pos_y(p.throw), x, y)
}

/// The whole live state of one game session.
pub struct GameState {
    /// The immutable game data.
    pub catalog: Catalog,
    /// Live (Pending) orders.
    pub orders: Vec<ActiveOrder>,
    /// Key handed to the next spawned order; never reused within a session.
    pub next_order_id: u64,
    /// In-flight ingredients.
    pub projectiles: Vec<Projectile>,
    /// Completed orders this session.
    pub score: u64,
    /// Periodic trigger for order spawns.
    pub order_timer: SpawnTimer,
    /// Periodic trigger for ingredient spawns.
    pub ingredient_timer: SpawnTimer,
    /// Periodic trigger for the despawn sweep.
    pub despawn_timer: SpawnTimer,
    /// Width of the play area (micro-units).
    pub width: i64,
    /// Height of the play area (micro-units).
    pub height: i64,
}

impl GameState {
    /// The projectile belongs to a live order, names a registered
    /// ingredient, and its throw is within the motion engine's bounds.
    pub open spec fn projectile_wf(self, p: Projectile) -> bool {
        &&& has_order(self.orders@, p.order_id)
        &&& p.ingredient.0 < self.catalog.n_ingredients()
        &&& throw_wf(p.throw)
    }

    /// The session invariant: a well-formed catalog with at least one
    /// recipe, well-formed orders with unique ids below the id counter,
    /// no orphaned projectile, and timers and bounds in range.
    pub open spec fn wf(self) -> bool {
        &&& self.catalog.wf()
        &&& self.catalog.recipes@.len() >= 1
        &&& order_ids_unique(self.orders@)
        &&& forall|i: int|
            0 <= i < self.orders@.len() ==> (#[trigger] self.orders@[i]).wf(self.catalog)
                && self.orders@[i].id < self.next_order_id
        &&& forall|i: int|
            0 <= i < self.projectiles@.len() ==> self.projectile_wf(
                #[trigger] self.projectiles@[i],
            )
        &&& self.order_timer.wf()
        &&& self.ingredient_timer.wf()
        &&& self.despawn_timer.wf()
        &&& 1 <= self.width <= MAX_COORD
        &&& 1 <= self.height <= MAX_COORD
    }

    /// The parts of the state that no tick ever changes.
    pub open spec fn same_config(self, other: GameState) -> bool {
        &&& self.catalog == other.catalog
        &&& self.width == other.width
        &&& self.height == other.height
    }

    /// Open a fresh session over the given catalog and play area.
    pub fn new(catalog: Catalog, width: i64, height: i64) -> (g: GameState)
        requires
            catalog.wf(),
            catalog.recipes@.len() >= 1,
            1 <= width <= MAX_COORD,
            1 <= height <= MAX_COORD,
        ensures
            g.wf(),
            g.catalog == catalog,
            g.width == width,
            g.height == height,
            g.score == 0,
            g.next_order_id == 0,
            g.orders@.len() == 0,
            g.projectiles@.len() == 0,
            g.order_timer == (SpawnTimer { elapsed_ms: 0, period_ms: ORDER_PERIOD_BASE_MS }),
            g.ingredient_timer == (SpawnTimer {
                elapsed_ms: 0,
                period_ms: INGREDIENT_PERIOD_BASE_MS,
            }),
            g.despawn_timer == (SpawnTimer { elapsed_ms: 0, period_ms: DESPAWN_PERIOD_MS }),
    {
        GameState {
            catalog,
            orders: Vec::new(),
            next_order_id: 0,
            projectiles: Vec::new(),
            score: 0,
            order_timer: SpawnTimer { elapsed_ms: 0, period_ms: ORDER_PERIOD_BASE_MS },
            ingredient_timer: SpawnTimer { elapsed_ms: 0, period_ms: INGREDIENT_PERIOD_BASE_MS },
            despawn_timer: SpawnTimer { elapsed_ms: 0, period_ms: DESPAWN_PERIOD_MS },
            width,
            height,
        }
    }

    /// Reset the score at the start of a session.
    pub fn reset_score(&mut self)
        ensures
            final(self).score == 0,
            final(self).orders == old(self).orders,
            final(self).projectiles == old(self).projectiles,
            final(self).next_order_id == old(self).next_order_id,
            final(self).order_timer == old(self).order_timer,
            final(self).ingredient_timer == old(self).ingredient_timer,
            final(self).despawn_timer == old(self).despawn_timer,
            final(self).same_config(*old(self)),
            old(self).wf() ==> final(self).wf(),
    {
        self.score = 0;
    }

    /// Advance every projectile's stopwatch by `dt_ms`; positions follow
    /// from the frozen throw parameters.
    pub fn advance_projectiles(&mut self, dt_ms: u64)
        requires
            old(self).wf(),
        ensures
            final(self).wf(),
            advance_rel(*old(self), *final(self), dt_ms),
    {
        let n = self.projectiles.len();
        let mut moved: Vec<Projectile> = Vec::new();
        let mut i: usize = 0;
        while i < n
            invariant
                i <= n,
                n == self.projectiles@.len(),
                *self == *old(self),
                old(self).wf(),
                moved@.len() == i,
                forall|k: int|
                    0 <= k < i ==> moved@[k] == (Projectile {
                        throw: spec_advance(old(self).projectiles@[k].throw, dt_ms),
                        ..old(self).projectiles@[k]
                    }),
            decreases n - i,
        {
            let mut p = self.projectiles[i];
            p.throw.advance(dt_ms);
            moved.push(p);
            i = i + 1;
        }
        self.projectiles = moved;
    }

    /// A projectile at or above the bottom boundary survives the sweep.
    pub open spec fn despawn_pred(self) -> spec_fn(Projectile) -> bool {
        |p: Projectile| spec_pos_y(p.throw) >= -((self.height as int) / 2)
    }

    /// Remove every projectile that has fallen below the bottom of the
    /// play area; all others stay, in order.
    pub fn despawn_sweep(&mut self)
        requires
            old(self).wf(),
        ensures
            final(self).wf(),
            sweep_rel(*old(self), *final(self)),
    {
        broadcast use vstd::seq_lib::group_filter_ensures;
        broadcast use Seq::lemma_filter_push;
        broadcast use Seq::lemma_filter_contains_rev;

        let ghost pred = old(self).despawn_pred();
        let floor = -(self.height / 2);
        let n = self.projectiles.len();
        let mut kept: Vec<Projectile> = Vec::new();
        let mut i: usize = 0;
        while i < n
            invariant
                i <= n,
                n == self.projectiles@.len(),
                *self == *old(self),
                old(self).wf(),
                floor == -((old(self).height as int) / 2),
                pred == old(self).despawn_pred(),
                kept@ == old(self).projectiles@.take(i as int).filter(pred),
            decreases n - i,
        {
            let p = self.projectiles[i];
            let y = p.throw.pos_y();
            proof {
                assert(old(self).projectiles@.take(i + 1) =~= old(self).projectiles@.take(
                    i as int,
                ).push(p));
                assert(pred(p) == (spec_pos_y(p.throw) >= -((old(self).height as int) / 2)));
                old(self).projectiles@.take(i as int).lemma_filter_push(p, pred);
            }
            if y >= floor {
                kept.push(p);
            }
            i = i + 1;
        }
        proof {
            assert(old(self).projectiles@.take(n as int) =~= old(self).projectiles@);
        }
        self.projectiles = kept;
        proof {
            let orig = old(self).projectiles@;
            assert forall|k: int| 0 <= k < self.projectiles@.len() implies self.projectile_wf(
                self.projectiles@[k],
            ) by {
                assert(orig.filter(pred).contains(orig.filter(pred)[k]));
                assert(orig.contains(orig.filter(pred)[k]));
                let w = choose|w: int| 0 <= w < orig.len() && orig[w] == orig.filter(pred)[k];
                assert(old(self).projectile_wf(orig[w]));
            }
        }
    }

    /// Hit resolution: scan the in-flight projectiles for the one nearest
    /// to `(x, y)` — ties broken in favour of the first encountered — and
    /// hand back its index if it lies within the hit radius.
    pub fn find_target(&self, x: i64, y: i64) -> (r: Option<usize>)
        requires
            self.wf(),
            -MAX_COORD <= x <= MAX_COORD,
            -MAX_COORD <= y <= MAX_COORD,
        ensures
            match r {
                Some(i) => is_hit_target(*self, i as int, x as int, y as int),
                None => forall|j: int|
                    0 <= j < self.projectiles@.len() ==> proj_dist_sq(
                        #[trigger] self.projectiles@[j],
                        x as int,
                        y as int,
                    ) > (HIT_RADIUS as int) * (HIT_RADIUS as int),
            },
    {
        let n = self.projectiles.len();
        let mut found = false;
        let mut best_i: usize = 0;
        let mut best_d: i128 = 0;
        let mut i: usize = 0;
        while i < n
            invariant
                i <= n,
                n == self.projectiles@.len(),
                self.wf(),
                -MAX_COORD <= x <= MAX_COORD,
                -MAX_COORD <= y <= MAX_COORD,
                !found ==> i == 0,
                found ==> best_i < i,
                found ==> best_d == proj_dist_sq(
                    self.projectiles@[best_i as int],
                    x as int,
                    y as int,
                ),
                found ==> forall|j: int|
                    0 <= j < i ==> proj_dist_sq(
                        #[trigger] self.projectiles@[j],
                        x as int,
                        y as int,
                    ) >= best_d,
                found ==> forall|j: int|
                    0 <= j < best_i ==> proj_dist_sq(
                        #[trigger] self.projectiles@[j],
                        x as int,
                        y as int,
                    ) > best_d,
            decreases n - i,
        {
            let p = self.projectiles[i];
            proof {
                assert(self.projectile_wf(self.projectiles@[i as int]));
                crate::motion::lemma_pos_bounds(p.throw);
            }
            let px = p.throw.pos_x();
            let py = p.throw.pos_y();
            let dx = px as i128 - x as i128;
            let dy = py as i128 - y as i128;
            proof {
                assert(0 <= dx * dx <= 250_000_000_000_000_000_000_000_000_000_000_000 && 0 <= dy
                    * dy <= 250_000_000_000_000_000_000_000_000_000_000_000) by (nonlinear_arith)
                    requires
                        -500_000_000_000_000_000 <= dx <= 500_000_000_000_000_000,
                        -500_000_000_000_000_000 <= dy <= 500_000_000_000_000_000,
                ;
            }
            let d = dx * dx + dy * dy;
            proof {
                assert(d == proj_dist_sq(self.projectiles@[i as int], x as int, y as int));
            }
            if !found || d < best_d {
                found = true;
                best_i = i;
                best_d = d;
            }
            i = i + 1;
        }
        if !found {
            return None;
        }
        if best_d <= (HIT_RADIUS as i128) * (HIT_RADIUS as i128) {
            Some(best_i)
        } else {
            None
        }
    }

    /// Resolve a match-attempt: the projectile at `proj_idx` is consumed
    /// (whether or not it satisfies anything), and its owning order gives
    /// up one remaining step equal to (projectile's ingredient, `tool`) if
    /// it owes one.  Consuming the last remaining step completes the
    /// order: it leaves the active set with its projectiles, and the score
    /// rises by one.
    pub fn resolve_match(&mut self, proj_idx: usize, tool: ToolId) -> (out: ActionOutcome)
        requires
            old(self).wf(),
            proj_idx < old(self).projectiles@.len(),
        ensures
            final(self).wf(),
            final(self).same_config(*old(self)),
            final(self).next_order_id == old(self).next_order_id,
            final(self).order_timer == old(self).order_timer,
            final(self).ingredient_timer == old(self).ingredient_timer,
            final(self).despawn_timer == old(self).despawn_timer,
            forall|idq: u64|
                !has_order(old(self).orders@, idq) ==> !(#[trigger] has_order(
                    final(self).orders@,
                    idq,
                )),
            match_effect(*old(self), *final(self), proj_idx as int, tool, out),
    {
        broadcast use vstd::seq_lib::group_to_multiset_ensures;

        let p = self.projectiles[proj_idx];
        self.projectiles.remove(proj_idx);
        let oi = match find_order(&self.orders, p.order_id) {
            Some(i) => i,
            None => {
                proof {
                    assert(old(self).projectile_wf(old(self).projectiles@[proj_idx as int]));
                }
                vstd::pervasive::unreached()
            },
        };
        proof {
            lemma_order_index_agrees(self.orders@, p.order_id, oi as int);
        }
        let mut order = self.orders.remove(oi);
        let ghost old_order = old(self).orders@[oi as int];
        let matched = order.consume_step(p.ingredient, tool);
        if !matched {
            self.orders.insert(oi, order);
            proof {
                assert(self.orders@ =~= old(self).orders@);
                lemma_remove_indexes(old(self).projectiles@, proj_idx as int);
                assert forall|k: int|
                    0 <= k < self.projectiles@.len() implies self.projectile_wf(
                    #[trigger] self.projectiles@[k],
                ) by {
                    let w = if k < proj_idx as int { k } else { (k + 1) as int };
                    assert(self.projectiles@[k] == old(self).projectiles@[w]);
                    assert(old(self).projectile_wf(old(self).projectiles@[w]));
                }
            }
            ActionOutcome::NoMatchingStep
        } else if order.remaining.len() == 0 {
            proof {
                assert(old_order.remaining@.to_multiset().len() == 1);
            }
            self.purge_order_projectiles(p.order_id);
            if self.score < u64::MAX {
                self.score = self.score + 1;
            }
            proof {
                let remaining_orders = self.orders@;
                assert forall|k: int|
                    0 <= k < remaining_orders.len() implies (#[trigger] remaining_orders[k]).wf(
                    self.catalog,
                ) && remaining_orders[k].id < self.next_order_id by {
                    if k < oi {
                        assert(remaining_orders[k] == old(self).orders@[k]);
                    } else {
                        assert(remaining_orders[k] == old(self).orders@[k + 1]);
                    }
                }
                assert(order_ids_unique(remaining_orders)) by {
                    assert forall|a: int, b: int|
                        0 <= a < b < remaining_orders.len() implies (
                        #[trigger] remaining_orders[a]).id != (#[trigger] remaining_orders[b]).id
                         by {
                        let a0 = if a < oi {
                            a
                        } else {
                            a + 1
                        };
                        let b0 = if b < oi {
                            b
                        } else {
                            b + 1
                        };
                        assert(remaining_orders[a] == old(self).orders@[a0]);
                        assert(remaining_orders[b] == old(self).orders@[b0]);
                    }
                }
                assert forall|idq: u64|
                    !has_order(old(self).orders@, idq) implies !(#[trigger] has_order(
                    remaining_orders,
                    idq,
                )) by {
                    if has_order(remaining_orders, idq) {
                        let w = choose|w: int|
                            0 <= w < remaining_orders.len() && (
                            #[trigger] remaining_orders[w]).id == idq;
                        let w0 = if w < oi as int {
                            w
                        } else {
                            w + 1
                        };
                        assert(remaining_orders[w] == old(self).orders@[w0]);
                        assert(has_order(old(self).orders@, idq));
                    }
                }
                assert(!has_order(remaining_orders, p.order_id)) by {
                    assert forall|w: int|
                        0 <= w < remaining_orders.len() implies (
                        #[trigger] remaining_orders[w]).id != p.order_id by {
                        let w0 = if w < oi {
                            w
                        } else {
                            w + 1
                        };
                        assert(remaining_orders[w] == old(self).orders@[w0]);
                        assert(w0 != oi);
                    }
                }
                let pre_purge = old(self).projectiles@.remove(proj_idx as int);
                lemma_remove_indexes(old(self).projectiles@, proj_idx as int);
                assert forall|k: int|
                    0 <= k < self.projectiles@.len() implies self.projectile_wf(
                    #[trigger] self.projectiles@[k],
                ) by {
                    let q = self.projectiles@[k];
                    assert(pre_purge.filter(other_order_pred(p.order_id)).contains(q));
                    pre_purge.lemma_filter_contains_rev(other_order_pred(p.order_id), q);
                    let w0 = choose|w0: int| 0 <= w0 < pre_purge.len() && pre_purge[w0] == q;
                    let w = if w0 < proj_idx as int { w0 } else { (w0 + 1) as int };
                    assert(q == old(self).projectiles@[w]);
                    assert(old(self).projectile_wf(old(self).projectiles@[w]));
                    assert(q.order_id != p.order_id);
                    let v = choose|v: int|
                        0 <= v < old(self).orders@.len() && (#[trigger] old(self).orders@[v]).id == q.order_id;
                    if v < oi {
                        assert(self.orders@[v] == old(self).orders@[v]);
                        assert(has_order(self.orders@, q.order_id));
                    } else {
                        assert(v != oi);
                        assert(self.orders@[v - 1] == old(self).orders@[v]);
                        assert(has_order(self.orders@, q.order_id));
                    }
                }
            }
            ActionOutcome::OrderCompleted(p.order_id)
        } else {
            self.orders.insert(oi, order);
            proof {
                assert(self.orders@ =~= old(self).orders@.update(oi as int, order));
                assert(old_order.remaining@.to_multiset().len() > 1);
                assert forall|idq: u64|
                    !has_order(old(self).orders@, idq) implies !(#[trigger] has_order(
                    self.orders@,
                    idq,
                )) by {
                    if has_order(self.orders@, idq) {
                        let w = choose|w: int|
                            0 <= w < self.orders@.len() && (#[trigger] self.orders@[w]).id == idq;
                        assert(self.orders@[w].id == old(self).orders@[w].id);
                        assert(has_order(old(self).orders@, idq));
                    }
                }
                assert forall|s: RecipeStep|
                    #[trigger] order.remaining@.to_multiset().count(s) <= self.catalog.recipes@[
                        old_order.recipe_idx as int
                    ].steps@.to_multiset().count(s) by {
                    assert(order.remaining@.to_multiset().count(s)
                        <= old_order.remaining@.to_multiset().count(s));
                    assert(old_order.remaining@.to_multiset().count(s) <= self.catalog.recipes@[
                        old_order.recipe_idx as int
                    ].steps@.to_multiset().count(s));
                }
                assert(order.wf(self.catalog));
                assert forall|k: int|
                    0 <= k < self.projectiles@.len() implies self.projectile_wf(
                    #[trigger] self.projectiles@[k],
                ) by {
                    lemma_remove_indexes(old(self).projectiles@, proj_idx as int);
                    let w = if k < proj_idx as int { k } else { (k + 1) as int };
                    assert(self.projectiles@[k] == old(self).projectiles@[w]);
                    assert(old(self).projectile_wf(old(self).projectiles@[w]));
                    let q = self.projectiles@[k];
                    let v = choose|v: int|
                        0 <= v < old(self).orders@.len() && (#[trigger] old(self).orders@[v]).id == q.order_id;
                    assert(self.orders@[v].id == old(self).orders@[v].id);
                    assert(has_order(self.orders@, q.order_id));
                }
            }
            ActionOutcome::StepMatched
        }
    }

    /// Remove every projectile owned by the order with this id; all others
    /// stay, in order.
    fn purge_order_projectiles(&mut self, id: u64)
        ensures
            final(self).projectiles@ == old(self).projectiles@.filter(other_order_pred(id)),
            final(self).orders == old(self).orders,
            final(self).catalog == old(self).catalog,
            final(self).score == old(self).score,
            final(self).next_order_id == old(self).next_order_id,
            final(self).order_timer == old(self).order_timer,
            final(self).ingredient_timer == old(self).ingredient_timer,
            final(self).despawn_timer == old(self).despawn_timer,
            final(self).width == old(self).width,
            final(self).height == old(self).height,
    {
        let ghost pred = other_order_pred(id);
        let n = self.projectiles.len();
        let mut kept: Vec<Projectile> = Vec::new();
        let mut i: usize = 0;
        while i < n
            invariant
                i <= n,
                n == self.projectiles@.len(),
                *self == *old(self),
                pred == other_order_pred(id),
                kept@ == old(self).projectiles@.take(i as int).filter(pred),
            decreases n - i,
        {
            let p = self.projectiles[i];
            proof {
                assert(old(self).projectiles@.take(i + 1) =~= old(self).projectiles@.take(
                    i as int,
                ).push(p));
                old(self).projectiles@.take(i as int).lemma_filter_push(p, pred);
            }
            if p.order_id != id {
                kept.push(p);
            }
            i = i + 1;
        }
        proof {
            assert(old(self).projectiles@.take(n as int) =~= old(self).projectiles@);
        }
        self.projectiles = kept;
    }

    /// One player action: the nearest projectile within the hit radius of
    /// the aimed point, if any, is matched against its owning order.  With
    /// no projectile in range the action is a miss and nothing changes.
    pub fn apply_action(&mut self, tool: ToolId, x: i64, y: i64) -> (out: ActionOutcome)
        requires
            old(self).wf(),
            -MAX_COORD <= x <= MAX_COORD,
            -MAX_COORD <= y <= MAX_COORD,
        ensures
            final(self).wf(),
            final(self).same_config(*old(self)),
            final(self).next_order_id == old(self).next_order_id,
            final(self).order_timer == old(self).order_timer,
            final(self).ingredient_timer == old(self).ingredient_timer,
            final(self).despawn_timer == old(self).despawn_timer,
            forall|idq: u64|
                !has_order(old(self).orders@, idq) ==> !(#[trigger] has_order(
                    final(self).orders@,
                    idq,
                )),
            apply_effect(*old(self), *final(self), tool, x as int, y as int, out),
            match out {
                ActionOutcome::NoTarget => *final(self) == *old(self) && (forall|j: int|
                    0 <= j < old(self).projectiles@.len() ==> proj_dist_sq(
                        #[trigger] old(self).projectiles@[j],
                        x as int,
                        y as int,
                    ) > (HIT_RADIUS as int) * (HIT_RADIUS as int)),
                ActionOutcome::NoMatchingStep => final(self).score == old(self).score && final(self).orders@ == old(self).orders@ && final(self).projectiles@.len() == old(self).projectiles@.len() - 1,
                ActionOutcome::StepMatched => final(self).score == old(self).score && final(self).orders@.len() == old(self).orders@.len(),
                ActionOutcome::OrderCompleted(id) => final(self).score == spec_bump(
                    old(self).score,
                ) && final(self).orders@.len() == old(self).orders@.len() - 1 && !has_order(
                    final(self).orders@,
                    id,
                ),
            },
    {
        match self.find_target(x, y) {
            None => ActionOutcome::NoTarget,
            Some(i) => {
                let out = self.resolve_match(i, tool);
                proof {
                    assert(is_hit_target(*old(self), i as int, x as int, y as int));
                    assert(match_effect(*old(self), *self, i as int, tool, out));
                }
                out
            },
        }
    }

    /// Order-spawn trigger: open a new order for a recipe picked uniformly
    /// at random from the catalog.  (At the machine limit of the id
    /// counter, no further order can be keyed and the spawn is skipped.)
    pub fn spawn_order(&mut self)
        requires
            old(self).wf(),
        ensures
            final(self).wf(),
            spawn_order_rel(*old(self), *final(self)),
    {
        if self.next_order_id == u64::MAX {
            return ;
        }
        let n = self.catalog.recipes.len();
        let ri = crate::rng::rand_below(n as u64) as usize;
        let o = ActiveOrder::start(self.next_order_id, ri, &self.catalog.recipes[ri]);
        self.orders.push(o);
        self.next_order_id = self.next_order_id + 1;
        proof {
            broadcast use vstd::seq_lib::group_to_multiset_ensures;

            assert(self.orders@.last().wf(self.catalog));
            assert forall|k: int|
                0 <= k < self.orders@.len() implies (#[trigger] self.orders@[k]).wf(self.catalog)
                && self.orders@[k].id < self.next_order_id by {
                if k < self.orders@.len() - 1 {
                    assert(self.orders@[k] == old(self).orders@[k]);
                    assert(old(self).orders@[k].wf(old(self).catalog));
                }
            }
            assert forall|k: int|
                0 <= k < self.projectiles@.len() implies self.projectile_wf(
                #[trigger] self.projectiles@[k],
            ) by {
                assert(old(self).projectile_wf(old(self).projectiles@[k]));
                let w = choose|w: int|
                    0 <= w < old(self).orders@.len() && (#[trigger] old(self).orders@[w]).id
                        == self.projectiles@[k].order_id;
                assert(self.orders@[w] == old(self).orders@[w]);
                assert(has_order(self.orders@, self.projectiles@[k].order_id));
            }
            assert forall|i: int, j: int|
                0 <= i < j < self.orders@.len() implies (#[trigger] self.orders@[i]).id != (
                #[trigger] self.orders@[j]).id by {
                if j < self.orders@.len() - 1 {
                    assert(self.orders@[i] == old(self).orders@[i]);
                    assert(self.orders@[j] == old(self).orders@[j]);
                } else {
                    assert(self.orders@[i] == old(self).orders@[i]);
                    assert(old(self).orders@[i].id < old(self).next_order_id);
                }
            }
        }
    }

    /// Ingredient-spawn trigger: pick a live order uniformly at random,
    /// pick a step uniformly at random from its *full* recipe (satisfied
    /// steps included, so the throw may be redundant), and launch a
    /// projectile of that step's ingredient from a random point along the
    /// bottom with a random lateral drift.  With no live order, nothing
    /// happens.
    pub fn spawn_projectile(&mut self)
        requires
            old(self).wf(),
        ensures
            final(self).wf(),
            spawn_projectile_rel(*old(self), *final(self)),
    {
        let n_orders = self.orders.len();
        if n_orders == 0 {
            return ;
        }
        let oi = crate::rng::rand_below(n_orders as u64) as usize;
        let order_id = self.orders[oi].id;
        let recipe_idx = self.orders[oi].recipe_idx;
        proof {
            assert(old(self).orders@[oi as int].wf(old(self).catalog));
        }
        let n_steps = self.catalog.recipes[recipe_idx].steps.len();
        if n_steps == 0 {
            return ;
        }
        let si = crate::rng::rand_below(n_steps as u64) as usize;
        let ingredient = self.catalog.recipes[recipe_idx].steps[si].ingredient;
        proof {
            assert(old(self).catalog.recipe_wf(old(self).catalog.recipes@[recipe_idx as int]));
            assert(old(self).catalog.step_wf(
                old(self).catalog.recipes@[recipe_idx as int].steps@[si as int],
            ));
        }
        let t_apex = apex_time(self.score) as i64;
        let h = self.height + self.height / 2;
        let off_raw = crate::rng::rand_below(2 * DRIFT_OFFSET_RANGE as u64);
        let offset = (off_raw as i64) - DRIFT_OFFSET_RANGE;
        let sx_raw = crate::rng::rand_below(self.width as u64);
        let sx = (sx_raw as i64) - self.width / 2 + SPAWN_MARGIN;
        let sy = -(self.height / 2);
        let th = crate::motion::make_throw(h, t_apex, offset, sx, sy);
        self.projectiles.push(Projectile { order_id, ingredient, throw: th });
    }

    /// The loss condition: with more than `ORDER_LIMIT` orders pending,
    /// every active order is cleared (no score awarded), the projectiles
    /// with them, and the session-loss signal is raised — once per
    /// overflow event, since afterwards nothing is pending.
    pub fn enforce_order_limit(&mut self) -> (lost: bool)
        requires
            old(self).wf(),
        ensures
            final(self).wf(),
            limit_rel(*old(self), *final(self), lost),
    {
        if self.orders.len() > ORDER_LIMIT {
            self.orders.clear();
            self.projectiles.clear();
            true
        } else {
            false
        }
    }

    /// Advance the simulation by one frame of `dt_ms` milliseconds with
    /// the player's actions for that frame, in the fixed order: spawn
    /// triggers, motion, despawn sweep, match-attempts, loss check.
    ///
    /// The score after the tick is exactly the score before plus one per
    /// completed order (up to the machine limit of the counter), and when
    /// the loss signal is raised the active set is empty.
    pub fn tick(&mut self, dt_ms: u64, actions: &Vec<PlayerAction>) -> (sig: TickSignals)
        requires
            old(self).wf(),
            dt_ms <= MAX_DT_MS,
            actions_in_bounds(actions@),
        ensures
            final(self).wf(),
            final(self).same_config(*old(self)),
            final(self).score as int == if old(self).score + sig.completed@.len() <= u64::MAX {
                old(self).score + sig.completed@.len()
            } else {
                u64::MAX as int
            },
            final(self).score >= old(self).score,
            sig.score == final(self).score,
            sig.loss ==> final(self).orders@.len() == 0 && final(self).projectiles@.len() == 0,
            !sig.loss ==> final(self).orders@.len() <= ORDER_LIMIT as int,
            forall|k: int|
                0 <= k < sig.completed@.len() ==> !has_order(
                    final(self).orders@,
                    #[trigger] sig.completed@[k],
                ),
            exists|s1: GameState, s2: GameState, s3: GameState, s4: GameState, s5: GameState|
                #![trigger order_spawn_phase(*old(self), s1, dt_ms), ingredient_spawn_phase(s1, s2, dt_ms), advance_rel(s2, s3, dt_ms), sweep_phase(s3, s4, dt_ms), actions_rel(s4, s5, actions@, sig.completed@)]
                {
                    &&& order_spawn_phase(*old(self), s1, dt_ms)
                    &&& ingredient_spawn_phase(s1, s2, dt_ms)
                    &&& advance_rel(s2, s3, dt_ms)
                    &&& sweep_phase(s3, s4, dt_ms)
                    &&& actions_rel(s4, s5, actions@, sig.completed@)
                    &&& limit_rel(s5, *final(self), sig.loss)
                },
    {
        let ghost g0 = *self;
        let np = order_period(self.score);
        let fired_orders = self.order_timer.step(dt_ms, np);
        proof {
            assert(*self == (GameState {
                order_timer: spec_timer_after(
                    g0.order_timer,
                    dt_ms,
                    spec_order_period(g0.score) as u64,
                ),
                ..g0
            }));
        }
        if fired_orders {
            self.spawn_order();
        }
        let ghost s1 = *self;
        proof {
            assert(order_spawn_phase(g0, s1, dt_ms));
        }
        let np = ingredient_period(self.score);
        let fired_ingredients = self.ingredient_timer.step(dt_ms, np);
        proof {
            assert(*self == (GameState {
                ingredient_timer: spec_timer_after(
                    s1.ingredient_timer,
                    dt_ms,
                    spec_ingredient_period(s1.score) as u64,
                ),
                ..s1
            }));
        }
        if fired_ingredients {
            self.spawn_projectile();
        }
        let ghost s2 = *self;
        proof {
            assert(ingredient_spawn_phase(s1, s2, dt_ms));
        }
        self.advance_projectiles(dt_ms);
        let ghost s3 = *self;
        let fired_sweep = self.despawn_timer.step(dt_ms, DESPAWN_PERIOD_MS);
        proof {
            assert(*self == (GameState {
                despawn_timer: spec_timer_after(s3.despawn_timer, dt_ms, DESPAWN_PERIOD_MS),
                ..s3
            }));
        }
        if fired_sweep {
            self.despawn_sweep();
        }
        let ghost s4 = *self;
        proof {
            assert(sweep_phase(s3, s4, dt_ms));
        }
        let ghost score0 = self.score;
        let mut completed: Vec<u64> = Vec::new();
        proof {
            assert(completed@ =~= Seq::<u64>::empty());
            assert(actions@.take(0) =~= Seq::<PlayerAction>::empty());
        }
        let n_actions = actions.len();
        let mut ai: usize = 0;
        while ai < n_actions
            invariant
                ai <= n_actions,
                n_actions == actions@.len(),
                actions_in_bounds(actions@),
                self.wf(),
                self.same_config(*old(self)),
                self.score as int == if score0 + completed@.len() <= u64::MAX {
                    score0 + completed@.len()
                } else {
                    u64::MAX as int
                },
                score0 <= self.score,
                forall|k: int|
                    0 <= k < completed@.len() ==> !has_order(
                        self.orders@,
                        #[trigger] completed@[k],
                    ),
                actions_rel(s4, *self, actions@.take(ai as int), completed@),
            decreases n_actions - ai,
        {
            let a = actions[ai];
            let ghost prev = *self;
            let ghost prev_completed = completed@;
            let out = self.apply_action(a.tool, a.x, a.y);
            match out {
                ActionOutcome::OrderCompleted(id) => {
                    completed.push(id);
                },
                _ => {},
            }
            proof {
                let acts1 = actions@.take(ai as int + 1);
                assert(acts1.drop_last() =~= actions@.take(ai as int));
                assert(acts1.last() == actions@[ai as int]);
                assert(action_rel(prev, *self, acts1.last(), out));
                match out {
                    ActionOutcome::OrderCompleted(idv) => {
                        assert(completed@.last() == idv);
                        assert(completed@.drop_last() =~= prev_completed);
                    },
                    _ => {},
                }
                assert(actions_rel(s4, prev, acts1.drop_last(), prev_completed));
                assert(actions_rel(s4, *self, acts1, completed@));
            }
            ai = ai + 1;
        }
        let ghost s5 = *self;
        proof {
            assert(actions@.take(n_actions as int) =~= actions@);
        }
        let loss = self.enforce_order_limit();
        let score = self.score;
        TickSignals { completed, loss, score }
    }

    /// Current position of one in-flight projectile.
    pub fn projectile_position(&self, i: usize) -> (pos: (i64, i64))
        requires
            self.wf(),
            i < self.projectiles@.len(),
        ensures
            pos.0 == spec_pos_x(self.projectiles@[i as int].throw),
            pos.1 == spec_pos_y(self.projectiles@[i as int].throw),
    {
        proof {
            assert(self.projectile_wf(self.projectiles@[i as int]));
        }
        let p = &self.projectiles[i];
        (p.throw.pos_x(), p.throw.pos_y())
    }
}

/// Neither timer of the state differs.
pub open spec fn same_timers(a: GameState, b: GameState) -> bool {
    &&& a.order_timer == b.order_timer
    &&& a.ingredient_timer == b.ingredient_timer
    &&& a.despawn_timer == b.despawn_timer
}

/// Everything one order-spawn does to the state: one new order keyed with
/// the next id, its remaining steps a full copy of some recipe of the
/// catalog; nothing else moves.  (At the machine limit of the id counter
/// the spawn is skipped.)
pub open spec fn spawn_order_rel(pre: GameState, post: GameState) -> bool {
    &&& post.same_config(pre)
    &&& post.score == pre.score
    &&& post.projectiles == pre.projectiles
    &&& same_timers(pre, post)
    &&& (pre.next_order_id == u64::MAX ==> post == pre)
    &&& (pre.next_order_id < u64::MAX ==> {
        &&& post.next_order_id == pre.next_order_id + 1
        &&& post.orders@.len() == pre.orders@.len() + 1
        &&& (forall|k: int|
            0 <= k < pre.orders@.len() ==> post.orders@[k] == pre.orders@[k])
        &&& ({
            let o = post.orders@.last();
            &&& o.id == pre.next_order_id
            &&& o.recipe_idx < pre.catalog.recipes@.len()
            &&& o.remaining@ == pre.catalog.recipes@[o.recipe_idx as int].steps@
        })
    })
}

/// Everything one ingredient-spawn does to the state: when a live order
/// exists whose recipe has steps, exactly one projectile is launched for
/// a step of some live order's full recipe, starting at the bottom with
/// the documented throw parameters; nothing else moves.
pub open spec fn spawn_projectile_rel(pre: GameState, post: GameState) -> bool {
    &&& post.same_config(pre)
    &&& post.orders == pre.orders
    &&& post.score == pre.score
    &&& post.next_order_id == pre.next_order_id
    &&& same_timers(pre, post)
    &&& (pre.orders@.len() == 0 ==> post.projectiles == pre.projectiles)
    &&& (pre.orders@.len() > 0 && (forall|i: int|
        0 <= i < pre.orders@.len() ==> pre.catalog.recipes@[(#[trigger] pre.orders@[i]).recipe_idx as int].steps@.len() > 0) ==> post.projectiles@.len() == pre.projectiles@.len() + 1)
    &&& pre.projectiles@.len() <= post.projectiles@.len() <= pre.projectiles@.len() + 1
    &&& (forall|k: int|
        0 <= k < pre.projectiles@.len() ==> post.projectiles@[k] == pre.projectiles@[k])
    &&& (post.projectiles@.len() == pre.projectiles@.len() + 1 ==> ({
        let p = post.projectiles@.last();
        let apex_h = pre.height as int + (pre.height as int) / 2;
        let apex_t = spec_apex_time(pre.score);
        &&& p.throw.elapsed_ms == 0
        &&& p.throw.y0 == -((pre.height as int) / 2)
        &&& -((pre.width as int) / 2) + SPAWN_MARGIN <= p.throw.x0 < pre.width as int - (
        pre.width as int) / 2 + SPAWN_MARGIN
        &&& p.throw.g as int == apex_h / (2 * apex_t * apex_t)
        &&& is_int_sqrt(p.throw.v as int, 2 * apex_h * (p.throw.g as int))
        &&& exists|oi: int|
            {
                &&& 0 <= oi < pre.orders@.len()
                &&& p.order_id == (#[trigger] pre.orders@[oi]).id
                &&& exists|si: int|
                    0 <= si < pre.catalog.recipes@[pre.orders@[oi].recipe_idx as int].steps@.len()
                        && p.ingredient == pre.catalog.recipes@[pre.orders@[oi].recipe_idx as int].steps@[si].ingredient
            }
    }))
}

/// Everything the motion pass does: every projectile's stopwatch advances
/// by `dt_ms` (saturating); nothing else moves.
pub open spec fn advance_rel(pre: GameState, post: GameState, dt_ms: u64) -> bool {
    &&& post.same_config(pre)
    &&& post.orders == pre.orders
    &&& post.score == pre.score
    &&& post.next_order_id == pre.next_order_id
    &&& same_timers(pre, post)
    &&& post.projectiles@.len() == pre.projectiles@.len()
    &&& (forall|i: int|
        0 <= i < pre.projectiles@.len() ==> post.projectiles@[i] == (Projectile {
            throw: spec_advance(pre.projectiles@[i].throw, dt_ms),
            ..pre.projectiles@[i]
        }))
}

/// Everything the despawn sweep does: exactly the projectiles at or above
/// the bottom boundary survive, in order; nothing else moves.
pub open spec fn sweep_rel(pre: GameState, post: GameState) -> bool {
    &&& post.same_config(pre)
    &&& post.orders == pre.orders
    &&& post.score == pre.score
    &&& post.next_order_id == pre.next_order_id
    &&& same_timers(pre, post)
    &&& post.projectiles@ == pre.projectiles@.filter(pre.despawn_pred())
}

/// Everything the loss check does: it fires exactly when more than
/// `ORDER_LIMIT` orders are pending, and then clears every order and
/// every projectile; otherwise nothing moves.
pub open spec fn limit_rel(pre: GameState, post: GameState, lost: bool) -> bool {
    &&& post.same_config(pre)
    &&& post.score == pre.score
    &&& post.next_order_id == pre.next_order_id
    &&& same_timers(pre, post)
    &&& lost == (pre.orders@.len() > ORDER_LIMIT as int)
    &&& (lost ==> post.orders@.len() == 0 && post.projectiles@.len() == 0)
    &&& (!lost ==> post == pre)
}

/// The order-spawn phase of a tick: the order timer accumulates `dt_ms`
/// (adopting the score-driven period when it fires), and a firing timer
/// spawns one order.
pub open spec fn order_spawn_phase(pre: GameState, post: GameState, dt_ms: u64) -> bool {
    let stepped = GameState {
        order_timer: spec_timer_after(
            pre.order_timer,
            dt_ms,
            spec_order_period(pre.score) as u64,
        ),
        ..pre
    };
    if pre.order_timer.elapsed_ms + dt_ms >= pre.order_timer.period_ms {
        spawn_order_rel(stepped, post)
    } else {
        post == stepped
    }
}

/// The ingredient-spawn phase of a tick: the ingredient timer accumulates
/// `dt_ms`, and a firing timer launches one projectile.
pub open spec fn ingredient_spawn_phase(pre: GameState, post: GameState, dt_ms: u64) -> bool {
    let stepped = GameState {
        ingredient_timer: spec_timer_after(
            pre.ingredient_timer,
            dt_ms,
            spec_ingredient_period(pre.score) as u64,
        ),
        ..pre
    };
    if pre.ingredient_timer.elapsed_ms + dt_ms >= pre.ingredient_timer.period_ms {
        spawn_projectile_rel(stepped, post)
    } else {
        post == stepped
    }
}

/// The sweep phase of a tick: the despawn timer accumulates `dt_ms`, and
/// a firing timer removes every projectile below the bottom boundary.
pub open spec fn sweep_phase(pre: GameState, post: GameState, dt_ms: u64) -> bool {
    let stepped = GameState {
        despawn_timer: spec_timer_after(pre.despawn_timer, dt_ms, DESPAWN_PERIOD_MS),
        ..pre
    };
    if pre.despawn_timer.elapsed_ms + dt_ms >= pre.despawn_timer.period_ms {
        sweep_rel(stepped, post)
    } else {
        post == stepped
    }
}

/// One player action of a tick, as `apply_effect` states it.
pub open spec fn action_rel(
    pre: GameState,
    post: GameState,
    a: PlayerAction,
    out: ActionOutcome,
) -> bool {
    apply_effect(pre, post, a.tool, a.x as int, a.y as int, out)
}

/// The action phase of a tick: the actions resolve one after another,
/// each against the state the previous one left, and `completed` lists
/// the key of every order they completed, in completion sequence.
pub open spec fn actions_rel(
    pre: GameState,
    post: GameState,
    actions: Seq<PlayerAction>,
    completed: Seq<u64>,
) -> bool
    decreases actions.len(),
{
    if actions.len() == 0 {
        &&& post == pre
        &&& completed == Seq::<u64>::empty()
    } else {
        exists|mid: GameState, out: ActionOutcome|
            #![trigger action_rel(mid, post, actions.last(), out)]
            {
                &&& action_rel(mid, post, actions.last(), out)
                &&& match out {
                    ActionOutcome::OrderCompleted(id) => {
                        &&& completed.len() >= 1
                        &&& completed.last() == id
                        &&& actions_rel(pre, mid, actions.drop_last(), completed.drop_last())
                    },
                    _ => actions_rel(pre, mid, actions.drop_last(), completed),
                }
            }
    }
}

/// Law: a projectile whose arc has fallen below the bottom boundary is
/// removed by the sweep and can never be selected again: every projectile
/// that survives a sweep sits at or above the boundary, and hit
/// resolution only ever scans — and `match_effect` only ever consumes —
/// projectiles of the live list.
pub proof fn lemma_sweep_removes_fallen(pre: GameState, post: GameState)
    requires
        sweep_rel(pre, post),
    ensures
        forall|k: int|
            0 <= k < post.projectiles@.len() ==> spec_pos_y(
                (#[trigger] post.projectiles@[k]).throw,
            ) >= -((pre.height as int) / 2),
{
    broadcast use vstd::seq_lib::group_filter_ensures;

    let pred = pre.despawn_pred();
    assert forall|k: int| 0 <= k < post.projectiles@.len() implies spec_pos_y(
        (#[trigger] post.projectiles@[k]).throw,
    ) >= -((pre.height as int) / 2) by {
        assert(pred(pre.projectiles@.filter(pred)[k]));
    }
}

/// More orders are pending than the session tolerates.
pub open spec fn overflow_pending(s: GameState) -> bool {
    s.orders@.len() > ORDER_LIMIT as int
}

/// Law: the session-loss signal fires exactly once per overflow event.
/// `enforce_order_limit` raises it only while the overflow is pending and
/// then clears every active order, so any state it has cleared — indeed
/// any state with no active orders — cannot trigger the signal again until
/// orders pile up anew.
pub proof fn lemma_loss_fires_once(cleared: GameState)
    requires
        cleared.orders@.len() == 0,
    ensures
        !overflow_pending(cleared),
{
}

/// Keeps the projectiles whose owner is not the given order.
pub open spec fn other_order_pred(id: u64) -> spec_fn(Projectile) -> bool {
    |q: Projectile| q.order_id != id
}

/// The projectile at index `i` is what hit resolution selects for an
/// action at `(x, y)`: within the hit radius, at minimal distance, and
/// first among the equally near.
pub open spec fn is_hit_target(s: GameState, i: int, x: int, y: int) -> bool {
    &&& 0 <= i < s.projectiles@.len()
    &&& proj_dist_sq(s.projectiles@[i], x, y) <= (HIT_RADIUS as int) * (HIT_RADIUS as int)
    &&& (forall|j: int|
        0 <= j < s.projectiles@.len() ==> proj_dist_sq(#[trigger] s.projectiles@[j], x, y)
            >= proj_dist_sq(s.projectiles@[i], x, y))
    &&& (forall|j: int|
        0 <= j < i ==> proj_dist_sq(#[trigger] s.projectiles@[j], x, y) > proj_dist_sq(
            s.projectiles@[i],
            x,
            y,
        ))
}

/// Everything a resolved match-attempt on the projectile at `proj_idx`
/// does to the state: the projectile is consumed either way; its owning
/// order gives up one instance of the attempted pair if it owes one, and
/// completes — leaving the active set with its projectiles, scoring one
/// point — when that was its last remaining step.
pub open spec fn match_effect(
    pre: GameState,
    post: GameState,
    proj_idx: int,
    tool: ToolId,
    out: ActionOutcome,
) -> bool {
    let p = pre.projectiles@[proj_idx];
    let pair = RecipeStep { ingredient: p.ingredient, tool };
    let oi = order_index(pre.orders@, p.order_id);
    let rem = pre.orders@[oi].remaining@.to_multiset();
    &&& post.same_config(pre)
    &&& post.next_order_id == pre.next_order_id
    &&& post.order_timer == pre.order_timer
    &&& post.ingredient_timer == pre.ingredient_timer
    &&& post.despawn_timer == pre.despawn_timer
    &&& match out {
        ActionOutcome::NoTarget => false,
        ActionOutcome::NoMatchingStep => {
            &&& !rem.contains(pair)
            &&& post.orders@ == pre.orders@
            &&& post.projectiles@ == pre.projectiles@.remove(proj_idx)
            &&& post.score == pre.score
        },
        ActionOutcome::StepMatched => {
            &&& rem.contains(pair)
            &&& rem.len() > 1
            &&& post.orders@.len() == pre.orders@.len()
            &&& post.orders@[oi].id == pre.orders@[oi].id
            &&& post.orders@[oi].recipe_idx == pre.orders@[oi].recipe_idx
            &&& post.orders@[oi].remaining@.to_multiset() == rem.remove(pair)
            &&& (forall|k: int|
                0 <= k < pre.orders@.len() && k != oi ==> post.orders@[k] == pre.orders@[k])
            &&& post.projectiles@ == pre.projectiles@.remove(proj_idx)
            &&& post.score == pre.score
        },
        ActionOutcome::OrderCompleted(id) => {
            &&& id == p.order_id
            &&& rem.contains(pair)
            &&& rem.len() == 1
            &&& post.orders@ == pre.orders@.remove(oi)
            &&& !has_order(post.orders@, id)
            &&& post.projectiles@ == pre.projectiles@.remove(proj_idx).filter(
                other_order_pred(id),
            )
            &&& post.score == spec_bump(pre.score)
        },
    }
}

/// Everything one player action does to the state: a miss leaves it
/// untouched, and any other outcome is a resolved match-attempt on the
/// projectile that hit resolution selects for `(x, y)`.
pub open spec fn apply_effect(
    pre: GameState,
    post: GameState,
    tool: ToolId,
    x: int,
    y: int,
    out: ActionOutcome,
) -> bool {
    match out {
        ActionOutcome::NoTarget => {
            &&& post == pre
            &&& (forall|j: int|
                0 <= j < pre.projectiles@.len() ==> proj_dist_sq(
                    #[trigger] pre.projectiles@[j],
                    x,
                    y,
                ) > (HIT_RADIUS as int) * (HIT_RADIUS as int))
        },
        _ => exists|i: int|
            (#[trigger] is_hit_target(pre, i, x, y)) && match_effect(pre, post, i, tool, out),
    }
}

/// Every coordinate aimed at lies within the coordinate bounds.
pub open spec fn actions_in_bounds(actions: Seq<PlayerAction>) -> bool {
    forall|i: int|
        0 <= i < actions.len() ==> -MAX_COORD <= (#[trigger] actions[i]).x <= MAX_COORD
            && -MAX_COORD <= actions[i].y <= MAX_COORD
}

/// The outbound signals of one tick.
pub struct TickSignals {
    /// Keys of the orders completed this tick, in completion sequence.
    pub completed: Vec<u64>,
    /// The session was lost this tick: too many unresolved orders.
    pub loss: bool,
    /// The score as the tick ended.
    pub score: u64,
}

/// Index of the live order carrying `id`, if any.
fn find_order(orders: &Vec<ActiveOrder>, id: u64) -> (r: Option<usize>)
    ensures
        match r {
            Some(i) => i < orders@.len() && orders@[i as int].id == id,
            None => !has_order(orders@, id),
        },
{
    let n = orders.len();
    let mut i: usize = 0;
    while i < n
        invariant
            i <= n,
            n == orders@.len(),
            forall|j: int| 0 <= j < i ==> (#[trigger] orders@[j]).id != id,
        decreases n - i,
    {
        if orders[i].id == id {
            return Some(i);
        }
        i = i + 1;
    }
    None
}

/// With unique ids, `order_index` picks exactly the index that carries the
/// id.
proof fn lemma_order_index_agrees(orders: Seq<ActiveOrder>, id: u64, i: int)
    requires
        order_ids_unique(orders),
        0 <= i < orders.len(),
        orders[i].id == id,
    ensures
        order_index(orders, id) == i,
{
    assert(has_order(orders, id));
    let c = order_index(orders, id);
    assert(0 <= c < orders.len() && orders[c].id == id);
    if c < i {
        assert(orders[c].id != orders[i].id);
    } else if c > i {
        assert(orders[i].id != orders[c].id);
    }
}

/// Removing one index shifts the later elements down by one and touches
/// nothing else.
proof fn lemma_remove_indexes<T>(s: Seq<T>, i: int)
    requires
        0 <= i < s.len(),
    ensures
        s.remove(i).len() == s.len() - 1,
        forall|k: int| 0 <= k < i ==> #[trigger] s.remove(i)[k] == s[k],
        forall|k: int| i <= k < s.remove(i).len() ==> #[trigger] s.remove(i)[k] == s[k + 1],
{
}

} // verus!
