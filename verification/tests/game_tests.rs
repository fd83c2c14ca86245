use skillet::catalog::{Catalog, IngredientId, RecipeStep, ToolId};
use skillet::game::{
    apex_time, ingredient_period, order_period, ActionOutcome, GameState, PlayerAction,
    Projectile, HIT_RADIUS,
};
use skillet::motion::Throw;

const WIDTH: i64 = 720_000_000;
const HEIGHT: i64 = 480_000_000;

/// A catalog with one recipe: fried egg = [(egg, pan)].
fn egg_catalog() -> (Catalog, IngredientId, ToolId, ToolId) {
    let mut c = Catalog::new();
    let egg = c.add_ingredient("egg".to_string());
    let pan = c.add_tool("pan".to_string());
    let knife = c.add_tool("knife".to_string());
    c.add_recipe(
        "fried_egg".to_string(),
        vec![RecipeStep { ingredient: egg, tool: pan }],
    )
    .unwrap();
    (c, egg, pan, knife)
}

/// A catalog with one recipe: soup = [(potatoes,pot), (broth,pot), (garlic,knife)].
fn soup_catalog() -> (Catalog, [IngredientId; 3], ToolId, ToolId) {
    let mut c = Catalog::new();
    let potatoes = c.add_ingredient("potatoes".to_string());
    let broth = c.add_ingredient("broth".to_string());
    let garlic = c.add_ingredient("garlic".to_string());
    let knife = c.add_tool("knife".to_string());
    let pot = c.add_tool("pot".to_string());
    c.add_recipe(
        "soup".to_string(),
        vec![
            RecipeStep { ingredient: potatoes, tool: pot },
            RecipeStep { ingredient: broth, tool: pot },
            RecipeStep { ingredient: garlic, tool: knife },
        ],
    )
    .unwrap();
    (c, [potatoes, broth, garlic], knife, pot)
}

#[test]
fn fried_egg_scenario_completes_and_scores() {
    let (c, _egg, pan, _knife) = egg_catalog();
    let mut g = GameState::new(c, WIDTH, HEIGHT);
    g.spawn_order();
    assert_eq!(g.orders.len(), 1);
    g.spawn_projectile();
    assert_eq!(g.projectiles.len(), 1);
    let (px, py) = g.projectile_position(0);
    let out = g.apply_action(pan, px, py);
    assert_eq!(out, ActionOutcome::OrderCompleted(0));
    assert_eq!(g.score, 1);
    assert_eq!(g.orders.len(), 0);
    assert_eq!(g.projectiles.len(), 0);
}

#[test]
fn action_outside_hit_radius_is_a_miss() {
    let (c, _egg, pan, _knife) = egg_catalog();
    let mut g = GameState::new(c, WIDTH, HEIGHT);
    g.spawn_order();
    g.spawn_projectile();
    let (px, py) = g.projectile_position(0);
    let out = g.apply_action(pan, px + HIT_RADIUS + 1_000_000, py);
    assert_eq!(out, ActionOutcome::NoTarget);
    assert_eq!(g.projectiles.len(), 1);
    assert_eq!(g.orders.len(), 1);
    assert_eq!(g.score, 0);
}

#[test]
fn wrong_tool_consumes_projectile_but_no_step() {
    let (c, _egg, _pan, knife) = egg_catalog();
    let mut g = GameState::new(c, WIDTH, HEIGHT);
    g.spawn_order();
    g.spawn_projectile();
    let (px, py) = g.projectile_position(0);
    let out = g.apply_action(knife, px, py);
    assert_eq!(out, ActionOutcome::NoMatchingStep);
    assert_eq!(g.projectiles.len(), 0, "the ingredient is used up even on a wrong match");
    assert_eq!(g.orders.len(), 1);
    assert_eq!(g.orders[0].remaining.len(), 1);
    assert_eq!(g.score, 0);
}

#[test]
fn soup_steps_match_in_any_order_but_wrong_pairs_never_do() {
    let (c, [potatoes, broth, garlic], knife, pot) = soup_catalog();
    let mut g = GameState::new(c, WIDTH, HEIGHT);
    g.spawn_order();
    let order = &mut g.orders[0];

    // (knife, potatoes) is the wrong tool for every remaining step
    assert!(!order.consume_step(potatoes, knife));
    assert_eq!(order.remaining.len(), 3);

    // the two pot steps match, in whatever sequence
    assert!(order.consume_step(broth, pot));
    assert!(order.consume_step(potatoes, pot));
    assert_eq!(order.remaining.len(), 1);

    // still not complete: (garlic, knife) is owed, and nothing else matches
    assert!(!order.consume_step(potatoes, pot));
    assert!(!order.consume_step(garlic, pot));
    assert_eq!(order.remaining.len(), 1);

    assert!(order.consume_step(garlic, knife));
    assert_eq!(order.remaining.len(), 0);
}

#[test]
fn duplicate_steps_are_distinct_obligations() {
    let mut c = Catalog::new();
    let egg = c.add_ingredient("egg".to_string());
    let pan = c.add_tool("pan".to_string());
    c.add_recipe(
        "double_egg".to_string(),
        vec![
            RecipeStep { ingredient: egg, tool: pan },
            RecipeStep { ingredient: egg, tool: pan },
        ],
    )
    .unwrap();
    let mut g = GameState::new(c, WIDTH, HEIGHT);
    g.spawn_order();
    let order = &mut g.orders[0];
    assert!(order.consume_step(egg, pan));
    assert_eq!(order.remaining.len(), 1);
    assert!(order.consume_step(egg, pan));
    assert_eq!(order.remaining.len(), 0);
    assert!(!order.consume_step(egg, pan));
}

#[test]
fn eight_pending_orders_lose_the_session_once() {
    let (c, _egg, _pan, _knife) = egg_catalog();
    let mut g = GameState::new(c, WIDTH, HEIGHT);
    for _ in 0..8 {
        g.spawn_order();
    }
    assert_eq!(g.orders.len(), 8);
    let lost = g.enforce_order_limit();
    assert!(lost);
    assert_eq!(g.orders.len(), 0);
    assert_eq!(g.projectiles.len(), 0);
    // the signal does not fire again until orders pile up anew
    assert!(!g.enforce_order_limit());
}

#[test]
fn seven_pending_orders_are_tolerated() {
    let (c, _egg, _pan, _knife) = egg_catalog();
    let mut g = GameState::new(c, WIDTH, HEIGHT);
    for _ in 0..7 {
        g.spawn_order();
    }
    assert!(!g.enforce_order_limit());
    assert_eq!(g.orders.len(), 7);
}

#[test]
fn overflow_loss_through_tick() {
    let (c, _egg, _pan, _knife) = egg_catalog();
    let mut g = GameState::new(c, WIDTH, HEIGHT);
    for _ in 0..8 {
        g.spawn_order();
    }
    let sig = g.tick(0, &vec![]);
    assert!(sig.loss);
    assert_eq!(g.orders.len(), 0);
    assert_eq!(g.projectiles.len(), 0);
    assert_eq!(sig.completed.len(), 0);
}

#[test]
fn fallen_projectile_is_swept_and_unreachable() {
    let (c, egg, pan, _knife) = egg_catalog();
    let mut g = GameState::new(c, WIDTH, HEIGHT);
    g.spawn_order();
    let order_id = g.orders[0].id;
    // a projectile resting one full height below the bottom boundary
    g.projectiles.push(Projectile {
        order_id,
        ingredient: egg,
        throw: Throw { g: 0, v: 0, drift: 0, x0: 0, y0: -HEIGHT, elapsed_ms: 0 },
    });
    g.despawn_sweep();
    assert_eq!(g.projectiles.len(), 0);
    let out = g.apply_action(pan, 0, -HEIGHT / 2);
    assert_eq!(out, ActionOutcome::NoTarget);
}

#[test]
fn sweep_keeps_projectiles_on_the_boundary() {
    let (c, egg, _pan, _knife) = egg_catalog();
    let mut g = GameState::new(c, WIDTH, HEIGHT);
    g.spawn_order();
    let order_id = g.orders[0].id;
    g.projectiles.push(Projectile {
        order_id,
        ingredient: egg,
        throw: Throw { g: 0, v: 0, drift: 0, x0: 0, y0: -HEIGHT / 2, elapsed_ms: 0 },
    });
    g.despawn_sweep();
    assert_eq!(g.projectiles.len(), 1);
}

#[test]
fn nearest_projectile_wins_and_ties_go_first() {
    let (c, egg, _pan, _knife) = egg_catalog();
    let mut g = GameState::new(c, WIDTH, HEIGHT);
    g.spawn_order();
    let order_id = g.orders[0].id;
    let at = |x0: i64| Projectile {
        order_id,
        ingredient: egg,
        throw: Throw { g: 0, v: 0, drift: 0, x0, y0: 0, elapsed_ms: 0 },
    };
    g.projectiles.push(at(10_000_000));
    g.projectiles.push(at(10_000_000));
    g.projectiles.push(at(1_000_000));
    // index 2 is strictly nearest to the origin
    assert_eq!(g.find_target(0, 0), Some(2));
    // between the two equidistant ones, the first encountered wins
    assert_eq!(g.find_target(10_000_000, 0), Some(0));
    // far away from all three: no target
    assert_eq!(g.find_target(300_000_000, 0), None);
}

#[test]
fn tick_spawns_orders_and_projectiles_on_schedule() {
    let (c, egg, _pan, _knife) = egg_catalog();
    let mut g = GameState::new(c, WIDTH, HEIGHT);
    let sig = g.tick(10_000, &vec![]);
    assert!(!sig.loss);
    assert_eq!(sig.score, 0);
    // the order-spawn trigger fired: one order, its remaining steps a full
    // copy of the recipe
    assert_eq!(g.orders.len(), 1);
    assert_eq!(g.orders[0].remaining.len(), 1);
    assert_eq!(g.orders[0].remaining[0].ingredient, egg);
    // the ingredient trigger fired too; with the score still at zero the
    // throw arcs slowly (five seconds to apex) and is still in view after
    // ten simulated seconds, so the sweep kept it
    assert_eq!(g.projectiles.len(), 1);
    assert_eq!(g.projectiles[0].throw.elapsed_ms, 10_000);
}

#[test]
fn tick_resolves_actions_against_current_state() {
    let (c, egg, pan, _knife) = egg_catalog();
    let mut g = GameState::new(c, WIDTH, HEIGHT);
    g.spawn_order();
    let order_id = g.orders[0].id;
    g.projectiles.push(Projectile {
        order_id,
        ingredient: egg,
        throw: Throw { g: 0, v: 0, drift: 0, x0: 0, y0: 0, elapsed_ms: 0 },
    });
    let actions = vec![PlayerAction { tool: pan, x: 0, y: 0 }];
    let sig = g.tick(0, &actions);
    assert_eq!(sig.completed, vec![order_id]);
    assert_eq!(sig.score, 1);
    assert_eq!(g.score, 1);
    assert!(!sig.loss);
}

#[test]
fn spawn_cadence_accelerates_with_score_and_is_floored() {
    assert_eq!(order_period(0), 10_000);
    assert_eq!(order_period(100), 5_000);
    assert_eq!(order_period(180), 1_000);
    assert_eq!(order_period(10_000), 1_000);
    assert_eq!(ingredient_period(0), 3_000);
    assert_eq!(ingredient_period(5), 1_500);
    assert_eq!(ingredient_period(9), 300);
    assert_eq!(ingredient_period(50), 300);
    assert_eq!(apex_time(0), 5_000);
    assert_eq!(apex_time(10), 4_000);
    assert_eq!(apex_time(49), 100);
    assert_eq!(apex_time(1_000), 100);
}

#[test]
fn reset_score_starts_the_session_at_zero() {
    let (c, _egg, pan, _knife) = egg_catalog();
    let mut g = GameState::new(c, WIDTH, HEIGHT);
    g.spawn_order();
    g.spawn_projectile();
    let (px, py) = g.projectile_position(0);
    g.apply_action(pan, px, py);
    assert_eq!(g.score, 1);
    g.reset_score();
    assert_eq!(g.score, 0);
}

#[test]
fn spawned_projectile_starts_at_the_bottom_of_the_arc() {
    let (c, egg, _pan, _knife) = egg_catalog();
    let mut g = GameState::new(c, WIDTH, HEIGHT);
    g.spawn_order();
    g.spawn_projectile();
    assert_eq!(g.projectiles.len(), 1);
    let p = &g.projectiles[0];
    assert_eq!(p.ingredient, egg);
    assert_eq!(p.order_id, g.orders[0].id);
    assert_eq!(p.throw.elapsed_ms, 0);
    assert_eq!(p.throw.y0, -HEIGHT / 2);
    // spawn x lies in the documented range along the bottom
    assert!(p.throw.x0 >= -WIDTH / 2 + 25_000_000);
    assert!(p.throw.x0 < WIDTH / 2 + 25_000_000);
    // the lateral offset is sampled from a symmetric range
    assert!(p.throw.drift.abs() <= 10_000_000);
}

#[test]
fn no_projectile_spawns_without_an_order() {
    let (c, _egg, _pan, _knife) = egg_catalog();
    let mut g = GameState::new(c, WIDTH, HEIGHT);
    g.spawn_projectile();
    assert_eq!(g.projectiles.len(), 0);
}
