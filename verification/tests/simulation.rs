use snake_rs::chain::{Chain, Segment};
use snake_rs::geometry::{GridPos, SnakeDirection};
use snake_rs::input::InputBuffer;
use snake_rs::tick::TickTimer;
use snake_rs::world::{PlayerStats, World};
use snake_rs::{test_game_over, GameState, TICK_INTERVAL_MS, MEAT_SPAWN_INTERVAL_MS};

fn pos(x: i32, y: i32) -> GridPos {
    GridPos { x, y }
}

fn segment(p: GridPos, forward: Option<usize>, backward: Option<usize>) -> Segment {
    Segment {
        pos: p,
        forward,
        backward,
        planned: None,
        animator: None,
    }
}

/// A world whose snake occupies the given cells, head first, travelling
/// in the given direction, with fresh clocks and statistics.
fn world_with_chain(cells: &[GridPos], direction: SnakeDirection) -> World {
    let n = cells.len();
    let mut segments = Vec::new();
    let mut segment_ids = Vec::new();
    for (i, &p) in cells.iter().enumerate() {
        let forward = if i == 0 { None } else { Some(i - 1) };
        let backward = if i == n - 1 { None } else { Some(i + 1) };
        segments.push(segment(p, forward, backward));
        segment_ids.push(i as u64);
    }
    World {
        chain: Chain {
            segments,
            direction,
            buffer: InputBuffer { queue: Vec::new() },
        },
        segment_ids,
        foods: Vec::new(),
        next_id: n as u64,
        stats: PlayerStats {
            score: 0,
            food_eaten: 0,
            distance_traveled: 0,
        },
        tick_timer: TickTimer {
            interval_ms: TICK_INTERVAL_MS,
            elapsed_ms: 0,
            fired: false,
        },
        meat_timer: TickTimer {
            interval_ms: MEAT_SPAWN_INTERVAL_MS,
            elapsed_ms: 0,
            fired: false,
        },
    }
}

#[test]
fn new_world_spawns_lone_head() {
    let (w, spawned) = World::new();
    assert_eq!(spawned, snake_rs::world::SnakeSpawnedEvent(0));
    assert_eq!(w.chain.segments.len(), 1);
    assert_eq!(w.chain.segments[0].pos, pos(0, 0));
    assert_eq!(w.chain.segments[0].forward, None);
    assert_eq!(w.chain.segments[0].backward, None);
    assert_eq!(w.segment_ids, vec![0]);
    assert_eq!(w.stats.score, 0);
    assert_eq!(w.foods.len(), 0);
}

#[test]
fn input_buffer_retains_first_two_frames_of_input() {
    let (mut w, _) = World::new();
    // three directions pressed in three consecutive frames, no tick yet
    let ev = w.frame(50, Some(SnakeDirection::Up), false);
    assert!(!ev.ticked);
    let ev = w.frame(50, Some(SnakeDirection::Right), false);
    assert!(!ev.ticked);
    let ev = w.frame(50, Some(SnakeDirection::Down), false);
    assert!(!ev.ticked);
    // only [Up, Right] were retained; Down was dropped
    assert_eq!(
        w.chain.buffer.queue,
        vec![SnakeDirection::Up, SnakeDirection::Right]
    );
    // the tick consumes the oldest entry
    let ev = w.frame(50, None, false);
    assert!(ev.ticked);
    assert_eq!(w.chain.direction, SnakeDirection::Up);
    assert_eq!(w.chain.buffer.queue, vec![SnakeDirection::Right]);
}

#[test]
fn reversal_is_rejected_and_direction_kept() {
    let (mut w, _) = World::new();
    let ev = w.frame(200, Some(SnakeDirection::Left), false);
    // Left is the exact reversal of the starting direction Right
    assert!(ev.ticked);
    assert_eq!(w.chain.direction, SnakeDirection::Right);
    assert_eq!(w.chain.segments[0].pos, pos(1, 0));
    // a perpendicular direction is applied
    let ev = w.frame(200, Some(SnakeDirection::Down), false);
    assert!(ev.ticked);
    assert_eq!(w.chain.direction, SnakeDirection::Down);
    assert_eq!(w.chain.segments[0].pos, pos(1, -1));
}

#[test]
fn speed_boost_doubles_accumulation() {
    let (mut w, _) = World::new();
    let ev = w.frame(100, None, true);
    assert!(ev.ticked);
    let ev = w.frame(100, None, false);
    assert!(!ev.ticked);
}

#[test]
fn head_wraps_across_right_border() {
    let mut w = world_with_chain(&[pos(39, 0)], SnakeDirection::Right);
    let ev = w.frame(200, None, false);
    assert!(ev.ticked);
    assert_eq!(w.chain.segments[0].pos, pos(-40, 0));
}

#[test]
fn head_wraps_across_top_border() {
    let mut w = world_with_chain(&[pos(0, 24)], SnakeDirection::Up);
    w.frame(200, None, false);
    assert_eq!(w.chain.segments[0].pos, pos(0, -25));
}

#[test]
fn body_follows_the_leader() {
    let mut w = world_with_chain(&[pos(2, 0), pos(1, 0), pos(0, 0)], SnakeDirection::Right);
    w.frame(200, None, false);
    assert_eq!(w.chain.segments[0].pos, pos(3, 0));
    assert_eq!(w.chain.segments[1].pos, pos(2, 0));
    assert_eq!(w.chain.segments[2].pos, pos(1, 0));
    assert_eq!(w.stats.distance_traveled, 1);
}

#[test]
fn collision_with_body_is_a_catastrophe() {
    // After the commit the head lands on (1,0) and the second body
    // segment follows onto (1,0) as well: exactly one catastrophe.
    let mut w = world_with_chain(
        &[pos(0, 0), pos(1, 0), pos(1, 1)],
        SnakeDirection::Right,
    );
    let ev = w.frame(200, None, false);
    assert!(ev.ticked);
    assert_eq!(w.chain.segments[0].pos, pos(1, 0));
    assert_eq!(w.chain.segments[2].pos, pos(1, 0));
    assert_eq!(ev.collisions.len(), 1);
    assert_eq!(ev.collisions[0].other, 2);
    assert_eq!(ev.collisions[0].position, pos(1, 0));
    assert_eq!(ev.catastrophes.len(), 1);
    assert_eq!(ev.catastrophes[0], snake_rs::world::SnakeCatastrophicEvent(0));
    // no food was involved
    assert_eq!(ev.meat_eaten.len(), 0);
    // a catastrophe ends the round
    assert_eq!(
        test_game_over(GameState::InGame, ev.catastrophes.len()),
        GameState::GameOver
    );
    assert_eq!(test_game_over(GameState::InGame, 0), GameState::InGame);
}

#[test]
fn food_is_eaten_exactly_once() {
    let mut w = world_with_chain(&[pos(2, 3)], SnakeDirection::Right);
    w.spawn_meat(pos(3, 3), 120);
    assert_eq!(w.foods.len(), 1);
    let ev = w.frame(200, None, false);
    assert!(ev.ticked);
    // the head committed onto the food cell: exactly one MeatEaten with
    // that position and hue, and the food item is gone
    assert_eq!(ev.meat_eaten.len(), 1);
    assert_eq!(ev.meat_eaten[0].position, pos(3, 3));
    assert_eq!(ev.meat_eaten[0].color, 120);
    assert_eq!(ev.meat_eaten[0].snake, 0);
    assert_eq!(w.foods.len(), 0);
    assert_eq!(ev.catastrophes.len(), 0);
    // score and food count moved by one reward
    assert_eq!(w.stats.score, 50);
    assert_eq!(w.stats.food_eaten, 1);
    // the growth animator was armed on the head
    let a = w.chain.segments[0].animator.unwrap();
    assert_eq!(a.step, 5);
    assert!(a.spawn);
}

#[test]
fn growth_appends_exactly_one_segment_for_lone_head() {
    let mut w = world_with_chain(&[pos(2, 3)], SnakeDirection::Right);
    w.spawn_meat(pos(3, 3), 200);
    let ev = w.frame(200, None, false);
    assert_eq!(ev.meat_eaten.len(), 1);
    assert_eq!(w.chain.segments.len(), 1);
    // next tick the pending spawn fires: one new tail behind the head,
    // linked to the former tail
    let lens: Vec<usize> = (0..5)
        .map(|_| {
            w.frame(200, None, false);
            w.chain.segments.len()
        })
        .collect();
    assert_eq!(lens, vec![2, 2, 2, 2, 2]);
    assert_eq!(w.chain.segments[1].forward, Some(0));
    assert_eq!(w.chain.segments[1].backward, None);
    assert_eq!(w.chain.segments[0].backward, Some(1));
    // the head's animator has stepped its budget down and disappears
    assert_eq!(w.chain.segments[0].animator, None);
}

#[test]
fn growth_propagates_backward_along_the_chain() {
    let mut w = world_with_chain(&[pos(2, 3), pos(1, 3)], SnakeDirection::Right);
    w.spawn_meat(pos(3, 3), 10);
    let ev = w.frame(200, None, false);
    assert_eq!(ev.meat_eaten.len(), 1);
    assert_eq!(w.chain.segments.len(), 2);
    // the spawn flag wanders from the head to the tail, then the tail
    // spawns: exactly one new segment in total
    for _ in 0..10 {
        w.frame(200, None, false);
    }
    assert_eq!(w.chain.segments.len(), 3);
    assert_eq!(w.chain.segments[2].forward, Some(1));
    assert_eq!(w.chain.segments[2].backward, None);
    assert_eq!(w.chain.segments[1].backward, Some(2));
}

#[test]
fn food_spawner_respects_population_cap() {
    let (mut w, _) = World::new();
    for _ in 0..20 {
        w.meat_spawner();
        assert!(w.foods.len() <= 9);
    }
    assert_eq!(w.foods.len(), 9);
    // every spawned item sits on a free interior cell with a valid hue
    for (i, f) in w.foods.iter().enumerate() {
        assert!(f.pos.x >= -39 && f.pos.x <= 39);
        assert!(f.pos.y >= -24 && f.pos.y <= 24);
        assert!(f.color >= 0 && f.color <= 360);
        assert_ne!(f.pos, w.chain.segments[0].pos);
        for (j, g) in w.foods.iter().enumerate() {
            if i != j {
                assert_ne!(f.pos, g.pos);
                assert_ne!(f.id, g.id);
            }
        }
    }
}

#[test]
fn food_spawner_fires_on_its_own_cadence() {
    let (mut w, _) = World::new();
    for _ in 0..30 {
        w.frame(3000, None, false);
        assert!(w.foods.len() <= 9);
    }
}

#[test]
fn spawned_tail_wraps_back_onto_the_field() {
    // the head has just wrapped to the left edge while the tail is still
    // at the right edge; a pending tail spawn points one cell past the
    // border, and the next commit wraps the new tail back in
    let mut w = world_with_chain(&[pos(-40, 0), pos(39, 0)], SnakeDirection::Right);
    w.chain.segments[1].animator = Some(snake_rs::chain::SnakeFatAnimator {
        step: 5,
        spawn: true,
    });
    w.frame(200, None, false);
    assert_eq!(w.chain.segments.len(), 3);
    assert_eq!(w.chain.segments[0].pos, pos(-39, 0));
    assert_eq!(w.chain.segments[1].pos, pos(-40, 0));
    // spawned one chain step behind the tail, one cell off the field
    assert_eq!(w.chain.segments[2].pos, pos(-41, 0));
    w.frame(200, None, false);
    // the new tail followed its forward neighbour and is back in bounds
    assert_eq!(w.chain.segments[2].pos, pos(-40, 0));
}

#[test]
fn stats_reset_on_round_start() {
    let stats = PlayerStats::default();
    assert_eq!(stats.score, 0);
    assert_eq!(stats.food_eaten, 0);
    assert_eq!(stats.distance_traveled, 0);
}

#[test]
fn no_tick_means_no_movement_and_no_events() {
    let mut w = world_with_chain(&[pos(5, 5)], SnakeDirection::Up);
    let ev = w.frame(199, None, false);
    assert!(!ev.ticked);
    assert_eq!(w.chain.segments[0].pos, pos(5, 5));
    assert_eq!(ev.collisions.len(), 0);
    assert_eq!(w.stats.distance_traveled, 0);
}
