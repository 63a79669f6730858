use snake_rs::geometry::{wrap_coord, GridPos, SnakeDirection};
use snake_rs::input::InputBuffer;
use snake_rs::spatial::SpatialIndex;
use snake_rs::tick::TickTimer;

#[test]
fn direction_vectors() {
    assert_eq!(SnakeDirection::Up.get_vector(), (0, 1));
    assert_eq!(SnakeDirection::Right.get_vector(), (1, 0));
    assert_eq!(SnakeDirection::Down.get_vector(), (0, -1));
    assert_eq!(SnakeDirection::Left.get_vector(), (-1, 0));
}

#[test]
fn opposite_iff_dot_is_minus_one() {
    let dirs = [
        SnakeDirection::Up,
        SnakeDirection::Right,
        SnakeDirection::Down,
        SnakeDirection::Left,
    ];
    for c in dirs {
        for d in dirs {
            let (cx, cy) = c.get_vector();
            let (dx, dy) = d.get_vector();
            let dot = cx * dx + cy * dy;
            assert_eq!(c.is_opposite(&d), dot == -1);
        }
    }
    assert!(SnakeDirection::Right.is_opposite(&SnakeDirection::Left));
    assert!(SnakeDirection::Up.is_opposite(&SnakeDirection::Down));
    assert!(!SnakeDirection::Up.is_opposite(&SnakeDirection::Right));
    assert!(!SnakeDirection::Up.is_opposite(&SnakeDirection::Up));
}

#[test]
fn wrap_keeps_in_range_values() {
    assert_eq!(wrap_coord(0, 40), 0);
    assert_eq!(wrap_coord(39, 40), 39);
    assert_eq!(wrap_coord(-40, 40), -40);
    assert_eq!(wrap_coord(17, 25), 17);
}

#[test]
fn wrap_past_right_edge_lands_on_left_edge() {
    assert_eq!(wrap_coord(40, 40), -40);
    assert_eq!(wrap_coord(25, 25), -25);
}

#[test]
fn wrap_past_left_edge_lands_on_right_edge() {
    assert_eq!(wrap_coord(-41, 40), 39);
    assert_eq!(wrap_coord(-26, 25), 24);
}

#[test]
fn tick_timer_accumulates_to_interval() {
    let mut t = TickTimer::new(200);
    t.tick(150);
    assert!(!t.just_finished());
    assert_eq!(t.elapsed_ms, 150);
    t.tick(50);
    assert!(t.just_finished());
    assert_eq!(t.elapsed_ms, 0);
}

#[test]
fn tick_timer_coalesces_multiple_crossings() {
    let mut t = TickTimer::new(200);
    t.tick(450);
    // two intervals crossed, but a single fired tick and only the
    // remainder kept
    assert!(t.just_finished());
    assert_eq!(t.elapsed_ms, 50);
    t.tick(100);
    assert!(!t.just_finished());
    assert_eq!(t.elapsed_ms, 150);
}

#[test]
fn input_buffer_caps_at_two() {
    let mut b = InputBuffer::new();
    b.push(SnakeDirection::Up);
    b.push(SnakeDirection::Right);
    b.push(SnakeDirection::Down);
    assert_eq!(b.len(), 2);
    assert_eq!(b.pop(), Some(SnakeDirection::Up));
    assert_eq!(b.pop(), Some(SnakeDirection::Right));
    assert_eq!(b.pop(), None);
}

#[test]
fn spatial_index_insert_and_query() {
    let mut idx = SpatialIndex::new();
    idx.insert(GridPos { x: 0, y: 0 }, 1);
    idx.insert(GridPos { x: 1, y: 0 }, 2);
    idx.insert(GridPos { x: 5, y: 5 }, 3);
    let near = idx.within_distance(GridPos { x: 0, y: 0 }, 1);
    assert_eq!(near.len(), 2);
    assert_eq!(near[0], (GridPos { x: 0, y: 0 }, 1));
    assert_eq!(near[1], (GridPos { x: 1, y: 0 }, 2));
}

#[test]
fn spatial_index_update_moves_entity() {
    let mut idx = SpatialIndex::new();
    idx.insert(GridPos { x: 0, y: 0 }, 7);
    assert!(idx.update(7, GridPos { x: 4, y: 4 }));
    assert!(!idx.update(8, GridPos { x: 1, y: 1 }));
    let near = idx.within_distance(GridPos { x: 4, y: 4 }, 1);
    assert_eq!(near, vec![(GridPos { x: 4, y: 4 }, 7)]);
}

#[test]
fn spatial_index_remove_forgets_entity() {
    let mut idx = SpatialIndex::new();
    idx.insert(GridPos { x: 2, y: 2 }, 4);
    idx.insert(GridPos { x: 2, y: 3 }, 5);
    assert!(idx.remove(4));
    assert!(!idx.remove(4));
    let near = idx.within_distance(GridPos { x: 2, y: 2 }, 1);
    assert_eq!(near, vec![(GridPos { x: 2, y: 3 }, 5)]);
}
