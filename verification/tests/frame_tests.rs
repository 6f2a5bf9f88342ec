use smart_road::simulation::{can_step_frame, step_frame};
use smart_road::statistics::Statistics;
use smart_road::vehicle::{Direction, Position, Vehicle, Virage};

fn vehicle_at(id: usize, direction: Direction, x: i32, y: i32, velocity: i32) -> Vehicle {
    let mut v = Vehicle::new(id, velocity, direction, Virage::S);
    v.position = Position { x, y };
    v.rect.x = x;
    v.rect.y = y;
    v.position_middle_sensor = Position::set_position(&direction, x, y, "middle");
    v.position_front_sensor = Position::set_position(&direction, x, y, "front");
    v
}

#[test]
fn one_frame() {
    let leaving = vehicle_at(1, Direction::East, 799, 452, 2);
    let stopped_behind = vehicle_at(2, Direction::East, 100, 452, 2);
    let ahead = vehicle_at(3, Direction::East, 130, 452, 0);
    let mut vehicles = vec![leaving, stopped_behind, ahead];
    let mut stats = Statistics::new();
    let distances = vec![vec![0, 800, 800], vec![800, 0, 10], vec![800, 800, 0]];
    assert!(can_step_frame(&vehicles, &stats, &distances, 50, 800, 800));
    let drawn = step_frame(&mut vehicles, &mut stats, &distances, 50, 800, 800);
    assert_eq!(drawn.len(), 3);
    assert_eq!(drawn[0].velocity, 2);
    assert_eq!(drawn[1].velocity, 0);
    assert_eq!(drawn[2].velocity, 2);
    assert_eq!(drawn[0].position.x, 799);
    let ids: Vec<usize> = vehicles.iter().map(|v| v.id).collect();
    assert_eq!(ids, vec![2, 3]);
    assert_eq!(vehicles[0].position.x, 100);
    assert_eq!(vehicles[1].position.x, 132);
    assert_eq!(stats.vehicles_passed(), 1);
    assert_eq!(stats.max_velocity(), 2);
    assert_eq!(stats.close_calls(), 0);
}

#[test]
fn close_calls_are_counted_in_a_frame() {
    let me = vehicle_at(1, Direction::East, 100, 100, 0);
    let from_left = vehicle_at(2, Direction::North, 400, 700, 0);
    let mut vehicles = vec![me, from_left];
    let mut stats = Statistics::new();
    let distances = vec![vec![0, 500], vec![500, 0]];
    let drawn = step_frame(&mut vehicles, &mut stats, &distances, 50, 800, 800);
    assert_eq!(stats.close_calls(), 1);
    assert_eq!(drawn[0].velocity, 2);
    assert_eq!(vehicles.len(), 2);
}

#[test]
fn malformed_frames_are_refused() {
    let vehicles = vec![vehicle_at(1, Direction::East, 100, 100, 0)];
    let stats = Statistics::new();
    assert!(!can_step_frame(&vehicles, &stats, &vec![], 50, 800, 800));
    assert!(!can_step_frame(&vehicles, &stats, &vec![vec![0, 1]], 50, 800, 800));
    let mut far = vehicle_at(1, Direction::North, 0, 0, 0);
    far.rect.y = i32::MIN + 1;
    assert!(!can_step_frame(&vec![far], &stats, &vec![vec![0]], 50, 800, 800));
}
