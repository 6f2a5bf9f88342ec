use smart_road::geometry::Rect;
use smart_road::simulation::{apply_actions, plan_actions, spawn_vehicle, VehicleAction};
use smart_road::statistics::Statistics;
use smart_road::vehicle::{
    remove_vehicles_out_of_bounds, Direction, Pivot, Position, Vehicle, Virage, CAR_HEIGHT,
    CAR_WIDTH,
};

fn vehicle_at(id: usize, direction: Direction, x: i32, y: i32, velocity: i32) -> Vehicle {
    let mut v = Vehicle::new(id, velocity, direction, Virage::S);
    v.position = Position { x, y };
    v.rect.x = x;
    v.rect.y = y;
    v.position_middle_sensor = Position::set_position(&direction, x, y, "middle");
    v.position_front_sensor = Position::set_position(&direction, x, y, "front");
    v
}

#[test]
fn entry_points_of_all_lanes() {
    let cases = [
        (Direction::North, Virage::L, 412, 800),
        (Direction::North, Virage::S, 462, 800),
        (Direction::North, Virage::R, 512, 800),
        (Direction::South, Virage::L, 362, 0),
        (Direction::South, Virage::S, 312, 0),
        (Direction::South, Virage::R, 262, 0),
        (Direction::West, Virage::L, 800, 352),
        (Direction::West, Virage::S, 800, 302),
        (Direction::West, Virage::R, 800, 252),
        (Direction::East, Virage::L, 0, 402),
        (Direction::East, Virage::S, 0, 452),
        (Direction::East, Virage::R, 0, 502),
    ];
    for (d, v, x, y) in cases {
        let p = Position::new(&d, &v);
        assert_eq!((p.x, p.y), (x, y), "{:?} {:?}", d, v);
    }
}

#[test]
fn sensors_around_a_position() {
    for d in [Direction::North, Direction::South, Direction::East, Direction::West] {
        let m = Position::set_position(&d, 100, 200, "middle");
        assert_eq!((m.x, m.y), (103, 213));
    }
    let f = Position::set_position(&Direction::North, 100, 200, "front");
    assert_eq!((f.x, f.y), (103, 160));
    let f = Position::set_position(&Direction::South, 100, 200, "front");
    assert_eq!((f.x, f.y), (103, 270));
    let f = Position::set_position(&Direction::East, 100, 200, "front");
    assert_eq!((f.x, f.y), (150, 215));
    let f = Position::set_position(&Direction::West, 100, 200, "front");
    assert_eq!((f.x, f.y), (50, 215));
    let other = Position::set_position(&Direction::West, 100, 200, "anything");
    assert_eq!((other.x, other.y), (50, 215));
}

#[test]
fn pivots_of_turning_lanes() {
    let p = Position { x: 7, y: 9 };
    let cases = [
        (Direction::North, Virage::L, 7, 350),
        (Direction::North, Virage::R, 7, 500),
        (Direction::South, Virage::L, 7, 400),
        (Direction::South, Virage::R, 7, 250),
        (Direction::West, Virage::L, 360, 9),
        (Direction::West, Virage::R, 510, 9),
        (Direction::East, Virage::L, 410, 9),
        (Direction::East, Virage::R, 260, 9),
    ];
    for (d, v, x, y) in cases {
        let pivot = Pivot::new(&d, &v, &p).expect("turning lanes have a pivot");
        assert_eq!((pivot.position.x, pivot.position.y), (x, y), "{:?} {:?}", d, v);
    }
    for d in [Direction::North, Direction::South, Direction::East, Direction::West] {
        assert!(Pivot::new(&d, &Virage::S, &p).is_none());
    }
}

#[test]
fn new_vehicle_fields() {
    let v = Vehicle::new(3, 2, Direction::North, Virage::L);
    assert_eq!(v.id, 3);
    assert_eq!(v.velocity, 2);
    assert_eq!(v.angle, 180);
    assert_eq!((v.position.x, v.position.y), (412, 800));
    assert_eq!((v.origin.x, v.origin.y), (412, 800));
    assert_eq!(v.rect, Rect { x: 412, y: 800, width: CAR_WIDTH, height: CAR_HEIGHT });
    assert_eq!(v.turning_point, Some(Pivot { position: Position { x: 412, y: 350 } }));
    assert_eq!(v.position_middle_sensor, Position { x: 415, y: 813 });
    assert_eq!(v.position_front_sensor, Position { x: 415, y: 760 });
    assert_eq!(Vehicle::new(1, 2, Direction::South, Virage::S).angle, 0);
    assert_eq!(Vehicle::new(1, 2, Direction::East, Virage::S).angle, -90);
    assert_eq!(Vehicle::new(1, 2, Direction::West, Virage::S).angle, 90);
}

#[test]
fn driving_straight_on() {
    let mut v = Vehicle::new(1, 2, Direction::North, Virage::S);
    v.drive();
    assert_eq!((v.position.x, v.position.y), (462, 798));
    assert_eq!((v.rect.x, v.rect.y), (462, 798));
    assert_eq!(v.position_front_sensor, Position { x: 465, y: 758 });
    let mut e = Vehicle::new(2, 3, Direction::East, Virage::S);
    e.drive();
    assert_eq!((e.position.x, e.position.y), (3, 452));
    assert_eq!(e.position_front_sensor, Position { x: 53, y: 467 });
    let mut w = Vehicle::new(3, 3, Direction::West, Virage::S);
    w.drive();
    assert_eq!((w.position.x, w.position.y), (797, 302));
    let mut s = Vehicle::new(4, 3, Direction::South, Virage::S);
    s.drive();
    assert_eq!((s.position.x, s.position.y), (312, 3));
    assert_eq!(s.direction, Direction::South);
}

#[test]
fn turning_left_at_the_pivot() {
    let mut v = Vehicle::new(1, 2, Direction::North, Virage::L);
    v.rect.y = 350;
    v.position.y = 350;
    assert!(v.can_drive());
    v.drive();
    assert_eq!(v.direction, Direction::West);
    assert_eq!(v.angle, 90);
    assert_eq!((v.rect.x, v.rect.y), (410, 352));
    assert_eq!((v.position.x, v.position.y), (410, 352));
    assert!(v.turning_point.is_none());
    assert_eq!(v.position_front_sensor, Position { x: 360, y: 367 });
}

#[test]
fn turning_right_at_the_pivot() {
    let mut v = Vehicle::new(1, 2, Direction::East, Virage::R);
    v.rect.x = 260;
    v.position.x = 260;
    v.drive();
    assert_eq!(v.direction, Direction::South);
    assert_eq!(v.angle, 0);
    assert_eq!((v.rect.x, v.rect.y), (262, 504));
    let mut s = Vehicle::new(1, 2, Direction::South, Virage::L);
    s.rect.y = 401;
    s.drive();
    assert_eq!(s.direction, Direction::East);
    assert_eq!(s.angle, -90);
    assert_eq!((s.rect.x, s.rect.y), (364, 402));
    let mut w = Vehicle::new(1, 2, Direction::West, Virage::R);
    w.rect.x = 100;
    w.drive();
    assert_eq!(w.direction, Direction::North);
    assert_eq!(w.angle, 180);
    assert_eq!((w.rect.x, w.rect.y), (512, 250));
}

#[test]
fn a_vehicle_turns_only_once() {
    let mut v = Vehicle::new(1, 2, Direction::North, Virage::L);
    let mut turns = 0;
    let mut heading = v.direction;
    for _ in 0..1000 {
        v.drive();
        if v.direction != heading {
            turns += 1;
            heading = v.direction;
        }
    }
    assert_eq!(turns, 1);
    assert_eq!(v.direction, Direction::West);
}

#[test]
fn driving_is_clamped_at_the_edge_of_the_plane() {
    let mut v = vehicle_at(1, Direction::North, 5, -1073741823, 5);
    v.drive();
    assert_eq!(v.rect.y, -1073741824);
    assert_eq!(v.position.y, -1073741824);
}

#[test]
fn cannot_drive_past_the_integer_range() {
    let mut v = vehicle_at(1, Direction::North, 5, 0, 5);
    v.rect.y = i32::MIN + 2;
    assert!(!v.can_drive());
    let ok = vehicle_at(1, Direction::North, 5, 100, 5);
    assert!(ok.can_drive());
}

#[test]
fn rect_clamps() {
    let r = Rect::new(i32::MAX, i32::MIN, 0, u32::MAX);
    assert_eq!(r, Rect { x: 1073741823, y: -1073741824, width: 1, height: 1073741823 });
    let mut r = Rect::new(1, 2, 3, 4);
    r.set_x(-5);
    r.set_y(i32::MAX);
    assert_eq!(r, Rect { x: -5, y: 1073741823, width: 3, height: 4 });
}

#[test]
fn out_of_bounds() {
    let v = vehicle_at(1, Direction::North, 10, 10, 2);
    assert!(!v.is_out_of_bounds(800, 800));
    assert!(vehicle_at(1, Direction::North, -1, 10, 2).is_out_of_bounds(800, 800));
    assert!(vehicle_at(1, Direction::North, 801, 10, 2).is_out_of_bounds(800, 800));
    assert!(vehicle_at(1, Direction::North, 10, -1, 2).is_out_of_bounds(800, 800));
    assert!(vehicle_at(1, Direction::North, 10, 801, 2).is_out_of_bounds(800, 800));
    assert!(!vehicle_at(1, Direction::North, 800, 800, 2).is_out_of_bounds(800, 800));
}

#[test]
fn removing_vehicles_off_the_map() {
    let mut vehicles = vec![
        vehicle_at(1, Direction::North, 10, 10, 2),
        vehicle_at(2, Direction::North, 10, -5, 2),
        vehicle_at(3, Direction::East, 900, 10, 2),
        vehicle_at(4, Direction::West, 400, 400, 2),
    ];
    let removed = remove_vehicles_out_of_bounds(&mut vehicles, 800, 800);
    let kept: Vec<usize> = vehicles.iter().map(|v| v.id).collect();
    let gone: Vec<usize> = removed.iter().map(|v| v.id).collect();
    assert_eq!(kept, vec![1, 4]);
    assert_eq!(gone, vec![2, 3]);
    let again = remove_vehicles_out_of_bounds(&mut vehicles, 800, 800);
    assert!(again.is_empty());
    assert_eq!(vehicles.len(), 2);
}

#[test]
fn priority_to_the_left() {
    let me = vehicle_at(1, Direction::East, 0, 0, 0);
    let north = vehicle_at(2, Direction::North, 0, 0, 0);
    let south = vehicle_at(3, Direction::South, 0, 0, 0);
    assert!(me.let_priority_left(&vec![south.clone(), north.clone()]));
    assert!(!me.let_priority_left(&vec![south.clone()]));
    assert!(!north.let_priority_left(&vec![me.clone()]));
    let moving = vehicle_at(1, Direction::East, 0, 0, 2);
    assert!(!moving.let_priority_left(&vec![north.clone()]));
    let same_id = vehicle_at(1, Direction::North, 0, 0, 0);
    assert!(!me.let_priority_left(&vec![same_id]));
    assert!(vehicle_at(1, Direction::North, 0, 0, 0)
        .let_priority_left(&vec![vehicle_at(2, Direction::West, 0, 0, 0)]));
    assert!(vehicle_at(1, Direction::South, 0, 0, 0)
        .let_priority_left(&vec![vehicle_at(2, Direction::East, 0, 0, 0)]));
    assert!(vehicle_at(1, Direction::West, 0, 0, 0)
        .let_priority_left(&vec![vehicle_at(2, Direction::South, 0, 0, 0)]));
}

#[test]
fn safe_position_after_a_hundred_pixels() {
    assert!(Vehicle::is_safe_position(&vec![]));
    let mut v = Vehicle::new(1, 2, Direction::North, Virage::S);
    assert!(!Vehicle::is_safe_position(&vec![v.clone()]));
    v.position.y = v.origin.y - 99;
    assert!(!Vehicle::is_safe_position(&vec![v.clone()]));
    v.position.y = v.origin.y - 100;
    assert!(Vehicle::is_safe_position(&vec![v.clone()]));
    v.position = Position { x: v.origin.x + 60, y: v.origin.y - 80 };
    assert!(Vehicle::is_safe_position(&vec![v.clone()]));
    v.position = Position { x: v.origin.x + 60, y: v.origin.y - 79 };
    assert!(!Vehicle::is_safe_position(&vec![v.clone()]));
    assert!(Vehicle::can_measure_last(&vec![v.clone()]));
    v.position.x = i32::MAX;
    v.origin.x = -5;
    assert!(!Vehicle::can_measure_last(&vec![v]));
}

#[test]
fn seeing_a_vehicle_in_front() {
    let me = vehicle_at(1, Direction::North, 400, 500, 2);
    let crossing = vehicle_at(2, Direction::East, 420, 450, 2);
    let far_crossing = vehicle_at(3, Direction::East, 500, 450, 2);
    assert!(me.detect_vehicle_front(&vec![crossing.clone()], &vec![30], 50));
    assert!(!me.detect_vehicle_front(&vec![crossing.clone()], &vec![51], 50));
    assert!(!me.detect_vehicle_front(&vec![far_crossing], &vec![30], 50));
    let ahead = vehicle_at(4, Direction::North, 400, 470, 2);
    let behind = vehicle_at(5, Direction::North, 400, 530, 2);
    assert!(me.detect_vehicle_front(&vec![behind.clone(), ahead.clone()], &vec![10, 10], 50));
    assert!(!me.detect_vehicle_front(&vec![behind], &vec![10], 50));
    assert!(!me.detect_vehicle_front(&vec![me.clone()], &vec![0], 50));
    let mut right = me.clone();
    right.virage = Virage::R;
    assert!(!right.detect_vehicle_front(&vec![ahead.clone()], &vec![10], 50));
    assert!(me.can_scan_front(&vec![ahead], &vec![10], 50));
    let east = vehicle_at(6, Direction::East, 100, 100, 2);
    let west_ahead = vehicle_at(7, Direction::West, 150, 100, 2);
    assert!(!east.detect_vehicle_front(&vec![west_ahead], &vec![10], 50));
    let east_ahead = vehicle_at(8, Direction::East, 150, 100, 2);
    assert!(east.detect_vehicle_front(&vec![east_ahead], &vec![10], 50));
}

#[test]
fn scan_that_would_overflow_is_refused() {
    let mut me = vehicle_at(1, Direction::North, 0, 0, 2);
    me.position_middle_sensor = Position { x: i32::MIN + 10, y: 0 };
    let crossing = vehicle_at(2, Direction::East, 0, 0, 2);
    assert!(!me.can_scan_front(&vec![crossing.clone()], &vec![10], 50));
    assert!(me.can_scan_front(&vec![crossing], &vec![60], 50));
}

#[test]
fn draws_map_to_headings_and_ways_out() {
    assert_eq!(Direction::from_draw(0), Direction::North);
    assert_eq!(Direction::from_draw(1), Direction::South);
    assert_eq!(Direction::from_draw(2), Direction::West);
    assert_eq!(Direction::from_draw(3), Direction::East);
    assert_eq!(Virage::from_draw(0), Virage::L);
    assert_eq!(Virage::from_draw(1), Virage::R);
    assert_eq!(Virage::from_draw(2), Virage::S);
    for _ in 0..50 {
        let _ = Direction::random();
        let _ = Virage::new();
    }
}

#[test]
fn planning_and_carrying_out_actions() {
    let mut turner = Vehicle::new(1, 2, Direction::North, Virage::R);
    turner.velocity = 0;
    let others = vec![turner.clone()];
    let (actions, close) = plan_actions(&turner, &others, &vec![0], 50);
    assert_eq!(actions, vec![VehicleAction::Accelerate, VehicleAction::Start]);
    assert!(!close);
    apply_actions(&mut turner, &actions);
    assert_eq!(turner.velocity, 2);

    let stopped = vehicle_at(1, Direction::East, 100, 100, 0);
    let from_left = vehicle_at(2, Direction::North, 400, 700, 0);
    let ahead = vehicle_at(3, Direction::East, 140, 100, 0);
    let vehicles = vec![stopped.clone(), from_left, ahead];
    let (actions, close) = plan_actions(&stopped, &vehicles, &vec![0, 500, 10], 50);
    assert_eq!(actions, vec![VehicleAction::Stop, VehicleAction::Start]);
    assert!(close);
    let mut moved = stopped.clone();
    apply_actions(&mut moved, &actions);
    assert_eq!(moved.velocity, 2);
    let mut unchanged = stopped.clone();
    apply_actions(&mut unchanged, &vec![]);
    assert_eq!(unchanged.velocity, 0);
    apply_actions(&mut unchanged, &vec![VehicleAction::Start, VehicleAction::Stop]);
    assert_eq!(unchanged.velocity, 0);
}

#[test]
fn spawning_only_when_safe() {
    let mut vehicles = Vec::new();
    let mut stats = Statistics::new();
    let id = spawn_vehicle(&mut vehicles, &mut stats, 0, Direction::West);
    assert_eq!(id, 1);
    assert_eq!(vehicles.len(), 1);
    assert_eq!(vehicles[0].id, 1);
    assert_eq!(vehicles[0].velocity, 2);
    assert_eq!(vehicles[0].direction, Direction::West);
    assert_eq!(stats.total_vehicles(), 1);
    let id = spawn_vehicle(&mut vehicles, &mut stats, id, Direction::South);
    assert_eq!(id, 1);
    assert_eq!(vehicles.len(), 1);
    assert_eq!(stats.total_vehicles(), 1);
    vehicles[0].position.x -= 100;
    let id = spawn_vehicle(&mut vehicles, &mut stats, id, Direction::South);
    assert_eq!(id, 2);
    assert_eq!(vehicles.len(), 2);
    assert_eq!(vehicles[1].direction, Direction::South);
    assert_eq!(stats.total_vehicles(), 2);
}

#[test]
fn turning_lands_in_the_lane_of_the_new_heading() {
    let cases = [
        (Direction::North, Virage::L),
        (Direction::North, Virage::R),
        (Direction::South, Virage::L),
        (Direction::South, Virage::R),
        (Direction::East, Virage::L),
        (Direction::East, Virage::R),
        (Direction::West, Virage::L),
        (Direction::West, Virage::R),
    ];
    for (d, g) in cases {
        let mut v = Vehicle::new(1, 2, d, g);
        let start = v.direction;
        let mut steps = 0;
        while v.direction == start {
            v.drive();
            steps += 1;
            assert!(steps < 1000);
        }
        let lane = Position::new(&v.direction, &g);
        match d {
            Direction::North | Direction::South => assert_eq!(v.rect.y, lane.y, "{:?} {:?}", d, g),
            Direction::East | Direction::West => assert_eq!(v.rect.x, lane.x, "{:?} {:?}", d, g),
        }
        assert_eq!(v.angle, Vehicle::new(1, 2, v.direction, g).angle);
    }
}

#[test]
fn detection_ignores_order_and_own_identity() {
    let me = vehicle_at(1, Direction::North, 400, 500, 2);
    let ahead = vehicle_at(4, Direction::North, 400, 470, 2);
    let behind = vehicle_at(5, Direction::North, 400, 530, 2);
    let twin = vehicle_at(1, Direction::North, 400, 480, 2);
    assert!(me.detect_vehicle_front(&vec![behind.clone(), ahead.clone()], &vec![10, 10], 50));
    assert!(me.detect_vehicle_front(&vec![ahead.clone(), behind.clone()], &vec![10, 10], 50));
    assert!(!me.detect_vehicle_front(&vec![twin.clone(), behind.clone()], &vec![5, 10], 50));
    assert!(!me.detect_vehicle_front(&vec![], &vec![], 50));
    assert!(!me.detect_vehicle_front(&vec![ahead.clone()], &vec![60], 50));
    assert!(me.detect_vehicle_front(&vec![ahead.clone()], &vec![60], 60));
}
