use smart_road::geometry::floor_sqrt;
use smart_road::roads::{centre_lines, dashed_line, lane_separators, road_dashes, Line};

fn line(x1: i32, y1: i32, x2: i32, y2: i32) -> Line {
    Line { x1, y1, x2, y2 }
}

#[test]
fn integer_square_roots() {
    assert_eq!(floor_sqrt(0), 0);
    assert_eq!(floor_sqrt(1), 1);
    assert_eq!(floor_sqrt(3), 1);
    assert_eq!(floor_sqrt(4), 2);
    assert_eq!(floor_sqrt(949), 30);
    assert_eq!(floor_sqrt(10000), 100);
    assert_eq!(floor_sqrt(9999), 99);
    assert_eq!(floor_sqrt(u32::MAX), 65535);
    for n in 0..5000u32 {
        let r = floor_sqrt(n);
        assert_eq!(r, (n as f64).sqrt() as u32);
    }
}

#[test]
fn dashes_of_a_vertical_separator() {
    let dashes = dashed_line(250, 0, 250, 275);
    assert_eq!(dashes.len(), 13);
    assert_eq!(dashes[0], line(250, 0, 250, 10));
    assert_eq!(dashes[1], line(250, 20, 250, 30));
    assert_eq!(dashes[12], line(250, 240, 250, 250));
}

#[test]
fn dashes_of_slanted_and_backward_lines() {
    assert_eq!(dashed_line(0, 0, 30, 40), vec![line(0, 0, 6, 8), line(12, 16, 18, 24)]);
    let back = dashed_line(100, 0, 0, 0);
    assert_eq!(back.len(), 5);
    assert_eq!(back[1], line(80, 0, 70, 0));
    assert_eq!(dashed_line(0, 0, -7, 30), vec![line(0, 0, -2, 10)]);
    assert!(dashed_line(5, 5, 5, 24).is_empty());
    assert!(dashed_line(5, 5, 5, 5).is_empty());
}

#[test]
fn road_layout() {
    assert_eq!(centre_lines(), vec![line(400, 0, 400, 800), line(0, 400, 800, 400)]);
    let seps = lane_separators();
    assert_eq!(seps.len(), 28);
    assert_eq!(seps[0], line(250, 0, 250, 275));
    assert_eq!(seps[6], line(550, 0, 550, 275));
    assert_eq!(seps[7], line(250, 550, 250, 850));
    assert_eq!(seps[14], line(0, 250, 275, 250));
    assert_eq!(seps[27], line(550, 550, 850, 550));
    let all = road_dashes();
    assert_eq!(all.len(), 28);
    for (k, sep) in seps.iter().enumerate() {
        assert_eq!(all[k], dashed_line(sep.x1, sep.y1, sep.x2, sep.y2));
    }
    assert_eq!(all[0].len(), 13);
    assert_eq!(all[7].len(), 15);
    assert_eq!(all[27][14], line(830, 550, 840, 550));
}
