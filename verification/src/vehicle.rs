use vstd::prelude::*;
use rand::Rng;
use crate::geometry::{Rect, clamped, in_i32};
use crate::time::now;

verus! {

/// Width of a vehicle's body, in pixels.
pub const CAR_WIDTH: u32 = 25;

/// Length of a vehicle's body, in pixels.
pub const CAR_HEIGHT: u32 = 45;

/// Width of a lane, in pixels.
pub const STEP: u32 = 50;

/// How far a vehicle has to have driven from its entry point before the next
/// one may enter.
pub const SAFETY_DISTANCE: u32 = 100;

/// The heading of a vehicle.
#[derive(Debug, PartialEq, Eq, Structural, Clone, Copy)]
pub enum Direction {
    North,
    South,
    East,
    West,
}

/// The way a vehicle leaves the crossroads: left, right, or straight on.
#[derive(Debug, Clone, Copy, PartialEq, Eq, Structural)]
pub enum Virage {
    L,
    R,
    S,
}

/// A number drawn by chance from `0..bound`, by `rand::Rng::gen_range` on
/// the thread-local generator of `rand::thread_rng`. The draw depends on
/// chance; the one thing claimed is what `gen_range` documents: the number
/// lies in the range (which is not empty, so the call does not panic).
#[verifier::external_body]
fn draw_below(bound: u32) -> (r: u32)
    requires
        bound > 0,
    ensures
        r < bound,
{
    rand::thread_rng().gen_range(0..bound)
}

/// The heading that a draw of `k` from `0..4` stands for.
pub open spec fn direction_for_draw(k: u32) -> Direction {
    if k == 0 {
        Direction::North
    } else if k == 1 {
        Direction::South
    } else if k == 2 {
        Direction::West
    } else {
        Direction::East
    }
}

impl Direction {
    /// The heading for the draw `k`: 0 north, 1 south, 2 west, any other east.
    pub fn from_draw(k: u32) -> (d: Direction)
        ensures
            d == direction_for_draw(k),
    {
        match k {
            0 => Direction::North,
            1 => Direction::South,
            2 => Direction::West,
            _ => Direction::East,
        }
    }

    /// A heading drawn by chance, each of the four being the result of one
    /// of the four possible draws.
    pub fn random() -> (d: Direction)
        ensures
            exists|k: u32| k < 4 && d == direction_for_draw(k),
    {
        let k = draw_below(4);
        Direction::from_draw(k)
    }
}

/// The way out that a draw of `k` from `0..3` stands for.
pub open spec fn virage_for_draw(k: u32) -> Virage {
    if k == 0 {
        Virage::L
    } else if k == 1 {
        Virage::R
    } else {
        Virage::S
    }
}

impl Virage {
    /// The way out for the draw `k`: 0 left, 1 right, any other straight on.
    pub fn from_draw(k: u32) -> (v: Virage)
        ensures
            v == virage_for_draw(k),
    {
        match k {
            0 => Virage::L,
            1 => Virage::R,
            _ => Virage::S,
        }
    }

    /// A way out drawn by chance, each of the three being the result of one
    /// of the three possible draws.
    pub fn new() -> (v: Virage)
        ensures
            exists|k: u32| k < 3 && v == virage_for_draw(k),
    {
        let k = draw_below(3);
        Virage::from_draw(k)
    }
}

/// A point on the map, in pixels; `y` grows southwards.
#[derive(Debug, Clone, Copy, PartialEq, Eq, Structural)]
pub struct Position {
    pub x: i32,
    pub y: i32,
}

/// The point at which a turning vehicle changes heading.
#[derive(Debug, PartialEq, Eq, Structural)]
pub struct Pivot {
    pub position: Position,
}

impl Clone for Pivot {
    fn clone(&self) -> (r: Self)
        ensures
            r == *self,
    {
        Pivot { position: self.position }
    }
}

/// How far from the centre line a lane lies: 50, 100 or 150 pixels for the
/// left, straight and right lanes.
pub open spec fn lane_offset(virage: Virage) -> int {
    match virage {
        Virage::L => 50,
        Virage::S => 100,
        Virage::R => 150,
    }
}

/// Where a vehicle enters the map: on the edge it comes from, in the lane of
/// the way it will leave, its body centred in the lane.
pub open spec fn entry_point(direction: Direction, virage: Virage) -> Position {
    let n = lane_offset(virage);
    let step = STEP as int;
    let across = (step - CAR_WIDTH) / 2;
    let along = (step - CAR_HEIGHT) / 2;
    match direction {
        Direction::North => Position { x: (400 + (n - step) + across) as i32, y: 800 },
        Direction::South => Position { x: (400 - n + across) as i32, y: 0 },
        Direction::West => Position { x: 800, y: (400 - n + along) as i32 },
        Direction::East => Position { x: 0, y: (400 + (n - step) + along) as i32 },
    }
}

/// How far a sensor lies from the corner of a vehicle heading `direction`:
/// the middle sensor always at `(3, 13)`, the front one ahead of the body.
pub open spec fn sensor_offset(direction: Direction, middle: bool) -> (int, int) {
    if middle {
        (3, 13)
    } else {
        match direction {
            Direction::North => (3, -40),
            Direction::South => (3, 70),
            Direction::East => (50, 15),
            Direction::West => (-50, 15),
        }
    }
}

/// Whether the sensor of a vehicle at `(x, y)` lies inside the `i32` range.
pub open spec fn sensor_fits(direction: Direction, x: int, y: int, middle: bool) -> bool {
    let (dx, dy) = sensor_offset(direction, middle);
    &&& i32::MIN <= x + dx <= i32::MAX
    &&& i32::MIN <= y + dy <= i32::MAX
}

/// The position of a sensor of a vehicle at `(x, y)`.
pub open spec fn sensor_at(direction: Direction, x: int, y: int, middle: bool) -> Position {
    let (dx, dy) = sensor_offset(direction, middle);
    Position { x: (x + dx) as i32, y: (y + dy) as i32 }
}

/// The name that selects the middle sensor; any other names the front one.
pub open spec fn names_middle(sensor: Seq<char>) -> bool {
    sensor == "middle"@
}

/// Whether `sensor` reads `middle`.
fn is_middle(sensor: &str) -> (r: bool)
    ensures
        r == names_middle(sensor@),
{
    proof {
        reveal_strlit("middle");
    }
    let len = sensor.unicode_len();
    if len != 6 {
        return false;
    }
    let r = sensor.get_char(0) == 'm' && sensor.get_char(1) == 'i' && sensor.get_char(2) == 'd'
        && sensor.get_char(3) == 'd' && sensor.get_char(4) == 'l' && sensor.get_char(5) == 'e';
    proof {
        if r {
            assert(sensor@ =~= "middle"@);
        } else if names_middle(sensor@) {
            assert(sensor@[0] == 'm' && sensor@[1] == 'i' && sensor@[2] == 'd');
            assert(sensor@[3] == 'd' && sensor@[4] == 'l' && sensor@[5] == 'e');
        }
    }
    r
}

impl Position {
    /// The entry point of a vehicle heading `direction` that will leave by
    /// `virage`.
    pub fn new(direction: &Direction, virage: &Virage) -> (p: Position)
        ensures
            p == entry_point(*direction, *virage),
    {
        let step: u32 = 50;
        let n: u32 = match virage {
            Virage::L => 50,
            Virage::S => 100,
            Virage::R => 150,
        };
        let pos: (u32, u32) = match direction {
            Direction::North => (400 + (n - step) + ((step - CAR_WIDTH) / 2), 800),
            Direction::South => (400 - n + ((step - CAR_WIDTH) / 2), 0),
            Direction::West => (800, 400 - n + (step - CAR_HEIGHT) / 2),
            Direction::East => (0, 400 + (n - step) + (step - CAR_HEIGHT) / 2),
        };
        Position { x: pos.0 as i32, y: pos.1 as i32 }
    }

    /// The position of a sensor of a vehicle at `(x, y)` heading `direction`:
    /// the middle sensor when `sensor` is `"middle"`, the front one otherwise.
    pub fn set_position(direction: &Direction, x: i32, y: i32, sensor: &str) -> (p: Position)
        requires
            sensor_fits(*direction, x as int, y as int, names_middle(sensor@)),
        ensures
            p == sensor_at(*direction, x as int, y as int, names_middle(sensor@)),
    {
        let (x, y) = if is_middle(sensor) {
            match direction {
                Direction::North => (x + 3, y + 13),
                Direction::South => (x + 3, y + 13),
                Direction::East => (x + 3, y + 13),
                Direction::West => (x + 3, y + 13),
            }
        } else {
            match direction {
                Direction::North => (x + 3, y - 40),
                Direction::South => (x + 3, y + 35 * 2),
                Direction::East => (x + 50, y + 15),
                Direction::West => (x - 50, y + 15),
            }
        };
        Position { x, y }
    }
}

/// Where a vehicle entering at `position` turns, if it turns at all: a left
/// turn right after the centre line, a right turn on the first crossing lane.
/// The coordinate across the way stays that of `position`.
pub open spec fn pivot_point(direction: Direction, virage: Virage, position: Position) -> Option<
    Pivot,
> {
    let step = STEP as int;
    match virage {
        Virage::S => None,
        _ => {
            let n = lane_offset(virage);
            let left = virage == Virage::L;
            let p = match direction {
                Direction::North => Position {
                    x: position.x,
                    y: (if left { 400 - n } else { 400 + n - step }) as i32,
                },
                Direction::South => Position {
                    x: position.x,
                    y: (if left { 400int } else { 400 - n }) as i32,
                },
                Direction::West => Position {
                    x: (if left { 400 - n + 10 } else { 400 + n - step + 10 }) as i32,
                    y: position.y,
                },
                Direction::East => Position {
                    x: (if left { 410int } else { 400 - n + 10 }) as i32,
                    y: position.y,
                },
            };
            Some(Pivot { position: p })
        },
    }
}

impl Pivot {
    /// The turning point of a vehicle heading `direction` from `position` that
    /// leaves by `virage`; `None` for a vehicle that goes straight on.
    pub fn new(direction: &Direction, virage: &Virage, position: &Position) -> (r: Option<Pivot>)
        ensures
            r == pivot_point(*direction, *virage, *position),
    {
        let step: i32 = 50;
        let n: i32 = match virage {
            Virage::L => 50,
            Virage::S => return None,
            Virage::R => 150,
        };
        let mut offset_x: i32 = position.x;
        let mut offset_y: i32 = position.y;
        match (direction, virage) {
            (Direction::North, Virage::L) => offset_y = 400 - n,
            (Direction::North, Virage::R) => offset_y = 400 + n - step,
            (Direction::South, Virage::L) => offset_y = 400,
            (Direction::South, Virage::R) => offset_y = 400 - n,
            (Direction::West, Virage::L) => offset_x = 400 - n + 10,
            (Direction::West, Virage::R) => offset_x = 400 + n - step + 10,
            (Direction::East, Virage::L) => offset_x = 400 + 10,
            (Direction::East, Virage::R) => offset_x = 400 - n + 10,
            _ => return None,
        };
        Some(Pivot { position: Position { x: offset_x, y: offset_y } })
    }
}


/// A clamped coordinate stays far enough from the ends of `i32` that every
/// sensor around it does too.
pub proof fn lemma_clamped_in_range(v: int)
    ensures
        crate::geometry::MIN_COORDINATE <= clamped(v) <= crate::geometry::MAX_COORDINATE,
        forall|d: Direction, w: int, m: bool|
            #![trigger sensor_fits(d, clamped(v), w, m)]
            #![trigger sensor_fits(d, w, clamped(v), m)]
            crate::geometry::MIN_COORDINATE <= w <= crate::geometry::MAX_COORDINATE ==> sensor_fits(d, clamped(v), w, m)
                && sensor_fits(d, w, clamped(v), m),
{
}

/// A vehicle on the map.
///
/// `rect` is its body on screen and `position` its corner; the two sensors
/// are placed relative to `position` (see [`sensor_at`]); `angle` is the
/// rotation of its picture, in degrees.
#[derive(Debug)]
pub struct Vehicle {
    pub id: usize,
    pub origin: Position,
    pub position: Position,
    pub direction: Direction,
    pub virage: Virage,
    pub turning_point: Option<Pivot>,
    pub velocity: i32,
    pub rect: Rect,
    pub angle: i32,
    pub position_middle_sensor: Position,
    pub position_front_sensor: Position,
    pub entry_time: std::time::Instant,
}

impl Clone for Vehicle {
    fn clone(&self) -> (r: Self)
        ensures
            r == *self,
    {
        let turning_point = match &self.turning_point {
            Some(pivot) => Some(pivot.clone()),
            None => None,
        };
        Vehicle {
            id: self.id,
            origin: self.origin,
            position: self.position,
            direction: self.direction,
            virage: self.virage,
            turning_point,
            velocity: self.velocity,
            rect: self.rect,
            angle: self.angle,
            position_middle_sensor: self.position_middle_sensor,
            position_front_sensor: self.position_front_sensor,
            entry_time: self.entry_time.clone(),
        }
    }
}

/// The rotation, in degrees, of the picture of a vehicle heading `direction`.
pub open spec fn heading_angle(direction: Direction) -> int {
    match direction {
        Direction::North => 180,
        Direction::South => 0,
        Direction::East => -90,
        Direction::West => 90,
    }
}

/// The heading after turning left (for `Virage::L`) or right (otherwise).
pub open spec fn heading_after_turn(direction: Direction, virage: Virage) -> Direction {
    let left = virage == Virage::L;
    match direction {
        Direction::North => if left { Direction::West } else { Direction::East },
        Direction::South => if left { Direction::East } else { Direction::West },
        Direction::West => if left { Direction::South } else { Direction::North },
        Direction::East => if left { Direction::North } else { Direction::South },
    }
}

/// `-1` for a left turn, `1` otherwise: the side to which a turning vehicle
/// moves, relative to its heading.
pub open spec fn turn_sign(virage: Virage) -> int {
    if virage == Virage::L {
        -1
    } else {
        1
    }
}

/// A vehicle as it enters the map: at the entry point of its lane, heading
/// `direction`, with its turning point, its body of `CAR_WIDTH` by
/// `CAR_HEIGHT` at the entry point and its sensors placed around it.
pub open spec fn entering_vehicle(
    id: usize,
    velocity: i32,
    direction: Direction,
    virage: Virage,
    entry_time: std::time::Instant,
) -> Vehicle {
    let p = entry_point(direction, virage);
    Vehicle {
        id,
        origin: p,
        position: p,
        direction,
        virage,
        turning_point: pivot_point(direction, virage, p),
        velocity,
        rect: Rect { x: p.x, y: p.y, width: CAR_WIDTH, height: CAR_HEIGHT },
        angle: heading_angle(direction) as i32,
        position_middle_sensor: sensor_at(direction, p.x as int, p.y as int, true),
        position_front_sensor: sensor_at(direction, p.x as int, p.y as int, false),
        entry_time,
    }
}

impl Vehicle {
    /// Whether the vehicle has a turning point and its body has reached it
    /// along its heading.
    pub open spec fn pivot_reached(self) -> bool {
        match self.turning_point {
            Some(p) => match self.direction {
                Direction::North => self.rect.y <= p.position.y,
                Direction::South => self.rect.y >= p.position.y,
                Direction::West => self.rect.x <= p.position.x,
                Direction::East => self.rect.x >= p.position.x,
            },
            None => false,
        }
    }

    /// The sideways move of a turn: `velocity` pixels to the side of the turn.
    pub open spec fn turn_shift(self) -> int {
        turn_sign(self.virage) * self.velocity
    }

    /// Where the body's corner goes when the vehicle turns, before clamping:
    /// two pixels past the turning point along the old heading, shifted
    /// sideways by the turn.
    pub open spec fn turn_target(self) -> (int, int) {
        let p = self.turning_point->0.position;
        let shift = self.turn_shift();
        match self.direction {
            Direction::North => (self.rect.x + shift, p.y + 2),
            Direction::South => (self.rect.x - shift, p.y + 2),
            Direction::West => (p.x + 2, self.rect.y - shift),
            Direction::East => (p.x + 2, self.rect.y + shift),
        }
    }

    /// Where the coordinate along the heading goes when the vehicle drives
    /// on, before clamping: `velocity` pixels forward.
    pub open spec fn advance_target(self) -> int {
        match self.direction {
            Direction::North => self.rect.y - self.velocity,
            Direction::South => self.rect.y + self.velocity,
            Direction::West => self.rect.x - self.velocity,
            Direction::East => self.rect.x + self.velocity,
        }
    }

    /// The vehicle with its sensors placed around its position.
    pub open spec fn with_sensors(self) -> Vehicle {
        Vehicle {
            position_middle_sensor: sensor_at(
                self.direction,
                self.position.x as int,
                self.position.y as int,
                true,
            ),
            position_front_sensor: sensor_at(
                self.direction,
                self.position.x as int,
                self.position.y as int,
                false,
            ),
            ..self
        }
    }

    /// The vehicle after driving on without turning: the body moves forward
    /// and the position follows it along the heading.
    pub open spec fn advanced(self) -> Vehicle {
        let t = clamped(self.advance_target()) as i32;
        match self.direction {
            Direction::North | Direction::South => Vehicle {
                rect: Rect { y: t, ..self.rect },
                position: Position { y: t, ..self.position },
                ..self
            },
            Direction::West | Direction::East => Vehicle {
                rect: Rect { x: t, ..self.rect },
                position: Position { x: t, ..self.position },
                ..self
            },
        }
    }

    /// The vehicle after turning at its pivot: the body and the position move
    /// to the turn target, the heading and the picture turn, and the turning
    /// point is used up.
    pub open spec fn turned(self) -> Vehicle {
        let (tx, ty) = self.turn_target();
        let x = clamped(tx) as i32;
        let y = clamped(ty) as i32;
        let d = heading_after_turn(self.direction, self.virage);
        Vehicle {
            rect: Rect { x, y, ..self.rect },
            position: Position { x, y },
            direction: d,
            angle: heading_angle(d) as i32,
            turning_point: None,
            ..self
        }
    }

    /// One step of driving: turn if the pivot is reached, otherwise move
    /// forward; then place the sensors around the new position.
    pub open spec fn driven(self) -> Vehicle {
        if self.pivot_reached() {
            self.turned().with_sensors()
        } else {
            self.advanced().with_sensors()
        }
    }

    /// Whether one step of driving stays inside the range of `i32`.
    pub open spec fn drive_fits(self) -> bool {
        if self.pivot_reached() {
            &&& in_i32(self.turn_shift())
            &&& in_i32(self.turn_target().0)
            &&& in_i32(self.turn_target().1)
        } else {
            let moved = self.advanced();
            &&& in_i32(self.advance_target())
            &&& sensor_fits(moved.direction, moved.position.x as int, moved.position.y as int, true)
            &&& sensor_fits(moved.direction, moved.position.x as int, moved.position.y as int, false)
        }
    }

    /// A vehicle entering the map with the given identity and speed.
    pub fn new(id: usize, velocity: i32, direction: Direction, virage: Virage) -> (v: Vehicle)
        ensures
            v == entering_vehicle(id, velocity, direction, virage, v.entry_time),
    {
        let angle: i32 = match direction {
            Direction::North => 180,
            Direction::South => 0,
            Direction::East => -90,
            Direction::West => 90,
        };
        let position = Position::new(&direction, &virage);
        let turning_point = Pivot::new(&direction, &virage, &position);
        let rect = Rect::new(position.x, position.y, CAR_WIDTH, CAR_HEIGHT);
        proof {
            reveal_strlit("middle");
            reveal_strlit("front");
            assert(!names_middle("front"@)) by {
                assert("front"@.len() != "middle"@.len());
            }
        }
        let position_middle_sensor = Position::set_position(
            &direction,
            position.x,
            position.y,
            "middle",
        );
        let position_front_sensor = Position::set_position(
            &direction,
            position.x,
            position.y,
            "front",
        );
        let entry_time = now();
        Vehicle {
            id,
            position,
            origin: position,
            direction,
            virage,
            turning_point,
            velocity,
            rect,
            angle,
            position_middle_sensor,
            position_front_sensor,
            entry_time,
        }
    }

    /// Places both sensors around the current position.
    fn place_sensors(&mut self)
        requires
            sensor_fits(old(self).direction, old(self).position.x as int, old(self).position.y as int, true),
            sensor_fits(old(self).direction, old(self).position.x as int, old(self).position.y as int, false),
        ensures
            *final(self) == old(self).with_sensors(),
    {
        proof {
            reveal_strlit("middle");
            reveal_strlit("front");
            assert(!names_middle("front"@)) by {
                assert("front"@.len() != "middle"@.len());
            }
        }
        self.position_middle_sensor = Position::set_position(
            &self.direction,
            self.position.x,
            self.position.y,
            "middle",
        );
        self.position_front_sensor = Position::set_position(
            &self.direction,
            self.position.x,
            self.position.y,
            "front",
        );
    }

    /// Turns at the reached pivot: see [`Vehicle::turned`].
    fn turn(&mut self)
        requires
            old(self).pivot_reached(),
            in_i32(old(self).turn_shift()),
            in_i32(old(self).turn_target().0),
            in_i32(old(self).turn_target().1),
        ensures
            *final(self) == old(self).turned(),
    {
        let n: i32 = match self.virage {
            Virage::L => -1,
            Virage::R | Virage::S => 1,
        };
        assert(n == turn_sign(self.virage));
        assert(n == -1 || n == 1);
        let p: Position = match &self.turning_point {
            Some(pivot) => pivot.position,
            None => self.position,
        };
        let shift: i32 = n * self.velocity;
        match self.direction {
            Direction::North => {
                self.angle = 0 - 90 * n;
                self.rect.set_x(self.rect.x + shift);
                self.rect.set_y(p.y + 2);
                if self.angle > 0 {
                    self.direction = Direction::West;
                } else {
                    self.direction = Direction::East;
                }
            },
            Direction::South => {
                self.angle = 90 * n;
                self.rect.set_x(self.rect.x - shift);
                self.rect.set_y(p.y + 2);
                if self.angle > 0 {
                    self.direction = Direction::West;
                } else {
                    self.direction = Direction::East;
                }
            },
            Direction::West => {
                self.angle = if n > 0 { 180 } else { 0 };
                self.rect.set_x(p.x + 2);
                self.rect.set_y(self.rect.y - shift);
                if self.angle == 180 {
                    self.direction = Direction::North;
                } else {
                    self.direction = Direction::South;
                }
            },
            Direction::East => {
                self.angle = if n > 0 { 0 } else { 180 };
                self.rect.set_x(p.x + 2);
                self.rect.set_y(self.rect.y + shift);
                if self.angle == 180 {
                    self.direction = Direction::North;
                } else {
                    self.direction = Direction::South;
                }
            },
        }
        self.position.x = self.rect.x;
        self.position.y = self.rect.y;
        self.turning_point = None;
    }

    /// Moves forward: see [`Vehicle::advanced`].
    fn advance(&mut self)
        requires
            in_i32(old(self).advance_target()),
        ensures
            *final(self) == old(self).advanced(),
    {
        match self.direction {
            Direction::North => {
                self.rect.set_y(self.rect.y - self.velocity);
                self.position.y = self.rect.y;
            },
            Direction::South => {
                self.rect.set_y(self.rect.y + self.velocity);
                self.position.y = self.rect.y;
            },
            Direction::West => {
                self.rect.set_x(self.rect.x - self.velocity);
                self.position.x = self.rect.x;
            },
            Direction::East => {
                self.rect.set_x(self.rect.x + self.velocity);
                self.position.x = self.rect.x;
            },
        }
    }

    /// Drives one step: a vehicle that has reached its turning point turns
    /// (its body shifts sideways by `velocity` to the side of the turn and
    /// lands two pixels past the pivot), any other moves `velocity` pixels
    /// forward; the sensors follow.
    pub fn drive(&mut self)
        requires
            old(self).drive_fits(),
        ensures
            *final(self) == old(self).driven(),
    {
        let reached: bool = match &self.turning_point {
            Some(pivot) => match self.direction {
                Direction::North => self.rect.y <= pivot.position.y,
                Direction::South => self.rect.y >= pivot.position.y,
                Direction::West => self.rect.x <= pivot.position.x,
                Direction::East => self.rect.x >= pivot.position.x,
            },
            None => false,
        };
        if reached {
            self.turn();
            proof {
                lemma_clamped_in_range(old(self).turn_target().0);
                lemma_clamped_in_range(old(self).turn_target().1);
            }
        } else {
            self.advance();
        }
        self.place_sensors();
    }

    /// Whether the vehicle has left the map of the given size.
    pub open spec fn out_of_bounds(self, map_width: i32, map_height: i32) -> bool {
        self.position.x < 0 || self.position.x > map_width || self.position.y < 0
            || self.position.y > map_height
    }

    /// Whether the vehicle's position lies outside `[0, map_width]` by
    /// `[0, map_height]`.
    pub fn is_out_of_bounds(&self, map_width: i32, map_height: i32) -> (r: bool)
        ensures
            r == self.out_of_bounds(map_width, map_height),
    {
        self.position.x < 0 || self.position.x > map_width || self.position.y < 0
            || self.position.y > map_height
    }

    /// Whether `self` has to let `other` go first: both stand still, they
    /// are different vehicles, and `other` comes from the left of `self`.
    pub open spec fn yields_to(self, other: Vehicle) -> bool {
        &&& self.velocity == 0
        &&& other.velocity == 0
        &&& self.id != other.id
        &&& match (self.direction, other.direction) {
            (Direction::East, Direction::North)
            | (Direction::North, Direction::West)
            | (Direction::South, Direction::East)
            | (Direction::West, Direction::South) => true,
            _ => false,
        }
    }

    /// Whether `self` has to let one of `others` go first.
    pub open spec fn yields_among(self, others: Seq<Vehicle>) -> bool {
        exists|i: int| 0 <= i < others.len() && self.yields_to(#[trigger] others[i])
    }

    /// Whether some vehicle of `others` has the right of way over `self`
    /// (see [`Vehicle::yields_to`]).
    pub fn let_priority_left(&self, others: &Vec<Vehicle>) -> (r: bool)
        ensures
            r == self.yields_among(others@),
    {
        let len = others.len();
        for i in 0..len
            invariant
                len == others.len(),
                forall|j: int| 0 <= j < i ==> !self.yields_to(#[trigger] others@[j]),
        {
            let other = &others[i];
            if self.velocity == 0 && other.velocity == 0 && self.id != other.id {
                match (self.direction, other.direction) {
                    (Direction::East, Direction::North)
                    | (Direction::North, Direction::West)
                    | (Direction::South, Direction::East)
                    | (Direction::West, Direction::South) => {
                        return true;
                    },
                    _ => {},
                }
            }
        }
        false
    }

    /// Sets the speed.
    pub fn mut_velocity(&mut self, speed: i32)
        ensures
            *final(self) == (Vehicle { velocity: speed, ..*old(self) }),
    {
        self.velocity = speed;
    }
}

/// How far to each side of a sensor a crossing vehicle still counts as in
/// the way, in pixels.
pub const SIDE_MARGIN: i32 = 49;

impl Vehicle {
    /// Whether `other` is in the way of `self`, judged by their middle
    /// sensors: a crossing vehicle within `SIDE_MARGIN` of the line `self`
    /// drives on, or a vehicle ahead on the same line heading the same way.
    pub open spec fn in_path(self, other: Vehicle) -> bool {
        let me = self.position_middle_sensor;
        let it = other.position_middle_sensor;
        match self.direction {
            Direction::North | Direction::South => match other.direction {
                Direction::East | Direction::West => me.x - SIDE_MARGIN <= it.x <= me.x
                    + SIDE_MARGIN,
                Direction::North => it.x == me.x && it.y <= me.y && self.direction
                    == Direction::North,
                Direction::South => it.x == me.x && it.y >= me.y && self.direction
                    == Direction::South,
            },
            Direction::East | Direction::West => match other.direction {
                Direction::North | Direction::South => me.y - SIDE_MARGIN <= it.y <= me.y
                    + SIDE_MARGIN,
                Direction::East => it.y == me.y && it.x >= me.x && self.direction
                    == Direction::East,
                Direction::West => it.y == me.y && it.x <= me.x && self.direction
                    == Direction::West,
            },
        }
    }

    /// Whether `other`, whose middle sensor lies `distance` pixels from the
    /// front sensor of `self`, is another vehicle that `self` detects in
    /// its way within `detection_distance`.
    pub open spec fn detects(self, other: Vehicle, distance: u32, detection_distance: u32) -> bool {
        self.id != other.id && distance <= detection_distance && self.in_path(other)
    }

    /// Whether `self` sees a vehicle in front of it among `vehicles`, the
    /// middle sensor of `vehicles[i]` lying `distances[i]` pixels from its
    /// front sensor: it does not turn right, and detects one of them.
    pub open spec fn detects_among(
        self,
        vehicles: Seq<Vehicle>,
        distances: Seq<u32>,
        detection_distance: u32,
    ) -> bool {
        self.virage != Virage::R && exists|i: int|
            0 <= i < vehicles.len() && self.detects(
                #[trigger] vehicles[i],
                distances[i],
                detection_distance,
            )
    }

    /// Whether the comparison of [`Vehicle::in_path`] stays inside `i32`
    /// where it is evaluated: the bounds of the band around the line that
    /// `self` drives on, the upper one only once the lower one holds.
    pub open spec fn path_check_fits(self, other: Vehicle) -> bool {
        let me = self.position_middle_sensor;
        let it = other.position_middle_sensor;
        let crossing = match (self.direction, other.direction) {
            (Direction::North, Direction::East)
            | (Direction::North, Direction::West)
            | (Direction::South, Direction::East)
            | (Direction::South, Direction::West) => Some((me.x as int, it.x as int)),
            (Direction::East, Direction::North)
            | (Direction::East, Direction::South)
            | (Direction::West, Direction::North)
            | (Direction::West, Direction::South) => Some((me.y as int, it.y as int)),
            _ => None,
        };
        match crossing {
            Some((mine, its)) => in_i32(mine - SIDE_MARGIN) && (its >= mine - SIDE_MARGIN
                ==> in_i32(mine + SIDE_MARGIN)),
            None => true,
        }
    }

    /// Whether the scan of [`Vehicle::detect_vehicle_front`] stays inside
    /// `i32`: each vehicle that the scan reaches, and that is another vehicle
    /// within reach, can be checked.
    pub open spec fn front_scan_fits(
        self,
        vehicles: Seq<Vehicle>,
        distances: Seq<u32>,
        detection_distance: u32,
    ) -> bool {
        self.virage != Virage::R ==> forall|i: int|
            0 <= i < vehicles.len() && (forall|j: int|
                0 <= j < i ==> !self.detects(vehicles[j], distances[j], detection_distance))
                && self.id != vehicles[i].id && distances[i] <= detection_distance
                ==> #[trigger] self.path_check_fits(vehicles[i])
    }

    /// Whether `other` is in the way (see [`Vehicle::in_path`]).
    fn is_in_path(&self, other: &Vehicle) -> (r: bool)
        requires
            self.path_check_fits(*other),
        ensures
            r == self.in_path(*other),
    {
        let me = self.position_middle_sensor;
        let it = other.position_middle_sensor;
        match self.direction {
            Direction::North | Direction::South => match other.direction {
                Direction::East | Direction::West => it.x >= me.x - SIDE_MARGIN && it.x <= me.x
                    + SIDE_MARGIN,
                Direction::North => it.x == me.x && it.y <= me.y && self.direction
                    == Direction::North,
                Direction::South => it.x == me.x && it.y >= me.y && self.direction
                    == Direction::South,
            },
            Direction::East | Direction::West => match other.direction {
                Direction::North | Direction::South => it.y >= me.y - SIDE_MARGIN && it.y <= me.y
                    + SIDE_MARGIN,
                Direction::East => it.y == me.y && it.x >= me.x && self.direction
                    == Direction::East,
                Direction::West => it.y == me.y && it.x <= me.x && self.direction
                    == Direction::West,
            },
        }
    }

    /// Whether `self` sees a vehicle in front of it. A vehicle turning right
    /// never does; any other sees the first vehicle of `vehicles`, other than
    /// itself, whose middle sensor lies within `detection_distance` of its
    /// front sensor and that is in its way (see [`Vehicle::in_path`]).
    ///
    /// `sensor_distances[i]` is the distance from the front sensor of `self`
    /// to the middle sensor of `vehicles[i]`, rounded down.
    pub fn detect_vehicle_front(
        &self,
        vehicles: &Vec<Vehicle>,
        sensor_distances: &Vec<u32>,
        detection_distance: u32,
    ) -> (r: bool)
        requires
            sensor_distances.len() == vehicles.len(),
            self.front_scan_fits(vehicles@, sensor_distances@, detection_distance),
        ensures
            r == self.detects_among(vehicles@, sensor_distances@, detection_distance),
    {
        if self.virage == Virage::R {
            return false;
        }
        let len = vehicles.len();
        for i in 0..len
            invariant
                len == vehicles.len(),
                sensor_distances.len() == vehicles.len(),
                self.virage != Virage::R,
                self.front_scan_fits(vehicles@, sensor_distances@, detection_distance),
                forall|j: int|
                    0 <= j < i ==> !self.detects(
                        #[trigger] vehicles@[j],
                        sensor_distances@[j],
                        detection_distance,
                    ),
        {
            let vehicle = &vehicles[i];
            if self.id != vehicle.id && sensor_distances[i] <= detection_distance {
                assert(self.path_check_fits(vehicles@[i as int]));
                if self.is_in_path(vehicle) {
                    return true;
                }
            }
        }
        false
    }
}

/// The square of the distance the vehicle has driven from its entry point.
pub open spec fn travelled_squared(v: Vehicle) -> int {
    let dx = v.position.x - v.origin.x;
    let dy = v.position.y - v.origin.y;
    dx * dx + dy * dy
}

/// Whether the distance computation of [`Vehicle::is_safe_position`] stays
/// inside `i32` for the vehicle `v`.
pub open spec fn travelled_fits(v: Vehicle) -> bool {
    &&& in_i32(v.position.x - v.origin.x)
    &&& in_i32(v.position.y - v.origin.y)
    &&& travelled_squared(v) <= i32::MAX
}

/// Whether a new vehicle may enter after `vehicles`: there is none, or the
/// last one has driven at least `SAFETY_DISTANCE` from its entry point.
pub open spec fn safe_to_enter(vehicles: Seq<Vehicle>) -> bool {
    vehicles.len() == 0 || travelled_squared(vehicles.last()) >= SAFETY_DISTANCE * SAFETY_DISTANCE
}

impl Vehicle {
    /// Whether a new vehicle may enter: no vehicle is on the map yet, or the
    /// last one has driven at least `SAFETY_DISTANCE` from its entry point.
    ///
    /// The distance is the square root of the sum of squares, rounded down;
    /// it reaches `SAFETY_DISTANCE` exactly when the sum of squares reaches
    /// its square.
    pub fn is_safe_position(vehicles: &Vec<Vehicle>) -> (r: bool)
        requires
            vehicles.len() > 0 ==> travelled_fits(vehicles@.last()),
        ensures
            r == safe_to_enter(vehicles@),
    {
        if vehicles.len() == 0 {
            return true;
        }
        let last = &vehicles[vehicles.len() - 1];
        let dx: i32 = last.position.x - last.origin.x;
        let dy: i32 = last.position.y - last.origin.y;
        assert(0 <= dx * dx && 0 <= dy * dy) by (nonlinear_arith);
        let squared: i32 = dx * dx + dy * dy;
        let distance: u32 = crate::geometry::floor_sqrt(squared as u32);
        assert(distance >= 100 <==> squared >= 10000) by (nonlinear_arith)
            requires
                distance * distance <= squared < (distance + 1) * (distance + 1),
                distance >= 0,
        ;
        distance >= SAFETY_DISTANCE
    }
}

/// The vehicles of `vehicles` still on a map of the given size, in order.
pub open spec fn on_map(vehicles: Seq<Vehicle>, map_width: i32, map_height: i32) -> Seq<Vehicle> {
    vehicles.filter(|v: Vehicle| !v.out_of_bounds(map_width, map_height))
}

/// The vehicles of `vehicles` that have left a map of the given size, in order.
pub open spec fn off_map(vehicles: Seq<Vehicle>, map_width: i32, map_height: i32) -> Seq<Vehicle> {
    vehicles.filter(|v: Vehicle| v.out_of_bounds(map_width, map_height))
}

/// Takes the vehicles that have left the map out of `vehicles`, keeping the
/// order of the others, and returns them in their order.
pub fn remove_vehicles_out_of_bounds(
    vehicles: &mut Vec<Vehicle>,
    map_width: i32,
    map_height: i32,
) -> (removed: Vec<Vehicle>)
    ensures
        final(vehicles)@ == on_map(old(vehicles)@, map_width, map_height),
        removed@ == off_map(old(vehicles)@, map_width, map_height),
{
    let ghost all = vehicles@;
    let mut rest: Vec<Vehicle> = Vec::new();
    std::mem::swap(&mut rest, vehicles);
    let mut kept: Vec<Vehicle> = Vec::new();
    let mut out_of_bounds_vehicles: Vec<Vehicle> = Vec::new();
    let ghost mut k: int = 0;
    assert(all.take(0) =~= Seq::<Vehicle>::empty());
    proof {
        reveal_with_fuel(Seq::<_>::filter, 1);
    }
    while rest.len() > 0
        invariant
            0 <= k <= all.len(),
            rest@ == all.skip(k),
            kept@ == on_map(all.take(k), map_width, map_height),
            out_of_bounds_vehicles@ == off_map(all.take(k), map_width, map_height),
        decreases rest.len(),
    {
        let vehicle = rest.remove(0);
        proof {
            assert(all.take(k + 1).drop_last() =~= all.take(k));
            assert(all.take(k + 1).last() == vehicle);
            assert(all.skip(k).remove(0) =~= all.skip(k + 1));
            reveal_with_fuel(Seq::<_>::filter, 1);
        }
        if vehicle.is_out_of_bounds(map_width, map_height) {
            out_of_bounds_vehicles.push(vehicle);
        } else {
            kept.push(vehicle);
        }
        proof {
            k = k + 1;
        }
    }
    assert(all.take(k) =~= all);
    *vehicles = kept;
    out_of_bounds_vehicles
}

/// Whether `v` lies in the range of `i32`, for a wide integer.
fn fits_in_i32(v: i64) -> (r: bool)
    ensures
        r == in_i32(v as int),
{
    i32::MIN as i64 <= v && v <= i32::MAX as i64
}

/// Clamps a coordinate held in a wide integer.
fn clamp_wide(v: i64) -> (r: i64)
    ensures
        r == clamped(v as int),
{
    if v > crate::geometry::MAX_COORDINATE as i64 {
        crate::geometry::MAX_COORDINATE as i64
    } else if v < crate::geometry::MIN_COORDINATE as i64 {
        crate::geometry::MIN_COORDINATE as i64
    } else {
        v
    }
}

/// Whether the sensor of a vehicle at `(x, y)` lies inside `i32`.
fn sensor_fits_wide(direction: Direction, x: i32, y: i32, middle: bool) -> (r: bool)
    ensures
        r == sensor_fits(direction, x as int, y as int, middle),
{
    let (dx, dy): (i64, i64) = if middle {
        (3, 13)
    } else {
        match direction {
            Direction::North => (3, -40),
            Direction::South => (3, 70),
            Direction::East => (50, 15),
            Direction::West => (-50, 15),
        }
    };
    fits_in_i32(x as i64 + dx) && fits_in_i32(y as i64 + dy)
}

impl Vehicle {
    /// Whether [`Vehicle::drive`] can be called: see [`Vehicle::drive_fits`].
    pub fn can_drive(&self) -> (r: bool)
        ensures
            r == self.drive_fits(),
    {
        let reached: bool = match &self.turning_point {
            Some(pivot) => match self.direction {
                Direction::North => self.rect.y <= pivot.position.y,
                Direction::South => self.rect.y >= pivot.position.y,
                Direction::West => self.rect.x <= pivot.position.x,
                Direction::East => self.rect.x >= pivot.position.x,
            },
            None => false,
        };
        let x = self.rect.x as i64;
        let y = self.rect.y as i64;
        let v = self.velocity as i64;
        if reached {
            let p: Position = match &self.turning_point {
                Some(pivot) => pivot.position,
                None => self.position,
            };
            let shift: i64 = if self.virage == Virage::L { 0 - v } else { v };
            let (tx, ty): (i64, i64) = match self.direction {
                Direction::North => (x + shift, p.y as i64 + 2),
                Direction::South => (x - shift, p.y as i64 + 2),
                Direction::West => (p.x as i64 + 2, y - shift),
                Direction::East => (p.x as i64 + 2, y + shift),
            };
            fits_in_i32(shift) && fits_in_i32(tx) && fits_in_i32(ty)
        } else {
            let target: i64 = match self.direction {
                Direction::North => y - v,
                Direction::South => y + v,
                Direction::West => x - v,
                Direction::East => x + v,
            };
            if !fits_in_i32(target) {
                return false;
            }
            let c = clamp_wide(target) as i32;
            let (px, py): (i32, i32) = match self.direction {
                Direction::North | Direction::South => (self.position.x, c),
                Direction::West | Direction::East => (c, self.position.y),
            };
            sensor_fits_wide(self.direction, px, py, true) && sensor_fits_wide(
                self.direction,
                px,
                py,
                false,
            )
        }
    }

    /// Whether the band check of [`Vehicle::in_path`] against `other` stays
    /// inside `i32` (see [`Vehicle::path_check_fits`]).
    fn can_check_path(&self, other: &Vehicle) -> (r: bool)
        ensures
            r == self.path_check_fits(*other),
    {
        let me = self.position_middle_sensor;
        let it = other.position_middle_sensor;
        let crossing: Option<(i64, i64)> = match (self.direction, other.direction) {
            (Direction::North, Direction::East)
            | (Direction::North, Direction::West)
            | (Direction::South, Direction::East)
            | (Direction::South, Direction::West) => Some((me.x as i64, it.x as i64)),
            (Direction::East, Direction::North)
            | (Direction::East, Direction::South)
            | (Direction::West, Direction::North)
            | (Direction::West, Direction::South) => Some((me.y as i64, it.y as i64)),
            _ => None,
        };
        match crossing {
            Some((mine, its)) => fits_in_i32(mine - SIDE_MARGIN as i64) && (its < mine
                - SIDE_MARGIN as i64 || fits_in_i32(mine + SIDE_MARGIN as i64)),
            None => true,
        }
    }

    /// Whether [`Vehicle::detect_vehicle_front`] can be called with these
    /// arguments: see [`Vehicle::front_scan_fits`].
    pub fn can_scan_front(
        &self,
        vehicles: &Vec<Vehicle>,
        sensor_distances: &Vec<u32>,
        detection_distance: u32,
    ) -> (r: bool)
        requires
            sensor_distances.len() == vehicles.len(),
        ensures
            r == self.front_scan_fits(vehicles@, sensor_distances@, detection_distance),
    {
        if self.virage == Virage::R {
            return true;
        }
        let len = vehicles.len();
        for i in 0..len
            invariant
                len == vehicles.len(),
                sensor_distances.len() == vehicles.len(),
                self.virage != Virage::R,
                forall|j: int|
                    0 <= j < i ==> !self.detects(
                        #[trigger] vehicles@[j],
                        sensor_distances@[j],
                        detection_distance,
                    ),
                forall|j: int|
                    0 <= j < i && self.id != vehicles@[j].id && sensor_distances@[j]
                        <= detection_distance ==> #[trigger] self.path_check_fits(vehicles@[j]),
        {
            let vehicle = &vehicles[i];
            if self.id != vehicle.id && sensor_distances[i] <= detection_distance {
                if !self.can_check_path(vehicle) {
                    assert(!self.path_check_fits(vehicles@[i as int]));
                    return false;
                }
                if self.is_in_path(vehicle) {
                    assert(self.detects(vehicles@[i as int], sensor_distances@[i as int], detection_distance));
                    assert forall|m: int|
                        0 <= m < vehicles.len() && (forall|j: int|
                            0 <= j < m ==> !self.detects(
                                vehicles@[j],
                                sensor_distances@[j],
                                detection_distance,
                            )) && self.id != vehicles@[m].id && sensor_distances@[m]
                            <= detection_distance implies #[trigger] self.path_check_fits(
                        vehicles@[m],
                    ) by {
                        if m > i {
                            assert(self.detects(vehicles@[i as int], sensor_distances@[i as int], detection_distance));
                        }
                    }
                    return true;
                }
            }
        }
        true
    }

    /// Whether [`Vehicle::is_safe_position`] can be called on `vehicles`:
    /// see [`travelled_fits`].
    pub fn can_measure_last(vehicles: &Vec<Vehicle>) -> (r: bool)
        ensures
            r == (vehicles.len() > 0 ==> travelled_fits(vehicles@.last())),
    {
        if vehicles.len() == 0 {
            return true;
        }
        let last = &vehicles[vehicles.len() - 1];
        let dx: i64 = last.position.x as i64 - last.origin.x as i64;
        let dy: i64 = last.position.y as i64 - last.origin.y as i64;
        if !fits_in_i32(dx) || !fits_in_i32(dy) {
            return false;
        }
        assert(0 <= dx * dx <= 0x4000_0000_0000_0000 && 0 <= dy * dy <= 0x4000_0000_0000_0000)
            by (nonlinear_arith)
            requires
                -0x8000_0000 <= dx <= 0x7fff_ffff,
                -0x8000_0000 <= dy <= 0x7fff_ffff,
        ;
        let squared: i128 = dx as i128 * dx as i128 + dy as i128 * dy as i128;
        squared <= i32::MAX as i128
    }
}

/// The heading opposite to `direction`.
pub open spec fn opposite(direction: Direction) -> Direction {
    match direction {
        Direction::North => Direction::South,
        Direction::South => Direction::North,
        Direction::East => Direction::West,
        Direction::West => Direction::East,
    }
}

impl Vehicle {
    /// Whether the parts of the vehicle agree: its position is the corner of
    /// its body, its picture is turned to its heading, and its sensors lie
    /// around its position.
    pub open spec fn is_consistent(self) -> bool {
        &&& self.position.x == self.rect.x
        &&& self.position.y == self.rect.y
        &&& self.angle == heading_angle(self.direction)
        &&& self.position_middle_sensor == sensor_at(
            self.direction,
            self.position.x as int,
            self.position.y as int,
            true,
        )
        &&& self.position_front_sensor == sensor_at(
            self.direction,
            self.position.x as int,
            self.position.y as int,
            false,
        )
    }
}

/// Every vehicle enters the map with its parts in agreement, standing at
/// its entry point.
pub proof fn lemma_entering_vehicle_consistent(
    id: usize,
    velocity: i32,
    direction: Direction,
    virage: Virage,
    entry_time: std::time::Instant,
)
    ensures
        entering_vehicle(id, velocity, direction, virage, entry_time).is_consistent(),
        entering_vehicle(id, velocity, direction, virage, entry_time).origin == entering_vehicle(
            id,
            velocity,
            direction,
            virage,
            entry_time,
        ).position,
{
}

/// Driving keeps the parts of a vehicle in agreement.
pub proof fn lemma_drive_keeps_consistent(v: Vehicle)
    requires
        v.is_consistent(),
    ensures
        v.driven().is_consistent(),
{
}

/// Driving never changes who a vehicle is, how fast it goes, where it came
/// from, which way it leaves, or when it entered.
pub proof fn lemma_drive_keeps_identity(v: Vehicle)
    ensures
        v.driven().id == v.id,
        v.driven().velocity == v.velocity,
        v.driven().origin == v.origin,
        v.driven().virage == v.virage,
        v.driven().entry_time == v.entry_time,
{
}

/// A vehicle turns at most once: it changes heading only at its pivot,
/// towards the side of its turn, and the pivot is then used up; without a
/// pivot it keeps its heading.
pub proof fn lemma_turns_at_most_once(v: Vehicle)
    ensures
        v.driven().direction != v.direction ==> v.turning_point is Some && v.driven().turning_point
            is None && v.driven().direction == heading_after_turn(v.direction, v.virage),
        v.turning_point is None ==> v.driven().direction == v.direction && v.driven().turning_point
            is None,
{
}

/// A turn is a quarter turn, and turning left and turning right lead to
/// opposite headings.
pub proof fn lemma_turn_is_quarter(direction: Direction, virage: Virage)
    ensures
        heading_after_turn(direction, virage) != direction,
        heading_after_turn(direction, virage) != opposite(direction),
        heading_after_turn(direction, Virage::R) == opposite(
            heading_after_turn(direction, Virage::L),
        ),
{
}

/// A vehicle that goes straight on has no turning point, and one that turns
/// has one.
pub proof fn lemma_pivot_only_for_turns(direction: Direction, virage: Virage, position: Position)
    ensures
        pivot_point(direction, virage, position) is None <==> virage == Virage::S,
{
}

/// The turning point of a vehicle lies ahead of its entry point, on the line
/// it drives along: driving forward from the entry it reaches the pivot.
pub proof fn lemma_pivot_ahead_of_entry(direction: Direction, virage: Virage)
    requires
        virage != Virage::S,
    ensures
        ({
            let e = entry_point(direction, virage);
            let p = pivot_point(direction, virage, e)->0.position;
            match direction {
                Direction::North => p.x == e.x && p.y < e.y,
                Direction::South => p.x == e.x && p.y > e.y,
                Direction::West => p.y == e.y && p.x < e.x,
                Direction::East => p.y == e.y && p.x > e.x,
            }
        }),
{
}

/// The twelve lanes start at twelve different points.
pub proof fn lemma_entry_points_distinct(d1: Direction, v1: Virage, d2: Direction, v2: Virage)
    requires
        d1 != d2 || v1 != v2,
    ensures
        entry_point(d1, v1) != entry_point(d2, v2),
{
}

/// A vehicle that is moving never has to yield.
pub proof fn lemma_moving_never_yields(v: Vehicle, other: Vehicle)
    requires
        v.velocity != 0,
    ensures
        !v.yields_to(other),
{
}

/// Two vehicles standing still never have to yield to each other both.
pub proof fn lemma_yield_is_one_way(a: Vehicle, b: Vehicle)
    ensures
        !(a.yields_to(b) && b.yields_to(a)),
{
}

/// A vehicle that turns right never sees a vehicle in front, and one that
/// does not, among no vehicle, sees none.
pub proof fn lemma_right_turners_see_nothing(
    me: Vehicle,
    vehicles: Seq<Vehicle>,
    distances: Seq<u32>,
    reach: u32,
)
    ensures
        me.virage == Virage::R ==> !me.detects_among(vehicles, distances, reach),
        vehicles.len() == 0 ==> !me.detects_among(vehicles, distances, reach),
{
}

/// A vehicle has left the map exactly when its position lies outside the
/// rectangle from `(0, 0)` to `(map_width, map_height)`, edges included in
/// the map.
pub proof fn lemma_out_of_bounds_outside_map(v: Vehicle, map_width: i32, map_height: i32)
    ensures
        v.out_of_bounds(map_width, map_height) <==> !(0 <= v.position.x <= map_width && 0
            <= v.position.y <= map_height),
{
}

/// A vehicle never detects itself.
pub proof fn lemma_no_self_detection(v: Vehicle, other: Vehicle, distance: u32, reach: u32)
    ensures
        v.id == other.id ==> !v.detects(other, distance, reach),
{
}

/// Taking out the vehicles that left the map splits the list in two: every
/// vehicle ends up on exactly one side, those kept are on the map and those
/// taken out are not.
pub proof fn lemma_split_by_bounds(vehicles: Seq<Vehicle>, map_width: i32, map_height: i32)
    ensures
        on_map(vehicles, map_width, map_height).len() + off_map(vehicles, map_width, map_height).len()
            == vehicles.len(),
        forall|i: int|
            0 <= i < on_map(vehicles, map_width, map_height).len() ==> !(
            #[trigger] on_map(vehicles, map_width, map_height)[i]).out_of_bounds(map_width, map_height),
        forall|i: int|
            0 <= i < off_map(vehicles, map_width, map_height).len() ==> (#[trigger] off_map(
                vehicles,
                map_width,
                map_height,
            )[i]).out_of_bounds(map_width, map_height),
    decreases vehicles.len(),
{
    reveal_with_fuel(Seq::<_>::filter, 1);
    let keep = |v: Vehicle| !v.out_of_bounds(map_width, map_height);
    let leave = |v: Vehicle| v.out_of_bounds(map_width, map_height);
    vehicles.lemma_filter_len(keep);
    vehicles.filter_lemma(keep);
    vehicles.filter_lemma(leave);
    if vehicles.len() > 0 {
        lemma_split_by_bounds(vehicles.drop_last(), map_width, map_height);
    }
}

/// Taking out the vehicles that left the map a second time takes out none.
pub proof fn lemma_split_idempotent(vehicles: Seq<Vehicle>, map_width: i32, map_height: i32)
    ensures
        on_map(on_map(vehicles, map_width, map_height), map_width, map_height) == on_map(
            vehicles,
            map_width,
            map_height,
        ),
        off_map(on_map(vehicles, map_width, map_height), map_width, map_height).len() == 0,
{
    let kept = on_map(vehicles, map_width, map_height);
    lemma_split_by_bounds(vehicles, map_width, map_height);
    lemma_split_by_bounds(kept, map_width, map_height);
    lemma_filter_all(kept, map_width, map_height);
}

/// Keeping the vehicles on the map, from a list of vehicles all on the map,
/// keeps the whole list.
proof fn lemma_filter_all(vehicles: Seq<Vehicle>, map_width: i32, map_height: i32)
    requires
        forall|i: int| 0 <= i < vehicles.len() ==> !(#[trigger] vehicles[i]).out_of_bounds(map_width, map_height),
    ensures
        on_map(vehicles, map_width, map_height) == vehicles,
    decreases vehicles.len(),
{
    reveal_with_fuel(Seq::<_>::filter, 1);
    if vehicles.len() > 0 {
        lemma_filter_all(vehicles.drop_last(), map_width, map_height);
        assert(vehicles.drop_last().push(vehicles.last()) =~= vehicles);
    } else {
        assert(on_map(vehicles, map_width, map_height) =~= vehicles);
    }
}

/// A turning vehicle lands in the entry lane of its new heading: after the
/// turn, its coordinate across the new heading is that of the lane by which
/// vehicles heading that way and leaving the same way enter the map.
pub proof fn lemma_turn_lands_in_lane(v: Vehicle, start: Position)
    requires
        v.virage != Virage::S,
        v.turning_point == pivot_point(v.direction, v.virage, start),
        v.pivot_reached(),
    ensures
        ({
            let after = v.driven();
            let lane = entry_point(after.direction, v.virage);
            match v.direction {
                Direction::North | Direction::South => after.rect.y == lane.y && after.position.y
                    == lane.y,
                Direction::East | Direction::West => after.rect.x == lane.x && after.position.x
                    == lane.x,
            }
        }),
{
}

/// The picture of a vehicle stays turned to its heading while it drives.
pub proof fn lemma_drive_keeps_angle(v: Vehicle)
    requires
        v.angle == heading_angle(v.direction),
    ensures
        v.driven().angle == heading_angle(v.driven().direction),
{
}

/// A step in the life of a vehicle: drive on (`None`), or set the speed.
pub open spec fn vehicle_step(v: Vehicle, step: Option<i32>) -> Vehicle {
    match step {
        None => v.driven(),
        Some(speed) => Vehicle { velocity: speed, ..v },
    }
}

/// The vehicle after the steps `steps`, in order.
pub open spec fn after_steps(v: Vehicle, steps: Seq<Option<i32>>) -> Vehicle
    decreases steps.len(),
{
    if steps.len() == 0 {
        v
    } else {
        after_steps(vehicle_step(v, steps[0]), steps.drop_first())
    }
}

/// How many of the steps `steps` change the heading of the vehicle.
pub open spec fn heading_changes(v: Vehicle, steps: Seq<Option<i32>>) -> nat
    decreases steps.len(),
{
    if steps.len() == 0 {
        0
    } else {
        let next = vehicle_step(v, steps[0]);
        (if next.direction != v.direction {
            1nat
        } else {
            0nat
        }) + heading_changes(next, steps.drop_first())
    }
}

/// Over any steps of driving and setting the speed, a vehicle changes
/// heading at most once, and only if it had a turning point; without one it
/// keeps its heading and picture and never gets one; and its picture stays
/// turned to its heading.
pub proof fn lemma_life_of_a_vehicle(v: Vehicle, steps: Seq<Option<i32>>)
    ensures
        heading_changes(v, steps) <= (if v.turning_point is Some {
            1nat
        } else {
            0nat
        }),
        v.turning_point is None ==> after_steps(v, steps).turning_point is None && after_steps(
            v,
            steps,
        ).direction == v.direction && after_steps(v, steps).angle == v.angle,
        v.angle == heading_angle(v.direction) ==> after_steps(v, steps).angle == heading_angle(
            after_steps(v, steps).direction,
        ),
    decreases steps.len(),
{
    if steps.len() > 0 {
        let next = vehicle_step(v, steps[0]);
        lemma_life_of_a_vehicle(next, steps.drop_first());
    }
}

/// A vehicle that goes straight on never changes heading nor picture.
pub proof fn lemma_straight_on_keeps_heading(
    id: usize,
    velocity: i32,
    direction: Direction,
    entry_time: std::time::Instant,
    steps: Seq<Option<i32>>,
)
    ensures
        ({
            let v = entering_vehicle(id, velocity, direction, Virage::S, entry_time);
            &&& after_steps(v, steps).direction == direction
            &&& after_steps(v, steps).angle == heading_angle(direction)
            &&& heading_changes(v, steps) == 0
        }),
{
    let v = entering_vehicle(id, velocity, direction, Virage::S, entry_time);
    lemma_life_of_a_vehicle(v, steps);
}

/// Whether every vehicle of `vehicles1` other than `self`, with its sensor
/// distance, appears in `vehicles2` with the same distance.
pub open spec fn others_included(
    me: Vehicle,
    vehicles1: Seq<Vehicle>,
    distances1: Seq<u32>,
    vehicles2: Seq<Vehicle>,
    distances2: Seq<u32>,
) -> bool {
    forall|i: int|
        0 <= i < vehicles1.len() && (#[trigger] vehicles1[i]).id != me.id ==> exists|j: int|
            0 <= j < vehicles2.len() && vehicles2[j] == vehicles1[i] && distances2[j]
                == distances1[i]
}

/// Seeing a vehicle in front grows with the detection distance and with the
/// vehicles around: a larger distance, or more vehicles, never turn a
/// detection off.
pub proof fn lemma_detection_monotone(
    me: Vehicle,
    vehicles1: Seq<Vehicle>,
    distances1: Seq<u32>,
    reach1: u32,
    vehicles2: Seq<Vehicle>,
    distances2: Seq<u32>,
    reach2: u32,
)
    requires
        reach1 <= reach2,
        others_included(me, vehicles1, distances1, vehicles2, distances2),
    ensures
        me.detects_among(vehicles1, distances1, reach1) ==> me.detects_among(
            vehicles2,
            distances2,
            reach2,
        ),
{
    if me.detects_among(vehicles1, distances1, reach1) {
        let i = choose|i: int|
            0 <= i < vehicles1.len() && me.detects(#[trigger] vehicles1[i], distances1[i], reach1);
        assert(vehicles1[i].id != me.id);
        let j = choose|j: int|
            0 <= j < vehicles2.len() && vehicles2[j] == vehicles1[i] && distances2[j]
                == distances1[i];
        assert(me.detects(vehicles2[j], distances2[j], reach2));
    }
}

/// Seeing a vehicle in front depends only on which other vehicles are
/// around, at which distances: not on their order, nor on vehicles that
/// share the identity of `me`. Among no other vehicle, nothing is seen.
pub proof fn lemma_detection_ignores_order_and_self(
    me: Vehicle,
    vehicles1: Seq<Vehicle>,
    distances1: Seq<u32>,
    vehicles2: Seq<Vehicle>,
    distances2: Seq<u32>,
    reach: u32,
)
    requires
        others_included(me, vehicles1, distances1, vehicles2, distances2),
        others_included(me, vehicles2, distances2, vehicles1, distances1),
    ensures
        me.detects_among(vehicles1, distances1, reach) == me.detects_among(
            vehicles2,
            distances2,
            reach,
        ),
        (forall|i: int| 0 <= i < vehicles1.len() ==> (#[trigger] vehicles1[i]).id == me.id)
            ==> !me.detects_among(vehicles1, distances1, reach),
{
    lemma_detection_monotone(me, vehicles1, distances1, reach, vehicles2, distances2, reach);
    lemma_detection_monotone(me, vehicles2, distances2, reach, vehicles1, distances1, reach);
}

/// A reordering of a list of vehicles and their distances (the pairs of the
/// one are those of the other, counted with multiplicity) gives the same
/// detection.
pub proof fn lemma_detection_ignores_permutation(
    me: Vehicle,
    pairs1: Seq<(Vehicle, u32)>,
    pairs2: Seq<(Vehicle, u32)>,
    reach: u32,
)
    requires
        pairs1.to_multiset() == pairs2.to_multiset(),
    ensures
        me.detects_among(pairs1.map_values(|p: (Vehicle, u32)| p.0), pairs1.map_values(|p: (Vehicle, u32)| p.1), reach)
            == me.detects_among(pairs2.map_values(|p: (Vehicle, u32)| p.0), pairs2.map_values(|p: (Vehicle, u32)| p.1), reach),
{
    let v1 = pairs1.map_values(|p: (Vehicle, u32)| p.0);
    let d1 = pairs1.map_values(|p: (Vehicle, u32)| p.1);
    let v2 = pairs2.map_values(|p: (Vehicle, u32)| p.0);
    let d2 = pairs2.map_values(|p: (Vehicle, u32)| p.1);
    pairs1.to_multiset_ensures();
    pairs2.to_multiset_ensures();
    assert forall|i: int| 0 <= i < v1.len() && (#[trigger] v1[i]).id != me.id implies exists|j: int|
        0 <= j < v2.len() && v2[j] == v1[i] && d2[j] == d1[i] by {
        assert(pairs1.contains(pairs1[i]));
        assert(pairs1.to_multiset().count(pairs1[i]) > 0);
        assert(pairs2.to_multiset().count(pairs1[i]) > 0);
        assert(pairs2.contains(pairs1[i]));
        let j = choose|j: int| 0 <= j < pairs2.len() && pairs2[j] == pairs1[i];
        assert(v2[j] == v1[i] && d2[j] == d1[i]);
    }
    assert forall|i: int| 0 <= i < v2.len() && (#[trigger] v2[i]).id != me.id implies exists|j: int|
        0 <= j < v1.len() && v1[j] == v2[i] && d1[j] == d2[i] by {
        assert(pairs2.contains(pairs2[i]));
        assert(pairs2.to_multiset().count(pairs2[i]) > 0);
        assert(pairs1.to_multiset().count(pairs2[i]) > 0);
        assert(pairs1.contains(pairs2[i]));
        let j = choose|j: int| 0 <= j < pairs1.len() && pairs1[j] == pairs2[i];
        assert(v1[j] == v2[i] && d1[j] == d2[i]);
    }
    lemma_detection_ignores_order_and_self(me, v1, d1, v2, d2, reach);
}

/// Until a vehicle's body reaches its turning point along its heading (or
/// when it has none), a drive step keeps its heading, its picture and its
/// turning point, moves the body `velocity` pixels forward along the
/// heading (clamped), leaves the coordinate across the heading as it was,
/// and moves the position with the body along the heading.
pub proof fn lemma_drive_before_pivot(v: Vehicle)
    requires
        match v.turning_point {
            None => true,
            Some(p) => match v.direction {
                Direction::North => v.rect.y > p.position.y,
                Direction::South => v.rect.y < p.position.y,
                Direction::West => v.rect.x > p.position.x,
                Direction::East => v.rect.x < p.position.x,
            },
        },
    ensures
        ({
            let d = v.driven();
            &&& d.direction == v.direction
            &&& d.turning_point == v.turning_point
            &&& d.angle == v.angle
            &&& d.velocity == v.velocity
            &&& match v.direction {
                Direction::North => d.rect.y == clamped(v.rect.y - v.velocity) && d.rect.x
                    == v.rect.x && d.position.y == d.rect.y && d.position.x == v.position.x,
                Direction::South => d.rect.y == clamped(v.rect.y + v.velocity) && d.rect.x
                    == v.rect.x && d.position.y == d.rect.y && d.position.x == v.position.x,
                Direction::West => d.rect.x == clamped(v.rect.x - v.velocity) && d.rect.y
                    == v.rect.y && d.position.x == d.rect.x && d.position.y == v.position.y,
                Direction::East => d.rect.x == clamped(v.rect.x + v.velocity) && d.rect.y
                    == v.rect.y && d.position.x == d.rect.x && d.position.y == v.position.y,
            }
        }),
{
}

/// A drive step changes the heading only of a vehicle whose body has
/// reached its turning point along its heading.
pub proof fn lemma_heading_changes_only_at_pivot(v: Vehicle)
    ensures
        v.driven().direction != v.direction ==> match v.turning_point {
            None => false,
            Some(p) => match v.direction {
                Direction::North => v.rect.y <= p.position.y,
                Direction::South => v.rect.y >= p.position.y,
                Direction::West => v.rect.x <= p.position.x,
                Direction::East => v.rect.x >= p.position.x,
            },
        },
{
}

/// Once its body has reached its turning point along its heading, a drive
/// step turns a vehicle a quarter to the left (for `Virage::L`) or to the
/// right (otherwise): the body lands two pixels past the pivot along the
/// old heading, shifted `velocity` pixels to the side of the turn, both
/// clamped; the position follows the body, and the turning point is used
/// up.
pub proof fn lemma_drive_turns_at_pivot(v: Vehicle)
    requires
        match v.turning_point {
            None => false,
            Some(p) => match v.direction {
                Direction::North => v.rect.y <= p.position.y,
                Direction::South => v.rect.y >= p.position.y,
                Direction::West => v.rect.x <= p.position.x,
                Direction::East => v.rect.x >= p.position.x,
            },
        },
    ensures
        ({
            let d = v.driven();
            let p = v.turning_point->0.position;
            let left = v.virage == Virage::L;
            let side: int = if left {
                -v.velocity
            } else {
                v.velocity as int
            };
            &&& d.turning_point is None
            &&& d.velocity == v.velocity
            &&& d.angle == (match d.direction {
                Direction::North => 180int,
                Direction::South => 0,
                Direction::East => -90,
                Direction::West => 90,
            })
            &&& d.position.x == d.rect.x
            &&& d.position.y == d.rect.y
            &&& match v.direction {
                Direction::North => d.direction == (if left {
                    Direction::West
                } else {
                    Direction::East
                }) && d.rect.x == clamped(v.rect.x + side) && d.rect.y == clamped(p.y + 2),
                Direction::South => d.direction == (if left {
                    Direction::East
                } else {
                    Direction::West
                }) && d.rect.x == clamped(v.rect.x - side) && d.rect.y == clamped(p.y + 2),
                Direction::West => d.direction == (if left {
                    Direction::South
                } else {
                    Direction::North
                }) && d.rect.x == clamped(p.x + 2) && d.rect.y == clamped(v.rect.y - side),
                Direction::East => d.direction == (if left {
                    Direction::North
                } else {
                    Direction::South
                }) && d.rect.x == clamped(p.x + 2) && d.rect.y == clamped(v.rect.y + side),
            }
        }),
{
}

/// How far along `direction` a point lies: the larger, the further a
/// vehicle heading that way has driven.
pub open spec fn progress(direction: Direction, p: Position) -> int {
    match direction {
        Direction::North => -p.y,
        Direction::South => p.y as int,
        Direction::East => p.x as int,
        Direction::West => -p.x,
    }
}

/// Which line parallel to `direction` a point lies on.
pub open spec fn lane_line(direction: Direction, p: Position) -> int {
    match direction {
        Direction::North | Direction::South => p.x as int,
        Direction::East | Direction::West => p.y as int,
    }
}

/// Between two different vehicles heading the same way, within reach: the
/// other is detected exactly when it drives on the same line and is level
/// with or ahead of `me` along the heading (judged by the middle sensors).
/// Oncoming vehicles are never detected, and crossing ones exactly when
/// their middle sensor lies within 49 pixels of the line `me` drives on.
pub proof fn lemma_detection_by_heading(me: Vehicle, other: Vehicle, distance: u32, reach: u32)
    requires
        me.id != other.id,
        distance <= reach,
    ensures
        other.direction == me.direction ==> (me.detects(other, distance, reach) <==> (lane_line(
            me.direction,
            other.position_middle_sensor,
        ) == lane_line(me.direction, me.position_middle_sensor) && progress(
            me.direction,
            other.position_middle_sensor,
        ) >= progress(me.direction, me.position_middle_sensor))),
        other.direction == opposite(me.direction) ==> !me.detects(other, distance, reach),
        other.direction != me.direction && other.direction != opposite(me.direction) ==> (
        me.detects(other, distance, reach) <==> (lane_line(
            me.direction,
            me.position_middle_sensor,
        ) - 49 <= lane_line(me.direction, other.position_middle_sensor) <= lane_line(
            me.direction,
            me.position_middle_sensor,
        ) + 49)),
        other.id == me.id || distance > reach ==> !me.detects(other, distance, reach),
{
}

/// A vehicle that does not turn right sees a vehicle in front when another
/// one, within reach, drives on its line level with or ahead of it in the
/// same heading; and it sees none among vehicles that are all behind it on
/// its line in its heading.
pub proof fn lemma_same_lane_detection(
    me: Vehicle,
    vehicles: Seq<Vehicle>,
    distances: Seq<u32>,
    reach: u32,
)
    requires
        vehicles.len() == distances.len(),
    ensures
        me.virage != Virage::R && (exists|i: int|
            0 <= i < vehicles.len() && vehicles[i].id != me.id && distances[i] <= reach
                && #[trigger] vehicles[i].direction == me.direction && lane_line(
                me.direction,
                vehicles[i].position_middle_sensor,
            ) == lane_line(me.direction, me.position_middle_sensor) && progress(
                me.direction,
                vehicles[i].position_middle_sensor,
            ) >= progress(me.direction, me.position_middle_sensor)) ==> me.detects_among(
            vehicles,
            distances,
            reach,
        ),
        (forall|i: int|
            0 <= i < vehicles.len() ==> #[trigger] vehicles[i].direction == me.direction
                && lane_line(me.direction, vehicles[i].position_middle_sensor) == lane_line(
                me.direction,
                me.position_middle_sensor,
            ) && progress(me.direction, vehicles[i].position_middle_sensor) < progress(
                me.direction,
                me.position_middle_sensor,
            )) ==> !me.detects_among(vehicles, distances, reach),
{
    if me.virage != Virage::R && (exists|i: int|
        0 <= i < vehicles.len() && vehicles[i].id != me.id && distances[i] <= reach
            && #[trigger] vehicles[i].direction == me.direction && lane_line(
            me.direction,
            vehicles[i].position_middle_sensor,
        ) == lane_line(me.direction, me.position_middle_sensor) && progress(
            me.direction,
            vehicles[i].position_middle_sensor,
        ) >= progress(me.direction, me.position_middle_sensor)) {
        let i = choose|i: int|
            0 <= i < vehicles.len() && vehicles[i].id != me.id && distances[i] <= reach
                && #[trigger] vehicles[i].direction == me.direction && lane_line(
                me.direction,
                vehicles[i].position_middle_sensor,
            ) == lane_line(me.direction, me.position_middle_sensor) && progress(
                me.direction,
                vehicles[i].position_middle_sensor,
            ) >= progress(me.direction, me.position_middle_sensor);
        lemma_detection_by_heading(me, vehicles[i], distances[i], reach);
        assert(me.detects(vehicles[i], distances[i], reach));
    }
    if forall|i: int|
        0 <= i < vehicles.len() ==> #[trigger] vehicles[i].direction == me.direction && lane_line(
            me.direction,
            vehicles[i].position_middle_sensor,
        ) == lane_line(me.direction, me.position_middle_sensor) && progress(
            me.direction,
            vehicles[i].position_middle_sensor,
        ) < progress(me.direction, me.position_middle_sensor) {
        assert forall|i: int| 0 <= i < vehicles.len() implies !me.detects(
            #[trigger] vehicles[i],
            distances[i],
            reach,
        ) by {
            if vehicles[i].id != me.id && distances[i] <= reach {
                lemma_detection_by_heading(me, vehicles[i], distances[i], reach);
            }
        }
    }
}

/// A vehicle yields exactly to another, different, vehicle when both stand
/// still and the other one heads the way `me` would after turning left,
/// i.e. comes from its left.
pub proof fn lemma_yield_to_the_left(me: Vehicle, other: Vehicle)
    ensures
        me.yields_to(other) <==> (me.velocity == 0 && other.velocity == 0 && me.id != other.id
            && other.direction == heading_after_turn(me.direction, Virage::L)),
{
}

/// A vehicle never yields when every other vehicle is moving, nor when it
/// moves itself.
pub proof fn lemma_no_yield_to_moving(me: Vehicle, others: Seq<Vehicle>)
    ensures
        (forall|i: int| 0 <= i < others.len() ==> (#[trigger] others[i]).velocity != 0)
            ==> !me.yields_among(others),
        me.velocity != 0 ==> !me.yields_among(others),
{
    if me.yields_among(others) {
        let i = choose|i: int| 0 <= i < others.len() && me.yields_to(#[trigger] others[i]);
        assert(others[i].velocity == 0);
    }
}

/// Which lane, counted from the centre line, a vehicle leaving by `virage`
/// drives in: left turns next to the centre, right turns outermost.
pub open spec fn lane_index(virage: Virage) -> int {
    match virage {
        Virage::L => 0,
        Virage::S => 1,
        Virage::R => 2,
    }
}

/// Every vehicle enters on the edge of the map it comes from, its body
/// across the road lying wholly inside its lane: the lanes are `STEP` wide,
/// on the right-hand side of the centre line at 400, left-turn lane first.
pub proof fn lemma_entry_in_lane(direction: Direction, virage: Virage)
    ensures
        ({
            let e = entry_point(direction, virage);
            let j = lane_index(virage);
            match direction {
                Direction::North => e.y == 800 && 400 + 50 * j <= e.x && e.x + 25 <= 450 + 50 * j,
                Direction::South => e.y == 0 && 350 - 50 * j <= e.x && e.x + 25 <= 400 - 50 * j,
                Direction::West => e.x == 800 && 350 - 50 * j <= e.y && e.y + 45 <= 400 - 50 * j,
                Direction::East => e.x == 0 && 400 + 50 * j <= e.y && e.y + 45 <= 450 + 50 * j,
            }
        }),
{
}

/// The middle sensor lies inside the body (25 by 45 pixels), and the front
/// sensor lies ahead of the body along the heading.
pub proof fn lemma_sensor_placement(direction: Direction)
    ensures
        ({
            let m = sensor_offset(direction, true);
            let f = sensor_offset(direction, false);
            &&& 0 <= m.0 < 25 && 0 <= m.1 < 45
            &&& match direction {
                Direction::North => f.1 < 0 && 0 <= f.0 < 25,
                Direction::South => f.1 >= 45 && 0 <= f.0 < 25,
                Direction::East => f.0 >= 25 && 0 <= f.1 < 45,
                Direction::West => f.0 < 0 && 0 <= f.1 < 45,
            }
        }),
{
}

/// Turning left turns the picture by a quarter counter-clockwise (90
/// degrees less), turning right by a quarter clockwise (90 degrees more),
/// up to whole turns.
pub proof fn lemma_turn_rotates_picture(direction: Direction)
    ensures
        (heading_angle(direction) - 90 - heading_angle(heading_after_turn(direction, Virage::L)))
            % 360 == 0,
        (heading_angle(direction) + 90 - heading_angle(heading_after_turn(direction, Virage::R)))
            % 360 == 0,
{
}

/// Clamping keeps coordinates inside the renderer's range and leaves those
/// already inside it alone.
pub proof fn lemma_clamp_range(v: int)
    ensures
        crate::geometry::MIN_COORDINATE <= clamped(v) <= crate::geometry::MAX_COORDINATE,
        crate::geometry::MIN_COORDINATE <= v <= crate::geometry::MAX_COORDINATE ==> clamped(v)
            == v,
        v > crate::geometry::MAX_COORDINATE ==> clamped(v) == crate::geometry::MAX_COORDINATE,
        v < crate::geometry::MIN_COORDINATE ==> clamped(v) == crate::geometry::MIN_COORDINATE,
{
}

/// A new vehicle may enter after a non-empty list exactly when the last
/// vehicle has driven at least 100 pixels from its entry point, the distance
/// being rounded down; after an empty list it always may.
pub proof fn lemma_safe_distance(vehicles: Seq<Vehicle>, driven_distance: int)
    requires
        vehicles.len() > 0 ==> crate::geometry::is_floor_sqrt(
            (vehicles.last().position.x - vehicles.last().origin.x) * (vehicles.last().position.x
                - vehicles.last().origin.x) + (vehicles.last().position.y
                - vehicles.last().origin.y) * (vehicles.last().position.y
                - vehicles.last().origin.y),
            driven_distance,
        ),
    ensures
        vehicles.len() == 0 ==> safe_to_enter(vehicles),
        vehicles.len() > 0 ==> (safe_to_enter(vehicles) <==> driven_distance >= 100),
{
    if vehicles.len() > 0 && driven_distance >= 100 {
        assert(driven_distance * driven_distance >= 10000) by (nonlinear_arith)
            requires
                driven_distance >= 100,
        ;
    } else if vehicles.len() > 0 {
        assert((driven_distance + 1) * (driven_distance + 1) <= 10000) by (nonlinear_arith)
            requires
                0 <= driven_distance <= 99,
        ;
    }
}

} // verus!
