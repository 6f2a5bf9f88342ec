use vstd::prelude::*;
use crate::statistics::{Statistics, StatisticsView};
use crate::time::TimeSpan;
use crate::vehicle::{
    Direction, Vehicle, safe_to_enter, Virage, entering_vehicle, off_map, on_map, remove_vehicles_out_of_bounds,
    travelled_fits,
};

verus! {

/// What a vehicle is told to do in one frame.
#[derive(Debug, Clone, Copy, PartialEq, Eq, Structural)]
pub enum VehicleAction {
    /// Stand still.
    Stop,
    /// Drive at the normal speed.
    Start,
    /// Drive faster.
    Accelerate,
}

/// The speed a vehicle goes at after an action.
pub open spec fn action_speed(action: VehicleAction) -> i32 {
    match action {
        VehicleAction::Stop => 0,
        VehicleAction::Start => 2,
        VehicleAction::Accelerate => 3,
    }
}

/// The actions a vehicle is given in one frame, in order: accelerate if it
/// has a turning point and turns right; stop if it sees a vehicle in front,
/// or else start if it stands still; and start if it has to yield to a
/// vehicle on its left (a close call).
pub open spec fn planned_actions(
    vehicle: Vehicle,
    sees_front: bool,
    yields: bool,
) -> Seq<VehicleAction> {
    let accelerate = if vehicle.turning_point is Some && vehicle.virage == Virage::R {
        seq![VehicleAction::Accelerate]
    } else {
        Seq::empty()
    };
    let front = if sees_front {
        seq![VehicleAction::Stop]
    } else if vehicle.velocity == 0 {
        seq![VehicleAction::Start]
    } else {
        Seq::empty()
    };
    let priority = if yields {
        seq![VehicleAction::Start]
    } else {
        Seq::empty()
    };
    accelerate + front + priority
}

/// The velocity after carrying out `actions` in order, starting at
/// `velocity`: that of the last action, or `velocity` when there is none.
pub open spec fn velocity_after(velocity: i32, actions: Seq<VehicleAction>) -> i32 {
    if actions.len() == 0 {
        velocity
    } else {
        action_speed(actions.last())
    }
}

/// The actions for `vehicle` in one frame among `vehicles` (see
/// [`planned_actions`]), and whether it had a close call, i.e. had to yield.
///
/// `sensor_distances[i]` is the distance from the front sensor of `vehicle`
/// to the middle sensor of `vehicles[i]`, rounded down, and
/// `collision_distance` how far ahead the vehicle looks.
pub fn plan_actions(
    vehicle: &Vehicle,
    vehicles: &Vec<Vehicle>,
    sensor_distances: &Vec<u32>,
    collision_distance: u32,
) -> (plan: (Vec<VehicleAction>, bool))
    requires
        sensor_distances.len() == vehicles.len(),
        vehicle.front_scan_fits(vehicles@, sensor_distances@, collision_distance),
    ensures
        ({
            let sees = vehicle.detects_among(vehicles@, sensor_distances@, collision_distance);
            let yields = vehicle.yields_among(vehicles@);
            &&& plan.0@ == planned_actions(*vehicle, sees, yields)
            &&& plan.1 == yields
        }),
{
    let mut actions: Vec<VehicleAction> = Vec::new();
    if vehicle.turning_point.is_some() && vehicle.virage == Virage::R {
        actions.push(VehicleAction::Accelerate);
    }
    let sees = vehicle.detect_vehicle_front(vehicles, sensor_distances, collision_distance);
    if sees {
        actions.push(VehicleAction::Stop);
    } else if vehicle.velocity == 0 {
        actions.push(VehicleAction::Start);
    }
    let yields = vehicle.let_priority_left(vehicles);
    if yields {
        actions.push(VehicleAction::Start);
    }
    assert(actions@ =~= planned_actions(*vehicle, sees, yields));
    (actions, yields)
}

/// Carries out `actions` in order on `vehicle`: each sets its speed.
pub fn apply_actions(vehicle: &mut Vehicle, actions: &Vec<VehicleAction>)
    ensures
        *final(vehicle) == (Vehicle {
            velocity: velocity_after(old(vehicle).velocity, actions@),
            ..*old(vehicle)
        }),
{
    let len = actions.len();
    for i in 0..len
        invariant
            len == actions.len(),
            *vehicle == (Vehicle {
                velocity: velocity_after(old(vehicle).velocity, actions@.take(i as int)),
                ..*old(vehicle)
            }),
    {
        let speed: i32 = match actions[i] {
            VehicleAction::Stop => 0,
            VehicleAction::Start => 2,
            VehicleAction::Accelerate => 3,
        };
        vehicle.mut_velocity(speed);
        assert(actions@.take(i + 1).last() == actions@[i as int]);
    }
    assert(actions@.take(len as int) =~= actions@);
}

/// The speed at which a vehicle enters the map.
pub const ENTRY_VELOCITY: i32 = 2;

/// Lets a vehicle heading `direction` enter when it is safe (see
/// [`Vehicle::is_safe_position`]): it gets the identity after `last_id`, the
/// entry speed and a way out drawn by chance, is counted by `stats` and
/// joins `vehicles`. Returns the identity last given out.
pub fn spawn_vehicle(
    vehicles: &mut Vec<Vehicle>,
    stats: &mut Statistics,
    last_id: usize,
    direction: Direction,
) -> (id: usize)
    requires
        old(vehicles).len() > 0 ==> travelled_fits(old(vehicles)@.last()),
        last_id < usize::MAX,
        old(stats)@.total_vehicles < usize::MAX,
    ensures
        ({
            let safe = safe_to_enter(old(vehicles)@);
            if safe {
                &&& id == last_id + 1
                &&& final(vehicles)@.len() == old(vehicles)@.len() + 1
                &&& final(vehicles)@.drop_last() == old(vehicles)@
                &&& exists|virage: Virage|
                    final(vehicles)@.last() == entering_vehicle(
                        id,
                        ENTRY_VELOCITY,
                        direction,
                        virage,
                        final(vehicles)@.last().entry_time,
                    )
                &&& final(stats)@.total_vehicles == old(stats)@.total_vehicles + 1
                &&& final(stats)@.vehicles_passed == old(stats)@.vehicles_passed
                &&& final(stats)@.close_calls == old(stats)@.close_calls
                &&& final(stats)@.max_time == old(stats)@.max_time
                &&& final(stats)@.min_time == old(stats)@.min_time
                &&& final(stats)@.max_velocity == old(stats)@.max_velocity
                &&& final(stats)@.min_velocity == old(stats)@.min_velocity
            } else {
                &&& id == last_id
                &&& final(vehicles)@ == old(vehicles)@
                &&& final(stats)@ == old(stats)@
            }
        }),
{
    if Vehicle::is_safe_position(vehicles) {
        let id = last_id + 1;
        let vehicle = Vehicle::new(id, ENTRY_VELOCITY, direction, Virage::new());
        stats.track_vehicle_entry(&vehicle);
        vehicles.push(vehicle);
        assert(vehicles@.drop_last() =~= old(vehicles)@);
        id
    } else {
        last_id
    }
}

/// The actions of vehicle `i` of `vehicles` in a frame, all vehicles being
/// judged against the same state (see [`planned_actions`]);
/// `distances[i][j]` is the distance from the front sensor of vehicle `i` to
/// the middle sensor of vehicle `j`.
pub open spec fn frame_actions(
    vehicles: Seq<Vehicle>,
    distances: Seq<Vec<u32>>,
    reach: u32,
    i: int,
) -> Seq<VehicleAction> {
    planned_actions(
        vehicles[i],
        vehicles[i].detects_among(vehicles, distances[i]@, reach),
        vehicles[i].yields_among(vehicles),
    )
}

/// Vehicle `i` once its actions of the frame are carried out.
pub open spec fn acted_vehicle(
    vehicles: Seq<Vehicle>,
    distances: Seq<Vec<u32>>,
    reach: u32,
    i: int,
) -> Vehicle {
    Vehicle {
        velocity: velocity_after(vehicles[i].velocity, frame_actions(vehicles, distances, reach, i)),
        ..vehicles[i]
    }
}

/// The vehicles once their actions of the frame are carried out, in order.
pub open spec fn acted_vehicles(vehicles: Seq<Vehicle>, distances: Seq<Vec<u32>>, reach: u32) -> Seq<
    Vehicle,
> {
    Seq::new(vehicles.len(), |i: int| acted_vehicle(vehicles, distances, reach, i))
}

/// The vehicles once their actions are carried out and they drove one step.
pub open spec fn moved_vehicles(vehicles: Seq<Vehicle>, distances: Seq<Vec<u32>>, reach: u32) -> Seq<
    Vehicle,
> {
    Seq::new(vehicles.len(), |i: int| acted_vehicle(vehicles, distances, reach, i).driven())
}

/// How many of the first `n` vehicles of `vehicles` have to yield to one
/// of `vehicles`.
pub open spec fn close_calls_among(vehicles: Seq<Vehicle>, n: int) -> nat
    decreases n,
{
    if n <= 0 {
        0
    } else {
        close_calls_among(vehicles, n - 1) + (if vehicles[n - 1].yields_among(vehicles) {
            1nat
        } else {
            0nat
        })
    }
}

/// The statistics after the vehicles `leaving` left the map in order, the
/// one at index `k` after the time `times[k]`.
pub open spec fn after_exits(s: StatisticsView, leaving: Seq<Vehicle>, times: Seq<TimeSpan>) -> StatisticsView
    decreases leaving.len(),
{
    if leaving.len() == 0 {
        s
    } else {
        after_exits(s, leaving.drop_last(), times.drop_last()).after_exit(
            leaving.last().velocity,
            times.last(),
        )
    }
}

/// Whether [`step_frame`] can run without overflow: the distances form a
/// square table, every scan for vehicles in front and every drive stays
/// inside `i32`, and the counts of close calls and of vehicles that left
/// stay inside their types.
pub open spec fn frame_fits(
    vehicles: Seq<Vehicle>,
    stats: StatisticsView,
    distances: Seq<Vec<u32>>,
    reach: u32,
    map_width: i32,
    map_height: i32,
) -> bool {
    &&& distances.len() == vehicles.len()
    &&& forall|i: int| 0 <= i < distances.len() ==> (#[trigger] distances[i])@.len() == vehicles.len()
    &&& forall|i: int|
        0 <= i < vehicles.len() ==> (#[trigger] vehicles[i]).front_scan_fits(
            vehicles,
            distances[i]@,
            reach,
        )
    &&& stats.close_calls + close_calls_among(vehicles, vehicles.len() as int) <= u32::MAX
    &&& forall|i: int|
        0 <= i < vehicles.len() ==> (#[trigger] acted_vehicle(
            vehicles,
            distances,
            reach,
            i,
        )).drive_fits()
    &&& stats.vehicles_passed + off_map(moved_vehicles(vehicles, distances, reach), map_width, map_height).len()
        <= usize::MAX
}

/// Up to `n`, the count of close calls only grows.
proof fn lemma_close_calls_grow(vehicles: Seq<Vehicle>, m: int, n: int)
    requires
        m <= n,
    ensures
        close_calls_among(vehicles, m) <= close_calls_among(vehicles, n),
    decreases n - m,
{
    if m < n {
        lemma_close_calls_grow(vehicles, m, n - 1);
    }
}

/// Runs one frame of the simulation. First every vehicle gets its actions,
/// all judged against the same state, and each close call is counted;
/// then every vehicle carries out its actions and drives one step; then the
/// vehicles that left the map are taken out and recorded as exits, with the
/// time the clock gives for each.
///
/// Returns the vehicles as they stood after their actions and before
/// driving: the picture of the frame.
pub fn step_frame(
    vehicles: &mut Vec<Vehicle>,
    stats: &mut Statistics,
    sensor_distances: &Vec<Vec<u32>>,
    collision_distance: u32,
    map_width: i32,
    map_height: i32,
) -> (drawn: Vec<Vehicle>)
    requires
        frame_fits(
            old(vehicles)@,
            old(stats)@,
            sensor_distances@,
            collision_distance,
            map_width,
            map_height,
        ),
    ensures
        drawn@ == acted_vehicles(old(vehicles)@, sensor_distances@, collision_distance),
        final(vehicles)@ == on_map(
            moved_vehicles(old(vehicles)@, sensor_distances@, collision_distance),
            map_width,
            map_height,
        ),
        ({
            let leaving = off_map(
                moved_vehicles(old(vehicles)@, sensor_distances@, collision_distance),
                map_width,
                map_height,
            );
            let counted = StatisticsView {
                close_calls: (old(stats)@.close_calls + close_calls_among(
                    old(vehicles)@,
                    old(vehicles)@.len() as int,
                )) as u32,
                ..old(stats)@
            };
            exists|times: Seq<TimeSpan>|
                times.len() == leaving.len() && (forall|k: int|
                    0 <= k < times.len() ==> (#[trigger] times[k]).wf()) && final(stats)@
                    == after_exits(counted, leaving, times)
        }),
{
    let ghost all = vehicles@;
    let ghost start = stats@;
    let n = vehicles.len();
    proof {
        lemma_close_calls_grow(all, 0, n as int);
    }
    let mut plans: Vec<Vec<VehicleAction>> = Vec::new();
    for i in 0..n
        invariant
            n == vehicles.len(),
            vehicles@ == all,
            frame_fits(all, start, sensor_distances@, collision_distance, map_width, map_height),
            plans@.len() == i,
            forall|j: int|
                0 <= j < i ==> (#[trigger] plans@[j])@ == frame_actions(
                    all,
                    sensor_distances@,
                    collision_distance,
                    j,
                ),
            stats@ == (StatisticsView {
                close_calls: (start.close_calls + close_calls_among(all, i as int)) as u32,
                ..start
            }),
    {
        assert(sensor_distances@[i as int]@.len() == all.len());
        assert(all[i as int].front_scan_fits(all, sensor_distances@[i as int]@, collision_distance));
        let (actions, yields) = plan_actions(
            &vehicles[i],
            vehicles,
            &sensor_distances[i],
            collision_distance,
        );
        proof {
            lemma_close_calls_grow(all, i + 1, n as int);
        }
        if yields {
            stats.increment_close_calls();
        }
        plans.push(actions);
    }
    let ghost counted = stats@;
    let ghost moved = moved_vehicles(all, sensor_distances@, collision_distance);
    let mut rest: Vec<Vehicle> = Vec::new();
    std::mem::swap(&mut rest, vehicles);
    let mut drawn: Vec<Vehicle> = Vec::new();
    let mut driven: Vec<Vehicle> = Vec::new();
    for i in 0..n
        invariant
            n == all.len(),
            plans@.len() == n,
            forall|j: int|
                0 <= j < n ==> (#[trigger] plans@[j])@ == frame_actions(
                    all,
                    sensor_distances@,
                    collision_distance,
                    j,
                ),
            frame_fits(all, start, sensor_distances@, collision_distance, map_width, map_height),
            rest@ == all.skip(i as int),
            drawn@ == acted_vehicles(all, sensor_distances@, collision_distance).take(i as int),
            driven@ == moved.take(i as int),
            moved == moved_vehicles(all, sensor_distances@, collision_distance),
    {
        let mut vehicle = rest.remove(0);
        proof {
            assert(all.skip(i as int).remove(0) =~= all.skip(i + 1));
            assert(vehicle == all[i as int]);
        }
        apply_actions(&mut vehicle, &plans[i]);
        assert(vehicle == acted_vehicle(all, sensor_distances@, collision_distance, i as int));
        drawn.push(vehicle.clone());
        vehicle.drive();
        driven.push(vehicle);
        proof {
            assert(drawn@ =~= acted_vehicles(all, sensor_distances@, collision_distance).take(i + 1));
            assert(driven@ =~= moved.take(i + 1));
        }
    }
    assert(driven@ =~= moved);
    let leaving = remove_vehicles_out_of_bounds(&mut driven, map_width, map_height);
    let ghost mut times: Seq<TimeSpan> = Seq::empty();
    let count = leaving.len();
    for k in 0..count
        invariant
            count == leaving.len(),
            leaving@ == off_map(moved, map_width, map_height),
            counted.vehicles_passed + leaving.len() <= usize::MAX,
            times.len() == k,
            forall|m: int| 0 <= m < k ==> (#[trigger] times[m]).wf(),
            stats@ == after_exits(counted, leaving@.take(k as int), times),
            stats@.vehicles_passed == counted.vehicles_passed + k,
    {
        let ghost before = stats@;
        stats.track_vehicle_exit(&leaving[k]);
        proof {
            let e = choose|e: TimeSpan|
                e.wf() && stats@ == before.after_exit(leaving@[k as int].velocity, e);
            let old_times = times;
            times = times.push(e);
            assert(leaving@.take(k + 1).drop_last() =~= leaving@.take(k as int));
            assert(times.drop_last() =~= old_times);
            assert(leaving@.take(k + 1).last() == leaving@[k as int]);
        }
    }
    assert(leaving@.take(count as int) =~= leaving@);
    *vehicles = driven;
    drawn
}

/// Whether [`step_frame`] can be called with these arguments: see
/// [`frame_fits`].
pub fn can_step_frame(
    vehicles: &Vec<Vehicle>,
    stats: &Statistics,
    sensor_distances: &Vec<Vec<u32>>,
    collision_distance: u32,
    map_width: i32,
    map_height: i32,
) -> (r: bool)
    ensures
        r == frame_fits(
            vehicles@,
            stats@,
            sensor_distances@,
            collision_distance,
            map_width,
            map_height,
        ),
{
    let ghost all = vehicles@;
    let n = vehicles.len();
    if sensor_distances.len() != n {
        return false;
    }
    for i in 0..n
        invariant
            n == vehicles.len(),
            sensor_distances.len() == n,
            forall|j: int| 0 <= j < i ==> (#[trigger] sensor_distances@[j])@.len() == n,
    {
        if sensor_distances[i].len() != n {
            return false;
        }
    }
    for i in 0..n
        invariant
            n == vehicles.len(),
            sensor_distances.len() == n,
            forall|j: int| 0 <= j < n ==> (#[trigger] sensor_distances@[j])@.len() == n,
            forall|j: int|
                0 <= j < i ==> (#[trigger] vehicles@[j]).front_scan_fits(
                    vehicles@,
                    sensor_distances@[j]@,
                    collision_distance,
                ),
    {
        if !vehicles[i].can_scan_front(vehicles, &sensor_distances[i], collision_distance) {
            return false;
        }
    }
    let ghost moved = moved_vehicles(all, sensor_distances@, collision_distance);
    let mut calls: u64 = 0;
    let mut leaving: u64 = 0;
    proof {
        reveal_with_fuel(Seq::<_>::filter, 1);
        assert(moved.take(0) =~= Seq::<Vehicle>::empty());
    }
    for i in 0..n
        invariant
            n == vehicles.len(),
            vehicles@ == all,
            moved == moved_vehicles(all, sensor_distances@, collision_distance),
            sensor_distances.len() == n,
            forall|j: int| 0 <= j < n ==> (#[trigger] sensor_distances@[j])@.len() == n,
            forall|j: int|
                0 <= j < n ==> (#[trigger] vehicles@[j]).front_scan_fits(
                    vehicles@,
                    sensor_distances@[j]@,
                    collision_distance,
                ),
            forall|j: int|
                0 <= j < i ==> (#[trigger] acted_vehicle(
                    all,
                    sensor_distances@,
                    collision_distance,
                    j,
                )).drive_fits(),
            calls == close_calls_among(all, i as int),
            calls <= i,
            leaving == off_map(moved.take(i as int), map_width, map_height).len(),
            leaving <= i,
    {
        let (actions, yields) = plan_actions(
            &vehicles[i],
            vehicles,
            &sensor_distances[i],
            collision_distance,
        );
        if yields {
            calls = calls + 1;
        }
        let mut copy = vehicles[i].clone();
        apply_actions(&mut copy, &actions);
        assert(copy == acted_vehicle(all, sensor_distances@, collision_distance, i as int));
        if !copy.can_drive() {
            return false;
        }
        copy.drive();
        let out = copy.is_out_of_bounds(map_width, map_height);
        proof {
            reveal_with_fuel(Seq::<_>::filter, 1);
            assert(moved.take(i + 1).drop_last() =~= moved.take(i as int));
            assert(moved.take(i + 1).last() == copy);
            moved.take(i as int).lemma_filter_len(|v: Vehicle| v.out_of_bounds(map_width, map_height));
        }
        if out {
            leaving = leaving + 1;
        }
    }
    assert(moved.take(n as int) =~= moved);
    let close_calls = stats.close_calls();
    let passed = stats.vehicles_passed();
    (close_calls as u128) + (calls as u128) <= u32::MAX as u128 && (passed as u128) + (leaving as u128)
        <= usize::MAX as u128
}

/// The speed a vehicle goes at after its planned actions: 2 when it has to
/// yield (to get out of the way); otherwise 0 when it sees a vehicle in
/// front; otherwise 2 when it stood still; otherwise 3 when it turns right
/// at a turning point; otherwise its speed is kept. A standing vehicle is
/// started only when it sees nothing in front or has to yield.
pub proof fn lemma_plan_outcome(vehicle: Vehicle, sees_front: bool, yields: bool)
    ensures
        velocity_after(vehicle.velocity, planned_actions(vehicle, sees_front, yields)) == (if yields {
            2
        } else if sees_front {
            0
        } else if vehicle.velocity == 0 {
            2
        } else if vehicle.turning_point is Some && vehicle.virage == Virage::R {
            3
        } else {
            vehicle.velocity
        }),
        planned_actions(vehicle, sees_front, yields).contains(VehicleAction::Start) ==> !sees_front
            || yields,
        sees_front && !yields ==> planned_actions(vehicle, sees_front, yields).last()
            == VehicleAction::Stop,
{
    let a = planned_actions(vehicle, sees_front, yields);
    if a.contains(VehicleAction::Start) {
        let k = choose|k: int| 0 <= k < a.len() && a[k] == VehicleAction::Start;
        if sees_front && !yields {
            if vehicle.turning_point is Some && vehicle.virage == Virage::R {
                assert(a =~= seq![VehicleAction::Accelerate, VehicleAction::Stop]);
            } else {
                assert(a =~= seq![VehicleAction::Stop]);
            }
        }
    }
}

/// In a frame, a vehicle that sees a vehicle in front and does not have to
/// yield stands still after its actions.
pub proof fn lemma_frame_stops_before_obstacle(
    vehicles: Seq<Vehicle>,
    distances: Seq<Vec<u32>>,
    reach: u32,
    i: int,
)
    requires
        0 <= i < vehicles.len(),
        vehicles[i].detects_among(vehicles, distances[i]@, reach),
        !vehicles[i].yields_among(vehicles),
    ensures
        acted_vehicle(vehicles, distances, reach, i).velocity == 0,
{
    lemma_plan_outcome(vehicles[i], true, false);
}

} // verus!
