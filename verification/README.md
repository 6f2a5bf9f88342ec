# smart_road

The decision logic of a crossroads traffic simulation, verified with Verus.

- `src/vehicle.rs`: headings, lanes, entry and turning points, sensors, and
  the vehicle itself: driving and turning, priority to the left, detection of
  traffic in front, the safety distance for new vehicles, and removal of the
  vehicles that left the map.
- `src/simulation.rs`: the per-frame plan of actions of a vehicle, carrying
  it out, one whole frame of the simulation, and letting a new vehicle in.
- `src/statistics.rs`: the statistics of a run and their text.
- `src/roads.rs`: the road markings and the dashes of the lane separators.
- `src/geometry.rs`, `src/time.rs`, `src/text.rs`: rectangles with clamped
  corners, the integer square root, time spans and the clock, decimal text.
- `app/`: the program: window, keyboard, clock, drawing, and the one
  floating-point computation (the distance between two sensors).
