use platformer_core::contacts::{
    ground_detection, spawn_ground_sensor, update_on_ground, ContactEvent, GroundDetection,
    GroundSensor,
};

const SENSOR: u64 = 10;
const PLAYER: u64 = 1;

fn tracked_sensor() -> GroundSensor {
    GroundSensor::new(SENSOR, PLAYER)
}

#[test]
fn begin_then_end_leaves_empty_set_and_ungrounded() {
    let mut sensors = vec![tracked_sensor()];
    let solids = vec![7u64];
    let events = vec![ContactEvent::Begin(7, SENSOR), ContactEvent::End(7, SENSOR)];
    ground_detection(&mut sensors, &solids, &events);
    assert!(!sensors[0].touches(7));
    assert!(!sensors[0].is_grounded());
    let mut detectors = vec![GroundDetection { entity: PLAYER, on_ground: true }];
    update_on_ground(&mut detectors, &mut sensors);
    assert!(!detectors[0].on_ground);
}

#[test]
fn leaving_one_surface_while_touching_another_keeps_grounded() {
    let mut sensors = vec![tracked_sensor()];
    let solids = vec![7u64, 8u64];
    let events = vec![
        ContactEvent::Begin(7, SENSOR),
        ContactEvent::Begin(8, SENSOR),
        ContactEvent::End(7, SENSOR),
    ];
    ground_detection(&mut sensors, &solids, &events);
    assert!(!sensors[0].touches(7));
    assert!(sensors[0].touches(8));
    assert!(sensors[0].is_grounded());
    let mut detectors = vec![GroundDetection { entity: PLAYER, on_ground: false }];
    update_on_ground(&mut detectors, &mut sensors);
    assert!(detectors[0].on_ground);
}

#[test]
fn event_with_unknown_solid_is_ignored() {
    let mut sensors = vec![tracked_sensor()];
    let solids = vec![7u64];
    let events = vec![ContactEvent::Begin(5, SENSOR)];
    ground_detection(&mut sensors, &solids, &events);
    assert!(!sensors[0].touches(5));
    assert!(!sensors[0].is_grounded());
}

#[test]
fn event_naming_no_tracked_sensor_is_ignored() {
    let mut sensors = vec![tracked_sensor()];
    let solids = vec![7u64];
    let events = vec![ContactEvent::Begin(7, 99), ContactEvent::End(7, 99)];
    ground_detection(&mut sensors, &solids, &events);
    assert!(!sensors[0].is_grounded());
}

#[test]
fn solid_first_pairing_wins() {
    // When the first entity is a known solid, only the second entity's
    // sensor is considered, and here it is not a sensor.
    let mut sensors = vec![tracked_sensor()];
    let solids = vec![7u64, SENSOR];
    let events = vec![ContactEvent::Begin(7, 3)];
    ground_detection(&mut sensors, &solids, &events);
    assert!(!sensors[0].is_grounded());
}

#[test]
fn sensor_named_first_receives_solid_named_second() {
    let mut sensors = vec![tracked_sensor()];
    let solids = vec![7u64];
    let events = vec![ContactEvent::Begin(SENSOR, 7)];
    ground_detection(&mut sensors, &solids, &events);
    assert!(sensors[0].touches(7));
    assert!(sensors[0].is_grounded());
}

#[test]
fn repeated_begin_keeps_set_semantics() {
    let mut s = tracked_sensor();
    s.insert_contact(7);
    s.insert_contact(7);
    assert!(s.touches(7));
    s.remove_contact(7);
    assert!(!s.touches(7));
    assert!(!s.is_grounded());
}

#[test]
fn removing_absent_contact_changes_nothing() {
    let mut s = tracked_sensor();
    s.insert_contact(7);
    s.remove_contact(9);
    assert!(s.touches(7));
    assert!(s.is_grounded());
}

#[test]
fn grounded_flag_updates_only_on_change() {
    let mut sensors = vec![tracked_sensor()];
    let solids = vec![7u64];
    let events = vec![ContactEvent::Begin(7, SENSOR)];
    ground_detection(&mut sensors, &solids, &events);
    let mut detectors = vec![GroundDetection { entity: PLAYER, on_ground: false }];
    update_on_ground(&mut detectors, &mut sensors);
    assert!(detectors[0].on_ground);

    // The dirty marker was consumed: with no new events, a stale flag
    // value is left alone.
    detectors[0].on_ground = false;
    update_on_ground(&mut detectors, &mut sensors);
    assert!(!detectors[0].on_ground);

    // A new event marks the sensor dirty again and the flag recomputes.
    let more = vec![ContactEvent::Begin(7, SENSOR), ContactEvent::End(7, SENSOR)];
    ground_detection(&mut sensors, &solids, &more);
    detectors[0].on_ground = true;
    update_on_ground(&mut detectors, &mut sensors);
    assert!(!detectors[0].on_ground);
}

#[test]
fn detector_of_other_character_is_untouched() {
    let mut sensors = vec![tracked_sensor()];
    let solids = vec![7u64];
    let events = vec![ContactEvent::Begin(7, SENSOR)];
    ground_detection(&mut sensors, &solids, &events);
    let mut detectors = vec![
        GroundDetection { entity: PLAYER, on_ground: false },
        GroundDetection { entity: 2, on_ground: false },
    ];
    update_on_ground(&mut detectors, &mut sensors);
    assert!(detectors[0].on_ground);
    assert!(!detectors[1].on_ground);
}

#[test]
fn ground_sensor_spawns_under_the_character() {
    let (geometry, sensor) = spawn_ground_sensor(SENSOR, PLAYER, 6000, 40000);
    assert_eq!(geometry.half_extent_x_milli, 3000);
    assert_eq!(geometry.half_extent_y_milli, 2000);
    assert_eq!(geometry.offset_y_milli, -40000);
    assert_eq!(sensor.entity, SENSOR);
    assert_eq!(sensor.ground_detection_entity, PLAYER);
    assert!(!sensor.is_grounded());
    assert!(!sensor.changed);
}
