//! Sensor contact tracking and ground detection.
//!
//! Each tracked character owns one sensor region beneath its collider.
//! The physics engine reports pairwise overlap begin and end events for
//! shapes of which at least one is a sensor; this module keeps, per
//! sensor, the set of solid entities currently overlapping it, and
//! derives the character's grounded flag from that set. Events that
//! name no tracked sensor, or no known solid, are ignored without
//! effect: they are expected during entity teardown.

use vstd::prelude::*;

verus! {

/// A pairwise shape-overlap event from the physics engine, carrying the
/// two entity identifiers whose shapes began or stopped overlapping.
#[derive(Clone, Copy, Debug, PartialEq, Eq, Structural)]
pub enum ContactEvent {
    Begin(u64, u64),
    End(u64, u64),
}

/// Whether a non-empty contact set makes a character grounded.
pub open spec fn spec_grounded(contacts: Set<u64>) -> bool {
    !contacts.is_empty()
}

/// The contact set of the sensor `sensor` after one overlap event,
/// given the set of solid (non-sensor) collidable entities. A begin
/// event whose first entity is solid inserts it into the second
/// entity's sensor; otherwise, if its second entity is solid, it is
/// inserted into the first entity's sensor; anything else is ignored.
/// End events remove symmetrically.
pub open spec fn apply_event(
    contacts: Set<u64>,
    sensor: u64,
    solids: Set<u64>,
    e: ContactEvent,
) -> Set<u64> {
    match e {
        ContactEvent::Begin(a, b) => if solids.contains(a) {
            if b == sensor {
                contacts.insert(a)
            } else {
                contacts
            }
        } else if solids.contains(b) && a == sensor {
            contacts.insert(b)
        } else {
            contacts
        },
        ContactEvent::End(a, b) => if solids.contains(a) {
            if b == sensor {
                contacts.remove(a)
            } else {
                contacts
            }
        } else if solids.contains(b) && a == sensor {
            contacts.remove(b)
        } else {
            contacts
        },
    }
}

/// The contact set of the sensor after a whole event stream, applied in
/// order.
pub open spec fn apply_events(
    contacts: Set<u64>,
    sensor: u64,
    solids: Set<u64>,
    events: Seq<ContactEvent>,
) -> Set<u64>
    decreases events.len(),
{
    if events.len() == 0 {
        contacts
    } else {
        apply_event(
            apply_events(contacts, sensor, solids, events.drop_last()),
            sensor,
            solids,
            events.last(),
        )
    }
}

/// Whether a whole event stream mutates the sensor's contact set at
/// some step (even if a later step undoes it).
pub open spec fn events_dirty(
    contacts: Set<u64>,
    sensor: u64,
    solids: Set<u64>,
    events: Seq<ContactEvent>,
) -> bool
    decreases events.len(),
{
    if events.len() == 0 {
        false
    } else {
        events_dirty(contacts, sensor, solids, events.drop_last()) || {
            let before = apply_events(contacts, sensor, solids, events.drop_last());
            apply_event(before, sensor, solids, events.last()) != before
        }
    }
}

/// The ground sensor of one character: the set of solid entities
/// currently overlapping it, and a dirty marker that is set whenever
/// the set actually changes and cleared when the grounded flag consumes
/// it.
pub struct GroundSensor {
    /// The sensor's own entity identifier.
    pub entity: u64,
    /// The character entity whose grounded flag this sensor feeds.
    pub ground_detection_entity: u64,
    /// The solid entities currently overlapping the sensor, each listed
    /// once (see [`GroundSensor::wf`]).
    pub intersecting: Vec<u64>,
    /// The dirty marker: whether the contact set changed since the
    /// grounded flag last consumed it.
    pub changed: bool,
}

impl GroundSensor {
    /// The set of solid entities currently overlapping the sensor.
    pub open spec fn contacts(&self) -> Set<u64> {
        self.intersecting@.to_set()
    }

    /// The intersecting list holds each entity at most once.
    pub open spec fn wf(&self) -> bool {
        forall|i: int, j: int| 0 <= i < j < self.intersecting@.len()
            ==> self.intersecting@[i] != self.intersecting@[j]
    }

    /// Whether the contact set changed since the grounded flag last
    /// consumed it.
    pub open spec fn is_changed(&self) -> bool {
        self.changed
    }

    /// A fresh sensor touching nothing.
    pub fn new(entity: u64, ground_detection_entity: u64) -> (s: GroundSensor)
        ensures
            s.wf(),
            s.entity == entity,
            s.ground_detection_entity == ground_detection_entity,
            s.contacts() == Set::<u64>::empty(),
            !s.is_changed(),
    {
        let s = GroundSensor {
            entity,
            ground_detection_entity,
            intersecting: Vec::new(),
            changed: false,
        };
        proof {
            assert(s.contacts() =~= Set::<u64>::empty());
        }
        s
    }

    /// Whether the sensor currently touches the entity.
    pub fn touches(&self, id: u64) -> (r: bool)
        ensures
            r == self.contacts().contains(id),
    {
        let n = self.intersecting.len();
        let mut i: usize = 0;
        while i < n
            invariant
                0 <= i <= n,
                n == self.intersecting@.len(),
                forall|k: int| 0 <= k < i ==> self.intersecting@[k] != id,
            decreases n - i,
        {
            if self.intersecting[i] == id {
                assert(self.intersecting@.contains(id)) by {
                    assert(self.intersecting@[i as int] == id);
                }
                return true;
            }
            i = i + 1;
        }
        proof {
            assert(!self.intersecting@.contains(id));
        }
        false
    }

    /// Records that the solid entity began overlapping the sensor. The
    /// dirty marker is set exactly when the set actually grows.
    pub fn insert_contact(&mut self, id: u64)
        requires
            old(self).wf(),
            old(self).intersecting@.len() < usize::MAX,
        ensures
            final(self).wf(),
            final(self).entity == old(self).entity,
            final(self).ground_detection_entity == old(self).ground_detection_entity,
            final(self).contacts() == old(self).contacts().insert(id),
            final(self).is_changed() == (old(self).is_changed()
                || !old(self).contacts().contains(id)),
            final(self).intersecting@.len() <= old(self).intersecting@.len() + 1,
    {
        let ghost olds = self.intersecting@;
        if !self.touches(id) {
            self.intersecting.push(id);
            self.changed = true;
            proof {
                assert(self.contacts() =~= olds.to_set().insert(id)) by {
                    assert forall|a: u64| self.intersecting@.contains(a)
                        implies olds.contains(a) || a == id
                    by {
                        let k = choose|k: int| 0 <= k < self.intersecting@.len()
                            && self.intersecting@[k] == a;
                        if k < olds.len() {
                            assert(olds[k] == a);
                        }
                    }
                    assert forall|a: u64| olds.contains(a) || a == id
                        implies self.intersecting@.contains(a)
                    by {
                        if olds.contains(a) {
                            let k = choose|k: int| 0 <= k < olds.len() && olds[k] == a;
                            assert(self.intersecting@[k] == a);
                        } else {
                            assert(self.intersecting@[olds.len() as int] == id);
                        }
                    }
                }
            }
        } else {
            proof {
                assert(self.contacts() =~= self.contacts().insert(id));
            }
        }
    }

    /// Records that the solid entity stopped overlapping the sensor.
    /// The dirty marker is set exactly when the set actually shrinks.
    pub fn remove_contact(&mut self, id: u64)
        requires
            old(self).wf(),
        ensures
            final(self).wf(),
            final(self).entity == old(self).entity,
            final(self).ground_detection_entity == old(self).ground_detection_entity,
            final(self).contacts() == old(self).contacts().remove(id),
            final(self).is_changed() == (old(self).is_changed()
                || old(self).contacts().contains(id)),
            final(self).intersecting@.len() <= old(self).intersecting@.len(),
    {
        let ghost olds = self.intersecting@;
        let n = self.intersecting.len();
        let mut i: usize = 0;
        while i < n
            invariant
                0 <= i <= n,
                n == self.intersecting@.len(),
                self.intersecting@ == olds,
                olds == old(self).intersecting@,
                self.entity == old(self).entity,
                self.ground_detection_entity == old(self).ground_detection_entity,
                self.changed == old(self).changed,
                old(self).wf(),
                forall|k: int| 0 <= k < i ==> self.intersecting@[k] != id,
            decreases n - i,
        {
            if self.intersecting[i] == id {
                self.intersecting.remove(i);
                self.changed = true;
                proof {
                    let iv = i as int;
                    assert(olds[iv] == id);
                    assert(olds.contains(id)) by {
                        assert(olds[iv] == id);
                    }
                    // The removal drops exactly the one occurrence.
                    assert forall|j1: int, j2: int|
                        0 <= j1 < j2 < self.intersecting@.len()
                        implies self.intersecting@[j1] != self.intersecting@[j2]
                    by {
                        assert(self.intersecting@[j1] == if j1 < iv {
                            olds[j1]
                        } else {
                            olds[j1 + 1]
                        });
                        assert(self.intersecting@[j2] == if j2 < iv {
                            olds[j2]
                        } else {
                            olds[j2 + 1]
                        });
                    }
                    assert(self.contacts() =~= olds.to_set().remove(id)) by {
                        assert forall|a: u64| self.intersecting@.contains(a)
                            implies olds.contains(a) && a != id
                        by {
                            let k = choose|k: int| 0 <= k < self.intersecting@.len()
                                && self.intersecting@[k] == a;
                            if k < iv {
                                assert(olds[k] == a);
                            } else {
                                assert(olds[k + 1] == a);
                            }
                        }
                        assert forall|a: u64| olds.contains(a) && a != id
                            implies self.intersecting@.contains(a)
                        by {
                            let k = choose|k: int| 0 <= k < olds.len() && olds[k] == a;
                            if k < iv {
                                assert(self.intersecting@[k] == a);
                            } else {
                                assert(k != iv);
                                assert(self.intersecting@[k - 1] == a);
                            }
                        }
                    }
                }
                return;
            }
            i = i + 1;
        }
        proof {
            assert(!olds.contains(id));
            assert(self.contacts() =~= olds.to_set().remove(id));
        }
    }

    /// Whether the sensor currently makes its character grounded: it
    /// touches at least one solid.
    pub fn is_grounded(&self) -> (r: bool)
        ensures
            r == spec_grounded(self.contacts()),
    {
        let r = self.intersecting.len() > 0;
        proof {
            if self.intersecting@.len() > 0 {
                assert(self.intersecting@.contains(self.intersecting@[0])) by {
                    assert(self.intersecting@[0] == self.intersecting@[0]);
                }
                assert(self.contacts().contains(self.intersecting@[0]));
            } else {
                assert(self.contacts() =~= Set::<u64>::empty());
            }
        }
        r
    }

    /// Applies one overlap event to this sensor, following the pairing
    /// rules of [`apply_event`].
    pub fn apply_contact_event(&mut self, solids: &Vec<u64>, e: &ContactEvent)
        requires
            old(self).wf(),
            old(self).intersecting@.len() < usize::MAX,
        ensures
            final(self).wf(),
            final(self).entity == old(self).entity,
            final(self).ground_detection_entity == old(self).ground_detection_entity,
            final(self).contacts() == apply_event(
                old(self).contacts(), old(self).entity, solids@.to_set(), *e,
            ),
            final(self).is_changed() == (old(self).is_changed()
                || apply_event(old(self).contacts(), old(self).entity, solids@.to_set(), *e)
                    != old(self).contacts()),
            final(self).intersecting@.len() <= old(self).intersecting@.len() + 1,
    {
        match *e {
            ContactEvent::Begin(a, b) => {
                if contains_id(solids, a) {
                    if b == self.entity {
                        let ghost oldc = self.contacts();
                        self.insert_contact(a);
                        proof {
                            if oldc.contains(a) {
                                assert(oldc.insert(a) =~= oldc);
                            } else {
                                assert(oldc.insert(a).contains(a));
                            }
                        }
                    }
                } else if contains_id(solids, b) && a == self.entity {
                    let ghost oldc = self.contacts();
                    self.insert_contact(b);
                    proof {
                        if oldc.contains(b) {
                            assert(oldc.insert(b) =~= oldc);
                        } else {
                            assert(oldc.insert(b).contains(b));
                        }
                    }
                }
            }
            ContactEvent::End(a, b) => {
                if contains_id(solids, a) {
                    if b == self.entity {
                        let ghost oldc = self.contacts();
                        self.remove_contact(a);
                        proof {
                            if oldc.contains(a) {
                                assert(!oldc.remove(a).contains(a));
                            } else {
                                assert(oldc.remove(a) =~= oldc);
                            }
                        }
                    }
                } else if contains_id(solids, b) && a == self.entity {
                    let ghost oldc = self.contacts();
                    self.remove_contact(b);
                    proof {
                        if oldc.contains(b) {
                            assert(!oldc.remove(b).contains(b));
                        } else {
                            assert(oldc.remove(b) =~= oldc);
                        }
                    }
                }
            }
        }
    }

    /// Applies a whole physics step's event stream to this sensor, in
    /// order.
    pub fn drain_contact_events(&mut self, solids: &Vec<u64>, events: &Vec<ContactEvent>)
        requires
            old(self).wf(),
            old(self).intersecting@.len() + events@.len() < usize::MAX,
        ensures
            final(self).wf(),
            final(self).entity == old(self).entity,
            final(self).ground_detection_entity == old(self).ground_detection_entity,
            final(self).contacts() == apply_events(
                old(self).contacts(), old(self).entity, solids@.to_set(), events@,
            ),
            final(self).is_changed() == (old(self).is_changed() || events_dirty(
                old(self).contacts(), old(self).entity, solids@.to_set(), events@,
            )),
    {
        let ghost orig = self.contacts();
        let ghost oldchanged = self.is_changed();
        let ghost ent = self.entity;
        let ghost gde = self.ground_detection_entity;
        let ghost len0 = self.intersecting@.len() as int;
        let ghost sol = solids@.to_set();
        let n = events.len();
        let mut i: usize = 0;
        while i < n
            invariant
                0 <= i <= n,
                n == events@.len(),
                self.wf(),
                self.entity == ent,
                self.ground_detection_entity == gde,
                sol == solids@.to_set(),
                self.intersecting@.len() <= len0 + i,
                len0 + events@.len() < usize::MAX,
                self.contacts() == apply_events(orig, ent, sol, events@.take(i as int)),
                self.is_changed() == (oldchanged
                    || events_dirty(orig, ent, sol, events@.take(i as int))),
            decreases n - i,
        {
            let ghost pre = self.contacts();
            let e = events[i];
            self.apply_contact_event(solids, &e);
            proof {
                let t = events@.take(i + 1);
                assert(t.drop_last() =~= events@.take(i as int));
                assert(t.last() == events@[i as int]);
            }
            i = i + 1;
        }
        proof {
            assert(events@.take(n as int) =~= events@);
        }
    }
}

/// Whether the identifier is listed among the solid collidables.
fn contains_id(ids: &Vec<u64>, id: u64) -> (r: bool)
    ensures
        r == ids@.to_set().contains(id),
{
    let n = ids.len();
    let mut i: usize = 0;
    while i < n
        invariant
            0 <= i <= n,
            n == ids@.len(),
            forall|k: int| 0 <= k < i ==> ids@[k] != id,
        decreases n - i,
    {
        if ids[i] == id {
            assert(ids@.contains(id)) by {
                assert(ids@[i as int] == id);
            }
            return true;
        }
        i = i + 1;
    }
    proof {
        assert(!ids@.contains(id));
    }
    false
}


/// The grounded flag of one character, recomputed from its ground
/// sensor's contact set whenever that set changes.
#[derive(Clone, Copy, Debug, PartialEq, Eq, Structural)]
pub struct GroundDetection {
    /// The character entity this flag belongs to.
    pub entity: u64,
    /// Whether the character's ground sensor touches at least one
    /// solid.
    pub on_ground: bool,
}

/// The shape and placement of a character's ground sensor region, in
/// thousandths of a world unit: a box half as wide as the character and
/// two units tall, seated at the character's lower edge.
#[derive(Clone, Copy, Debug, PartialEq, Eq, Structural)]
pub struct SensorGeometry {
    pub half_extent_x_milli: i64,
    pub half_extent_y_milli: i64,
    pub offset_y_milli: i64,
}

/// Builds the ground sensor for a character whose collider is a box of
/// the given half-extents (in thousandths of a world unit): the sensor
/// region spans half the character's width, is two thousandths-units
/// tall, sits at the character's lower edge, and starts touching
/// nothing.
pub fn spawn_ground_sensor(
    sensor_entity: u64,
    character_entity: u64,
    half_extent_x_milli: i64,
    half_extent_y_milli: i64,
) -> (r: (SensorGeometry, GroundSensor))
    requires
        0 <= half_extent_x_milli,
        0 <= half_extent_y_milli,
    ensures
        r.0.half_extent_x_milli == half_extent_x_milli / 2,
        r.0.half_extent_y_milli == 2000,
        r.0.offset_y_milli == -half_extent_y_milli,
        r.1.wf(),
        r.1.entity == sensor_entity,
        r.1.ground_detection_entity == character_entity,
        r.1.contacts() == Set::<u64>::empty(),
        !r.1.is_changed(),
{
    let geometry = SensorGeometry {
        half_extent_x_milli: half_extent_x_milli / 2,
        half_extent_y_milli: 2000,
        offset_y_milli: -half_extent_y_milli,
    };
    (geometry, GroundSensor::new(sensor_entity, character_entity))
}

/// A mutable borrow of one sensor in the list.
fn sensor_at(sensors: &mut Vec<GroundSensor>, k: usize) -> (s: &mut GroundSensor)
    requires
        k < old(sensors)@.len(),
    ensures
        *s == old(sensors)@[k as int],
        final(sensors)@ == old(sensors)@.update(k as int, *final(s)),
{
    &mut sensors[k]
}

/// A mutable borrow of one grounded flag in the list.
fn detector_at(detectors: &mut Vec<GroundDetection>, d: usize) -> (r: &mut GroundDetection)
    requires
        d < old(detectors)@.len(),
    ensures
        *r == old(detectors)@[d as int],
        final(detectors)@ == old(detectors)@.update(d as int, *final(r)),
{
    &mut detectors[d]
}

/// Drains one physics step's overlap events into every ground sensor,
/// in order, following the engine's pairing rules (see
/// [`apply_event`]). Events naming no tracked sensor or no known solid
/// leave every contact set unchanged.
pub fn ground_detection(
    sensors: &mut Vec<GroundSensor>,
    solids: &Vec<u64>,
    events: &Vec<ContactEvent>,
)
    requires
        forall|k: int| 0 <= k < old(sensors)@.len()
            ==> (#[trigger] old(sensors)@[k]).wf()
                && old(sensors)@[k].intersecting@.len() + events@.len() < usize::MAX,
    ensures
        final(sensors)@.len() == old(sensors)@.len(),
        forall|k: int| #![trigger final(sensors)@[k]] 0 <= k < old(sensors)@.len() ==> {
            &&& final(sensors)@[k].wf()
            &&& final(sensors)@[k].entity == old(sensors)@[k].entity
            &&& final(sensors)@[k].ground_detection_entity
                == old(sensors)@[k].ground_detection_entity
            &&& final(sensors)@[k].contacts() == apply_events(
                    old(sensors)@[k].contacts(), old(sensors)@[k].entity,
                    solids@.to_set(), events@,
                )
            &&& final(sensors)@[k].is_changed() == (old(sensors)@[k].is_changed()
                    || events_dirty(
                        old(sensors)@[k].contacts(), old(sensors)@[k].entity,
                        solids@.to_set(), events@,
                    ))
        },
{
    let ghost os = sensors@;
    let n = sensors.len();
    let mut k: usize = 0;
    while k < n
        invariant
            0 <= k <= n,
            n == os.len(),
            sensors@.len() == os.len(),
            forall|kk: int| 0 <= kk < os.len()
                ==> (#[trigger] os[kk]).wf()
                    && os[kk].intersecting@.len() + events@.len() < usize::MAX,
            forall|kk: int| k <= kk < os.len() ==> sensors@[kk] == os[kk],
            forall|kk: int| #![trigger sensors@[kk]] 0 <= kk < k ==> {
                &&& sensors@[kk].wf()
                &&& sensors@[kk].entity == os[kk].entity
                &&& sensors@[kk].ground_detection_entity == os[kk].ground_detection_entity
                &&& sensors@[kk].contacts() == apply_events(
                        os[kk].contacts(), os[kk].entity, solids@.to_set(), events@,
                    )
                &&& sensors@[kk].is_changed() == (os[kk].is_changed() || events_dirty(
                        os[kk].contacts(), os[kk].entity, solids@.to_set(), events@,
                    ))
            },
        decreases n - k,
    {
        proof {
            assert(sensors@[k as int] == os[k as int]);
        }
        let s = sensor_at(sensors, k);
        s.drain_contact_events(solids, events);
        k = k + 1;
    }
}

/// Whether some sensor with a freshly changed contact set feeds the
/// grounded flag of the given character entity, among the first `k`
/// sensors.
pub open spec fn sensor_updates(sensors: Seq<GroundSensor>, k: int, entity: u64) -> bool {
    exists|kk: int| 0 <= kk < k && (#[trigger] sensors[kk]).is_changed()
        && sensors[kk].ground_detection_entity == entity
}

/// Recomputes the grounded flags from the sensors whose contact set
/// changed since the last recomputation, and clears those dirty
/// markers: a character is grounded exactly when its sensor touches at
/// least one solid. Flags of characters whose sensor did not change are
/// left alone.
pub fn update_on_ground(detectors: &mut Vec<GroundDetection>, sensors: &mut Vec<GroundSensor>)
    requires
        forall|k: int| 0 <= k < old(sensors)@.len() ==> (#[trigger] old(sensors)@[k]).wf(),
        forall|k1: int, k2: int| 0 <= k1 < k2 < old(sensors)@.len()
            ==> (#[trigger] old(sensors)@[k1]).ground_detection_entity
                != (#[trigger] old(sensors)@[k2]).ground_detection_entity,
    ensures
        final(sensors)@.len() == old(sensors)@.len(),
        forall|k: int| #![trigger final(sensors)@[k]] 0 <= k < old(sensors)@.len() ==> {
            &&& final(sensors)@[k].wf()
            &&& final(sensors)@[k].entity == old(sensors)@[k].entity
            &&& final(sensors)@[k].ground_detection_entity
                == old(sensors)@[k].ground_detection_entity
            &&& final(sensors)@[k].contacts() == old(sensors)@[k].contacts()
            &&& !final(sensors)@[k].is_changed()
        },
        final(detectors)@.len() == old(detectors)@.len(),
        forall|d: int| #![trigger final(detectors)@[d]] 0 <= d < old(detectors)@.len()
            ==> final(detectors)@[d].entity == old(detectors)@[d].entity,
        forall|d: int, k: int| #![trigger final(detectors)@[d], old(sensors)@[k]]
            0 <= d < old(detectors)@.len() && 0 <= k < old(sensors)@.len()
            && old(sensors)@[k].is_changed()
            && old(sensors)@[k].ground_detection_entity == old(detectors)@[d].entity
            ==> final(detectors)@[d].on_ground
                == spec_grounded(old(sensors)@[k].contacts()),
        forall|d: int| #![trigger final(detectors)@[d]] 0 <= d < old(detectors)@.len()
            && !sensor_updates(old(sensors)@, old(sensors)@.len() as int,
                old(detectors)@[d].entity)
            ==> final(detectors)@[d] == old(detectors)@[d],
{
    let ghost os = sensors@;
    let ghost od = detectors@;
    let n = sensors.len();
    let mut k: usize = 0;
    while k < n
        invariant
            0 <= k <= n,
            n == os.len(),
            sensors@.len() == os.len(),
            detectors@.len() == od.len(),
            forall|kk: int| 0 <= kk < os.len() ==> (#[trigger] os[kk]).wf(),
            forall|k1: int, k2: int| 0 <= k1 < k2 < os.len()
                ==> (#[trigger] os[k1]).ground_detection_entity
                    != (#[trigger] os[k2]).ground_detection_entity,
            forall|kk: int| k <= kk < os.len() ==> sensors@[kk] == os[kk],
            forall|kk: int| #![trigger sensors@[kk]] 0 <= kk < k ==> {
                &&& sensors@[kk].wf()
                &&& sensors@[kk].entity == os[kk].entity
                &&& sensors@[kk].ground_detection_entity == os[kk].ground_detection_entity
                &&& sensors@[kk].contacts() == os[kk].contacts()
                &&& !sensors@[kk].is_changed()
            },
            forall|d: int| #![trigger detectors@[d]] 0 <= d < od.len()
                ==> detectors@[d].entity == od[d].entity,
            forall|d: int, kk: int| #![trigger detectors@[d], os[kk]]
                0 <= d < od.len() && 0 <= kk < k
                && os[kk].is_changed()
                && os[kk].ground_detection_entity == od[d].entity
                ==> detectors@[d].on_ground == spec_grounded(os[kk].contacts()),
            forall|d: int| #![trigger detectors@[d]] 0 <= d < od.len()
                && !sensor_updates(os, k as int, od[d].entity)
                ==> detectors@[d] == od[d],
        decreases n - k,
    {
        proof {
            assert(sensors@[k as int] == os[k as int]);
        }
        let (owner, was_changed, grounded) = sensor_probe(sensors, k);
        if was_changed {
            let ghost dprev = detectors@;
            let s = sensor_at(sensors, k);
            s.changed = false;
            let m = detectors.len();
            let mut d: usize = 0;
            while d < m
                invariant
                    0 <= d <= m,
                    m == od.len(),
                    detectors@.len() == od.len(),
                    dprev.len() == od.len(),
                    forall|dd: int| 0 <= dd < od.len()
                        ==> (#[trigger] dprev[dd]).entity == od[dd].entity,
                    forall|dd: int| 0 <= dd < od.len()
                        ==> (#[trigger] detectors@[dd]).entity == od[dd].entity,
                    forall|dd: int| #![trigger detectors@[dd]] 0 <= dd < d
                        && od[dd].entity == owner
                        ==> detectors@[dd].on_ground == grounded,
                    forall|dd: int| #![trigger detectors@[dd]] 0 <= dd < od.len()
                        && !(dd < d && od[dd].entity == owner)
                        ==> detectors@[dd] == dprev[dd],
                decreases m - d,
            {
                let matches_owner = {
                    let det = detector_at(detectors, d);
                    if det.entity == owner {
                        det.on_ground = grounded;
                        true
                    } else {
                        false
                    }
                };
                proof {
                    if !matches_owner {
                        assert(detectors@[d as int] == dprev[d as int]);
                    }
                }
                d = d + 1;
            }
            proof {
                // A changed sensor updates exactly the flags of its own
                // character; owners are unique, so flags set by earlier
                // sensors are untouched.
                assert forall|dd: int, kk: int| #![trigger detectors@[dd], os[kk]]
                    0 <= dd < od.len() && 0 <= kk < k + 1
                    && os[kk].is_changed()
                    && os[kk].ground_detection_entity == od[dd].entity
                    implies detectors@[dd].on_ground == spec_grounded(os[kk].contacts())
                by {
                    if kk == k as int {
                        assert(od[dd].entity == owner);
                        assert(detectors@[dd].on_ground == grounded);
                    } else {
                        assert(os[kk].ground_detection_entity != owner);
                        assert(detectors@[dd] == dprev[dd]);
                    }
                }
                assert forall|dd: int| #![trigger detectors@[dd]] 0 <= dd < od.len()
                    && !sensor_updates(os, k as int + 1, od[dd].entity)
                    implies detectors@[dd] == od[dd]
                by {
                    assert(!(os[k as int].is_changed()
                        && os[k as int].ground_detection_entity == od[dd].entity));
                    assert(od[dd].entity != owner);
                    assert(detectors@[dd] == dprev[dd]);
                    assert(!sensor_updates(os, k as int, od[dd].entity));
                }
            }
        } else {
            proof {
                assert forall|dd: int| #![trigger detectors@[dd]] 0 <= dd < od.len()
                    && !sensor_updates(os, k as int + 1, od[dd].entity)
                    implies detectors@[dd] == od[dd]
                by {
                    assert(!sensor_updates(os, k as int, od[dd].entity));
                }
            }
        }
        k = k + 1;
    }
}

/// Reads one sensor's owner, dirty marker and grounded reading.
fn sensor_probe(sensors: &Vec<GroundSensor>, k: usize) -> (r: (u64, bool, bool))
    requires
        k < sensors@.len(),
    ensures
        r.0 == sensors@[k as int].ground_detection_entity,
        r.1 == sensors@[k as int].is_changed(),
        r.2 == spec_grounded(sensors@[k as int].contacts()),
{
    let s = &sensors[k];
    (s.ground_detection_entity, s.changed, s.is_grounded())
}

/// Law: a contact that begins and then ends leaves nothing behind. A
/// sensor that starts free of contacts, sees a solid begin overlapping
/// it and then end, holds the empty contact set again and reads as not
/// grounded.
pub proof fn lemma_begin_end_leaves_empty(sensor: u64, solids: Set<u64>, a: u64)
    requires
        solids.contains(a),
    ensures
        apply_event(
            apply_event(Set::<u64>::empty(), sensor, solids, ContactEvent::Begin(a, sensor)),
            sensor, solids, ContactEvent::End(a, sensor),
        ) == Set::<u64>::empty(),
        !spec_grounded(apply_event(
            apply_event(Set::<u64>::empty(), sensor, solids, ContactEvent::Begin(a, sensor)),
            sensor, solids, ContactEvent::End(a, sensor),
        )),
{
    assert(Set::<u64>::empty().insert(a).remove(a) =~= Set::<u64>::empty());
}

/// Law: overlapping contacts keep a character grounded. A sensor that
/// sees two distinct solids begin overlapping it and the first of them
/// end still holds the second, and stays grounded.
pub proof fn lemma_overlap_keeps_grounded(sensor: u64, solids: Set<u64>, a: u64, b: u64)
    requires
        solids.contains(a),
        solids.contains(b),
        a != b,
    ensures
        apply_event(
            apply_event(
                apply_event(Set::<u64>::empty(), sensor, solids, ContactEvent::Begin(a, sensor)),
                sensor, solids, ContactEvent::Begin(b, sensor),
            ),
            sensor, solids, ContactEvent::End(a, sensor),
        ) == Set::<u64>::empty().insert(b),
        spec_grounded(apply_event(
            apply_event(
                apply_event(Set::<u64>::empty(), sensor, solids, ContactEvent::Begin(a, sensor)),
                sensor, solids, ContactEvent::Begin(b, sensor),
            ),
            sensor, solids, ContactEvent::End(a, sensor),
        )),
{
    let s = Set::<u64>::empty().insert(a).insert(b).remove(a);
    assert(s =~= Set::<u64>::empty().insert(b));
    assert(s.contains(b));
}

} // verus!
