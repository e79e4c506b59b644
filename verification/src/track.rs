//! The race circuit's layout and the ordered checkpoint and lap progress.
use vstd::prelude::*;

verus! {

/// Number of checkpoint gates on the circuit.
pub const CHECKPOINT_COUNT: usize = 6;

/// Number of corner points of the circuit's centre line.
pub const TRACK_POINT_COUNT: usize = 12;

/// Corner points of the circuit's centre line in metres, as (x, z), in
/// driving order; the last point joins back to the first.
pub open spec fn spec_track_points() -> Seq<(i32, i32)> {
    seq![
        (0i32, 0i32),
        (0, 28),
        (3, 51),
        (18, 65),
        (46, 68),
        (75, 64),
        (94, 47),
        (92, 23),
        (70, 8),
        (44, 3),
        (20, -8i32),
        (5, -14i32),
    ]
}

/// The corner point that checkpoint gate `k` stands on, in the order the
/// gates must be passed.
pub open spec fn spec_checkpoint_point(k: nat) -> nat {
    if k == 0 {
        2
    } else if k == 1 {
        4
    } else if k == 2 {
        6
    } else if k == 3 {
        8
    } else if k == 4 {
        10
    } else {
        0
    }
}

/// Segments (from corner `i` to corner `i + 1`) lined by guardrails.
pub open spec fn spec_is_rail_segment(i: nat) -> bool {
    i == 1 || i == 2 || i == 5 || i == 6 || i == 7
}

/// The corner points of the circuit, as [`spec_track_points`] lists them.
pub fn track_points() -> (points: Vec<(i32, i32)>)
    ensures
        points@ == spec_track_points(),
        points@.len() == TRACK_POINT_COUNT,
{
    let points = vec![
        (0i32, 0i32),
        (0, 28),
        (3, 51),
        (18, 65),
        (46, 68),
        (75, 64),
        (94, 47),
        (92, 23),
        (70, 8),
        (44, 3),
        (20, -8),
        (5, -14),
    ];
    assert(points@ =~= spec_track_points());
    points
}

/// The corner index of checkpoint gate `k`.
pub fn checkpoint_point(k: usize) -> (point: usize)
    requires
        k < CHECKPOINT_COUNT,
    ensures
        point == spec_checkpoint_point(k as nat),
        point < TRACK_POINT_COUNT,
{
    if k == 0 {
        2
    } else if k == 1 {
        4
    } else if k == 2 {
        6
    } else if k == 3 {
        8
    } else if k == 4 {
        10
    } else {
        0
    }
}

/// Whether the segment from corner `i` to the next corner has guardrails.
pub fn is_rail_segment(i: usize) -> (rail: bool)
    ensures
        rail == spec_is_rail_segment(i as nat),
{
    i == 1 || i == 2 || i == 5 || i == 6 || i == 7
}

/// The corner a segment ends at: the next one, wrapping to the first.
pub fn segment_end(i: usize, count: usize) -> (j: usize)
    requires
        i < count,
    ensures
        j == (i + 1) % (count as int),
        j < count,
{
    if i + 1 == count {
        proof {
            vstd::arithmetic::div_mod::lemma_mod_self_0(count as int);
        }
        0
    } else {
        proof {
            vstd::arithmetic::div_mod::lemma_small_mod((i + 1) as nat, count as nat);
        }
        i + 1
    }
}

/// The corner before corner `i`, wrapping to the last.
pub fn previous_point(i: usize, count: usize) -> (j: usize)
    requires
        i < count,
    ensures
        j == (i + count - 1) % (count as int),
        j < count,
{
    if i == 0 {
        proof {
            vstd::arithmetic::div_mod::lemma_small_mod((count - 1) as nat, count as nat);
        }
        count - 1
    } else {
        proof {
            vstd::arithmetic::div_mod::lemma_mod_add_multiples_vanish(i - 1, count as int);
            vstd::arithmetic::div_mod::lemma_small_mod((i - 1) as nat, count as nat);
        }
        i - 1
    }
}

/// Where the car is relative to the next checkpoint gate: within its radius,
/// outside it but still too close to re-arm it, or far enough to re-arm it.
#[derive(Clone, Copy, Debug, PartialEq, Eq, Structural)]
pub enum CheckpointZone {
    Inside,
    Near,
    Away,
}

/// Lap progress as (next gate, next gate armed, laps completed).
pub type Progress = (nat, bool, nat);

/// One progress step for the car's zone around the next gate.
pub open spec fn step(p: Progress, zone: CheckpointZone) -> Progress {
    if zone == CheckpointZone::Inside && p.1 {
        if p.0 + 1 == CHECKPOINT_COUNT {
            (0, false, p.2 + 1)
        } else {
            (p.0 + 1, false, p.2)
        }
    } else {
        (p.0, p.1 || zone == CheckpointZone::Away, p.2)
    }
}

/// Progress after a sequence of updates.
pub open spec fn run(p: Progress, zones: Seq<CheckpointZone>) -> Progress
    decreases zones.len(),
{
    if zones.len() == 0 {
        p
    } else {
        run(step(p, zones[0]), zones.drop_first())
    }
}

/// Gates passed since the start: each completed lap counts all of them.
pub open spec fn gates_passed(p: Progress) -> nat {
    p.2 * CHECKPOINT_COUNT as nat + p.0
}

/// Number of updates that found the car inside a gate's radius.
pub open spec fn count_inside(zones: Seq<CheckpointZone>) -> nat
    decreases zones.len(),
{
    if zones.len() == 0 {
        0
    } else {
        (if zones[0] == CheckpointZone::Inside {
            1nat
        } else {
            0nat
        }) + count_inside(zones.drop_first())
    }
}

/// Driving the circuit in order: away from each gate, then through it.
pub open spec fn circuit_drive() -> Seq<CheckpointZone> {
    seq![
        CheckpointZone::Away,
        CheckpointZone::Inside,
        CheckpointZone::Away,
        CheckpointZone::Inside,
        CheckpointZone::Away,
        CheckpointZone::Inside,
        CheckpointZone::Away,
        CheckpointZone::Inside,
        CheckpointZone::Away,
        CheckpointZone::Inside,
        CheckpointZone::Away,
        CheckpointZone::Inside,
    ]
}

/// Progress only counts gates the car entered: over any run the number of
/// gates passed grows by at most the number of updates inside a gate, never
/// shrinks, and the next gate stays one of the circuit's gates.
pub proof fn lemma_progress_counts_entered_gates(p: Progress, zones: Seq<CheckpointZone>)
    requires
        p.0 < CHECKPOINT_COUNT,
    ensures
        run(p, zones).0 < CHECKPOINT_COUNT,
        gates_passed(p) <= gates_passed(run(p, zones)) <= gates_passed(p) + count_inside(zones),
    decreases zones.len(),
{
    if zones.len() > 0 {
        lemma_progress_counts_entered_gates(step(p, zones[0]), zones.drop_first());
    }
}

/// A gate is passed at most once per visit: while the car never gets away
/// from the gates, at most one gate is passed, and none if the next gate was
/// not armed.
pub proof fn lemma_one_pass_per_visit(p: Progress, zones: Seq<CheckpointZone>)
    requires
        p.0 < CHECKPOINT_COUNT,
        forall|i: int| 0 <= i < zones.len() ==> zones[i] != CheckpointZone::Away,
    ensures
        gates_passed(run(p, zones)) <= gates_passed(p) + if p.1 {
            1nat
        } else {
            0nat
        },
        !p.1 ==> run(p, zones) == p,
    decreases zones.len(),
{
    if zones.len() > 0 {
        let q = step(p, zones[0]);
        assert(forall|i: int|
            0 <= i < zones.drop_first().len() ==> zones.drop_first()[i] == zones[i + 1]);
        lemma_one_pass_per_visit(q, zones.drop_first());
    }
}

/// Driving once around the circuit from the first gate, leaving each gate's
/// surroundings before entering the next gate, completes exactly one lap.
pub proof fn lemma_circuit_completes_lap(armed: bool, laps: nat)
    ensures
        run((0, armed, laps), circuit_drive()) == (0nat, false, laps + 1),
{
    reveal_with_fuel(run, 13);
    let d = circuit_drive();
    assert(d.drop_first() =~= d.subrange(1, 12));
    assert(d.subrange(1, 12).drop_first() =~= d.subrange(2, 12));
    assert(d.subrange(2, 12).drop_first() =~= d.subrange(3, 12));
    assert(d.subrange(3, 12).drop_first() =~= d.subrange(4, 12));
    assert(d.subrange(4, 12).drop_first() =~= d.subrange(5, 12));
    assert(d.subrange(5, 12).drop_first() =~= d.subrange(6, 12));
    assert(d.subrange(6, 12).drop_first() =~= d.subrange(7, 12));
    assert(d.subrange(7, 12).drop_first() =~= d.subrange(8, 12));
    assert(d.subrange(8, 12).drop_first() =~= d.subrange(9, 12));
    assert(d.subrange(9, 12).drop_first() =~= d.subrange(10, 12));
    assert(d.subrange(10, 12).drop_first() =~= d.subrange(11, 12));
    assert(d.subrange(11, 12).drop_first() =~= d.subrange(12, 12));
}

/// Lap progress: the next gate to pass, whether it can be passed now, and the
/// laps completed.
pub struct Track {
    next_checkpoint: usize,
    checkpoint_armed: bool,
    laps: u32,
}

impl Track {
    pub closed spec fn spec_next(&self) -> nat {
        self.next_checkpoint as nat
    }

    pub closed spec fn spec_armed(&self) -> bool {
        self.checkpoint_armed
    }

    pub closed spec fn spec_laps(&self) -> nat {
        self.laps as nat
    }

    /// Whether the next gate counts when the car comes inside it.
    pub fn armed(&self) -> (armed: bool)
        ensures
            armed == self.spec_armed(),
    {
        self.checkpoint_armed
    }

    /// Laps completed.
    pub fn laps(&self) -> (n: u32)
        ensures
            n == self.spec_laps(),
    {
        self.laps
    }

    /// The progress as (next gate, armed, laps).
    pub open spec fn progress(&self) -> Progress {
        (self.spec_next(), self.spec_armed(), self.spec_laps())
    }

    /// The next gate is always one of the circuit's gates.
    pub open spec fn inv(&self) -> bool {
        self.spec_next() < CHECKPOINT_COUNT
    }

    /// Whether an update in `zone` passes the next gate.
    pub open spec fn passes(&self, zone: CheckpointZone) -> bool {
        zone == CheckpointZone::Inside && self.spec_armed()
    }

    /// Whether an update in `zone` passes the last gate of the lap.
    pub open spec fn completes_lap(&self, zone: CheckpointZone) -> bool {
        self.passes(zone) && self.spec_next() + 1 == CHECKPOINT_COUNT
    }

    /// Progress at the start line: no lap done, the first gate armed.
    pub fn new() -> (t: Track)
        ensures
            t.inv(),
            t.spec_next() == 0,
            t.spec_armed(),
            t.spec_laps() == 0,
    {
        Track { next_checkpoint: 0, checkpoint_armed: true, laps: 0 }
    }

    /// Back to the first gate, armed; completed laps are kept.
    pub fn reset_progress(&mut self)
        ensures
            final(self).inv(),
            final(self).spec_next() == 0,
            final(self).spec_armed(),
            final(self).spec_laps() == old(self).spec_laps(),
    {
        self.next_checkpoint = 0;
        self.checkpoint_armed = true;
    }

    /// The next gate, counted from one for display.
    pub fn checkpoint_display(&self) -> (n: usize)
        requires
            self.inv(),
        ensures
            n == self.spec_next() + 1,
            1 <= n <= CHECKPOINT_COUNT,
    {
        self.next_checkpoint + 1
    }

    /// The number of gates on the circuit.
    pub fn checkpoint_count(&self) -> (n: usize)
        ensures
            n == CHECKPOINT_COUNT,
    {
        CHECKPOINT_COUNT
    }

    /// The corner index of the next gate, whose distance decides the zone.
    pub fn next_checkpoint_point(&self) -> (point: usize)
        requires
            self.inv(),
        ensures
            point == spec_checkpoint_point(self.spec_next()),
            point < TRACK_POINT_COUNT,
    {
        checkpoint_point(self.next_checkpoint)
    }

    /// One progress step for the car's zone around the next gate; see
    /// [`step`], which the ensures clauses spell out field by field.
    pub fn update_checkpoint(&mut self, zone: CheckpointZone)
        requires
            old(self).inv(),
            old(self).completes_lap(zone) ==> old(self).spec_laps() < u32::MAX,
        ensures
            final(self).inv(),
            final(self).progress() == step(old(self).progress(), zone),
            final(self).spec_armed() == if old(self).passes(zone) {
                false
            } else {
                old(self).spec_armed() || zone == CheckpointZone::Away
            },
            final(self).spec_next() == if !old(self).passes(zone) {
                old(self).spec_next()
            } else if old(self).completes_lap(zone) {
                0
            } else {
                old(self).spec_next() + 1
            },
            final(self).spec_laps() == old(self).spec_laps() + if old(self).completes_lap(zone) {
                1int
            } else {
                0int
            },
            final(self).spec_laps() * CHECKPOINT_COUNT + final(self).spec_next() == old(self).spec_laps()
                * CHECKPOINT_COUNT + old(self).spec_next() + if old(self).passes(zone) {
                1int
            } else {
                0int
            },
    {
        if zone == CheckpointZone::Away {
            self.checkpoint_armed = true;
        }
        if zone == CheckpointZone::Inside && self.checkpoint_armed {
            self.checkpoint_armed = false;
            self.next_checkpoint = self.next_checkpoint + 1;
            if self.next_checkpoint == CHECKPOINT_COUNT {
                self.next_checkpoint = 0;
                self.laps = self.laps + 1;
            }
        }
    }
}

} // verus!
