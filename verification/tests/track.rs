use ascii_racer::track::{
    checkpoint_point, is_rail_segment, previous_point, segment_end, track_points, CheckpointZone,
    Track, CHECKPOINT_COUNT, TRACK_POINT_COUNT,
};

const CHECKPOINT_RADIUS: f32 = 7.0;

/// The zone a car position (x, z) is in around the track's next gate.
fn zone_at(track: &Track, x: f32, z: f32) -> CheckpointZone {
    let (px, pz) = track_points()[track.next_checkpoint_point()];
    let dx = x - px as f32;
    let dz = z - pz as f32;
    let distance = (dx * dx + dz * dz).sqrt();
    if distance < CHECKPOINT_RADIUS {
        CheckpointZone::Inside
    } else if distance > CHECKPOINT_RADIUS + 3.0 {
        CheckpointZone::Away
    } else {
        CheckpointZone::Near
    }
}

fn update_at(track: &mut Track, x: f32, z: f32) {
    let zone = zone_at(track, x, z);
    track.update_checkpoint(zone);
}

#[test]
fn checkpoints_require_order() {
    let mut track = Track::new();
    update_at(&mut track, 46.0, 68.0);
    assert_eq!(track.checkpoint_display(), 1);
    let points = track_points();
    for k in 0..CHECKPOINT_COUNT {
        let (px, pz) = points[checkpoint_point(k)];
        update_at(&mut track, 200.0, 200.0);
        update_at(&mut track, px as f32, pz as f32);
    }
    assert_eq!(track.laps(), 1);
}

#[test]
fn track_layout_matches_the_circuit() {
    let points = track_points();
    assert_eq!(points.len(), TRACK_POINT_COUNT);
    assert_eq!(points[0], (0, 0));
    assert_eq!(points[4], (46, 68));
    assert_eq!(points[11], (5, -14));
    let gates: Vec<usize> = (0..CHECKPOINT_COUNT).map(checkpoint_point).collect();
    assert_eq!(gates, vec![2, 4, 6, 8, 10, 0]);
    let rails: Vec<usize> = (0..TRACK_POINT_COUNT).filter(|&i| is_rail_segment(i)).collect();
    assert_eq!(rails, vec![1, 2, 5, 6, 7]);
    assert_eq!(segment_end(11, 12), 0);
    assert_eq!(segment_end(3, 12), 4);
    assert_eq!(previous_point(0, 12), 11);
    assert_eq!(previous_point(5, 12), 4);
}

#[test]
fn fresh_track_starts_at_the_first_gate() {
    let track = Track::new();
    assert_eq!(track.checkpoint_display(), 1);
    assert_eq!(track.checkpoint_count(), 6);
    assert_eq!(track.laps(), 0);
    assert_eq!(track.next_checkpoint_point(), 2);
}

#[test]
fn staying_inside_a_gate_passes_it_once() {
    let mut track = Track::new();
    track.update_checkpoint(CheckpointZone::Inside);
    assert_eq!(track.checkpoint_display(), 2);
    track.update_checkpoint(CheckpointZone::Inside);
    track.update_checkpoint(CheckpointZone::Near);
    track.update_checkpoint(CheckpointZone::Inside);
    assert_eq!(track.checkpoint_display(), 2);
    track.update_checkpoint(CheckpointZone::Away);
    track.update_checkpoint(CheckpointZone::Inside);
    assert_eq!(track.checkpoint_display(), 3);
}

#[test]
fn full_circuit_counts_one_lap_and_wraps() {
    let mut track = Track::new();
    for lap in 1..=3u32 {
        for _ in 0..CHECKPOINT_COUNT {
            track.update_checkpoint(CheckpointZone::Away);
            track.update_checkpoint(CheckpointZone::Inside);
        }
        assert_eq!(track.laps(), lap);
        assert_eq!(track.checkpoint_display(), 1);
    }
}

#[test]
fn reset_progress_keeps_laps_and_rearms_first_gate() {
    let mut track = Track::new();
    for _ in 0..CHECKPOINT_COUNT + 2 {
        track.update_checkpoint(CheckpointZone::Away);
        track.update_checkpoint(CheckpointZone::Inside);
    }
    assert_eq!(track.laps(), 1);
    assert_eq!(track.checkpoint_display(), 3);
    track.reset_progress();
    assert_eq!(track.checkpoint_display(), 1);
    assert_eq!(track.laps(), 1);
    track.update_checkpoint(CheckpointZone::Inside);
    assert_eq!(track.checkpoint_display(), 2);
}
