use ascii_racer::frame::Frame;
use ascii_racer::hud::{
    draw_hud, format_checkpoint_line, format_status_line, lap_display, race_status, RaceStatus,
};
use ascii_racer::track::{CheckpointZone, Track};

#[test]
fn status_line_pads_speed_and_time() {
    assert_eq!(
        format_status_line(7, 0, 75, 5, false),
        "SPEED   7 km/h   LAP 1/3   TIME 01:15.05   RACE"
    );
    assert_eq!(
        format_status_line(1234, 1, 3601, 99, true),
        "SPEED 1234 km/h   LAP 2/3   TIME 60:01.99   OFF ROAD"
    );
    assert_eq!(
        format_status_line(97, 3, 0, 0, true),
        "SPEED  97 km/h   LAP 3/3   TIME 00:00.00   FINISH!"
    );
}

#[test]
fn checkpoint_line_names_the_controls() {
    assert_eq!(
        format_checkpoint_line(2, 6, true),
        "CHECKPOINT 2/6   W/UP accelerate  S/DOWN brake  A/D steer  SPACE drift  R reset  Q quit"
    );
    assert_eq!(
        format_checkpoint_line(6, 6, false),
        "CHECKPOINT 6/6   W/UP accelerate  S/DOWN brake  A/D steer  SPACE drift  R reset"
    );
}

#[test]
fn lap_display_holds_at_the_last_lap() {
    assert_eq!(lap_display(0), 1);
    assert_eq!(lap_display(2), 3);
    assert_eq!(lap_display(3), 3);
    assert_eq!(lap_display(40), 3);
    assert_eq!(race_status(2, false), RaceStatus::Race);
    assert_eq!(race_status(2, true), RaceStatus::OffRoad);
    assert_eq!(race_status(3, true), RaceStatus::Finish);
}

#[test]
fn draw_hud_writes_two_rows_from_the_second_column() {
    let mut frame = Frame::new(20, 3);
    let mut track = Track::new();
    track.update_checkpoint(CheckpointZone::Inside);
    draw_hud(&mut frame, 12, &track, 61, 40, false, true);
    let row = |y: usize| -> String { (0..20).map(|x| frame.cell_at(y * 20 + x).ch).collect() };
    assert_eq!(row(0), " SPEED  12 km/h   LA");
    assert_eq!(row(1), " CHECKPOINT 2/6   W/");
    assert_eq!(row(2), "                    ");
    assert!(!frame.cell_at(0).overlay);
    assert!(frame.cell_at(1).overlay);
}
