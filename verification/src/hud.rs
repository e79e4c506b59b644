//! The two heads-up-display lines: speed, lap, race time and status on the
//! first, checkpoint progress and the controls on the second.
use vstd::prelude::*;
use crate::decimal::{dec, pad_left, push_decimal, push_padded};
use crate::frame::{Frame, with_text};
use crate::track::{Track, CHECKPOINT_COUNT};

verus! {

/// Laps in a race.
pub const TOTAL_LAPS: u32 = 3;

/// What the status field of the display says.
#[derive(Clone, Copy, Debug, PartialEq, Eq, Structural)]
pub enum RaceStatus {
    Finish,
    OffRoad,
    Race,
}

/// The race is finished once every lap is done; otherwise leaving the road
/// is reported.
pub open spec fn spec_race_status(laps: nat, offroad: bool) -> RaceStatus {
    if laps >= TOTAL_LAPS {
        RaceStatus::Finish
    } else if offroad {
        RaceStatus::OffRoad
    } else {
        RaceStatus::Race
    }
}

pub open spec fn status_text(status: RaceStatus) -> Seq<char> {
    match status {
        RaceStatus::Finish => "FINISH!"@,
        RaceStatus::OffRoad => "OFF ROAD"@,
        RaceStatus::Race => "RACE"@,
    }
}

/// The lap being driven, counted from one and held at the last lap once
/// the race is finished.
pub open spec fn spec_lap_display(laps: nat) -> nat {
    if laps + 1 <= TOTAL_LAPS {
        laps + 1
    } else {
        TOTAL_LAPS as nat
    }
}

/// `SPEED {:>3} km/h   LAP {}/{}   TIME {:02}:{:02}.{:02}   {}` with the
/// speed, the lap, the race time in minutes, seconds and hundredths, and the
/// status.
pub open spec fn status_line(
    speed_kmh: nat,
    laps: nat,
    total_secs: nat,
    centis: nat,
    offroad: bool,
) -> Seq<char> {
    "SPEED "@ + pad_left(dec(speed_kmh), 3, ' ') + " km/h   LAP "@ + dec(spec_lap_display(laps))
        + "/"@ + dec(TOTAL_LAPS as nat) + "   TIME "@ + pad_left(dec(total_secs / 60), 2, '0')
        + ":"@ + pad_left(dec(total_secs % 60), 2, '0') + "."@ + pad_left(dec(centis), 2, '0')
        + "   "@ + status_text(spec_race_status(laps, offroad))
}

/// `CHECKPOINT {}/{}` and the control reminder, with the quit key where the
/// game can be quit from the keyboard.
pub open spec fn checkpoint_line(next: nat, count: nat, quit_hint: bool) -> Seq<char> {
    "CHECKPOINT "@ + dec(next) + "/"@ + dec(count)
        + "   W/UP accelerate  S/DOWN brake  A/D steer  SPACE drift  R reset"@ + if quit_hint {
        "  Q quit"@
    } else {
        Seq::empty()
    }
}

pub fn race_status(laps: u32, offroad: bool) -> (status: RaceStatus)
    ensures
        status == spec_race_status(laps as nat, offroad),
        laps >= TOTAL_LAPS ==> status == RaceStatus::Finish,
        status == RaceStatus::OffRoad <==> (laps < TOTAL_LAPS && offroad),
        status == RaceStatus::Race <==> (laps < TOTAL_LAPS && !offroad),
{
    if laps >= TOTAL_LAPS {
        RaceStatus::Finish
    } else if offroad {
        RaceStatus::OffRoad
    } else {
        RaceStatus::Race
    }
}

pub fn lap_display(laps: u32) -> (lap: u32)
    requires
        laps < u32::MAX,
    ensures
        lap == spec_lap_display(laps as nat),
        1 <= lap <= TOTAL_LAPS,
{
    let next: u32 = laps + 1;
    if next <= TOTAL_LAPS {
        next
    } else {
        TOTAL_LAPS
    }
}

/// Once every lap is done the race is finished, on or off the road; before
/// that the status is off-road exactly when the car is off the road, and
/// racing otherwise.
pub proof fn lemma_race_status(laps: nat, offroad: bool)
    ensures
        laps >= TOTAL_LAPS ==> spec_race_status(laps, offroad) == RaceStatus::Finish,
        spec_race_status(laps, offroad) == RaceStatus::OffRoad <==> (laps < TOTAL_LAPS
            && offroad),
        spec_race_status(laps, offroad) == RaceStatus::Race <==> (laps < TOTAL_LAPS && !offroad),
{
}

/// The first display line ends with the status word: `FINISH!` once every
/// lap is done, whether or not the car is on the road, `OFF ROAD` or `RACE`
/// before.
pub proof fn lemma_status_line_ends_with_status(
    speed_kmh: nat,
    laps: nat,
    total_secs: nat,
    centis: nat,
    offroad: bool,
)
    ensures
        ({
            let line = status_line(speed_kmh, laps, total_secs, centis, offroad);
            let word: Seq<char> = if laps >= TOTAL_LAPS {
                "FINISH!"@
            } else if offroad {
                "OFF ROAD"@
            } else {
                "RACE"@
            };
            &&& line.len() >= word.len()
            &&& line.subrange(line.len() - word.len(), line.len() as int) == word
        }),
{
    let line = status_line(speed_kmh, laps, total_secs, centis, offroad);
    let word: Seq<char> = if laps >= TOTAL_LAPS {
        "FINISH!"@
    } else if offroad {
        "OFF ROAD"@
    } else {
        "RACE"@
    };
    lemma_race_status(laps, offroad);
    let head = "SPEED "@ + pad_left(dec(speed_kmh), 3, ' ') + " km/h   LAP "@ + dec(
        spec_lap_display(laps),
    ) + "/"@ + dec(TOTAL_LAPS as nat) + "   TIME "@ + pad_left(dec(total_secs / 60), 2, '0')
        + ":"@ + pad_left(dec(total_secs % 60), 2, '0') + "."@ + pad_left(dec(centis), 2, '0')
        + "   "@;
    assert(status_text(spec_race_status(laps, offroad)) == word);
    assert(line == head + word);
    assert(line.subrange(line.len() - word.len(), line.len() as int) =~= word);
}

/// The first display line.
pub fn format_status_line(
    speed_kmh: u32,
    laps: u32,
    total_secs: u64,
    centis: u32,
    offroad: bool,
) -> (line: String)
    requires
        laps < u32::MAX,
    ensures
        line@ == status_line(
            speed_kmh as nat,
            laps as nat,
            total_secs as nat,
            centis as nat,
            offroad,
        ),
        laps >= TOTAL_LAPS ==> line@.subrange(line@.len() - 7, line@.len() as int)
            == "FINISH!"@,
{
    proof {
        lemma_status_line_ends_with_status(
            speed_kmh as nat,
            laps as nat,
            total_secs as nat,
            centis as nat,
            offroad,
        );
        reveal_strlit("FINISH!");
    }
    let mut s = String::new();
    s.append("SPEED ");
    push_padded(&mut s, speed_kmh as u64, 3, ' ');
    s.append(" km/h   LAP ");
    push_decimal(&mut s, lap_display(laps) as u64);
    s.append("/");
    push_decimal(&mut s, TOTAL_LAPS as u64);
    s.append("   TIME ");
    push_padded(&mut s, total_secs / 60, 2, '0');
    s.append(":");
    push_padded(&mut s, total_secs % 60, 2, '0');
    s.append(".");
    push_padded(&mut s, centis as u64, 2, '0');
    s.append("   ");
    match race_status(laps, offroad) {
        RaceStatus::Finish => s.append("FINISH!"),
        RaceStatus::OffRoad => s.append("OFF ROAD"),
        RaceStatus::Race => s.append("RACE"),
    }
    proof {
        assert(s@ =~= status_line(
            speed_kmh as nat,
            laps as nat,
            total_secs as nat,
            centis as nat,
            offroad,
        ));
    }
    s
}

/// The second display line.
pub fn format_checkpoint_line(next: usize, count: usize, quit_hint: bool) -> (line: String)
    ensures
        line@ == checkpoint_line(next as nat, count as nat, quit_hint),
{
    let mut s = String::new();
    s.append("CHECKPOINT ");
    push_decimal(&mut s, next as u64);
    s.append("/");
    push_decimal(&mut s, count as u64);
    s.append("   W/UP accelerate  S/DOWN brake  A/D steer  SPACE drift  R reset");
    if quit_hint {
        s.append("  Q quit");
    }
    proof {
        assert(s@ =~= checkpoint_line(next as nat, count as nat, quit_hint));
    }
    s
}

/// Writes both display lines from the second column of the first two rows.
pub fn draw_hud(
    frame: &mut Frame,
    speed_kmh: u32,
    track: &Track,
    total_secs: u64,
    centis: u32,
    offroad: bool,
    quit_hint: bool,
)
    requires
        old(frame).inv(),
        track.inv(),
        track.spec_laps() < u32::MAX,
    ensures
        final(frame).inv(),
        final(frame).spec_width() == old(frame).spec_width(),
        final(frame).spec_height() == old(frame).spec_height(),
        final(frame)@ == with_text(
            with_text(
                old(frame)@,
                old(frame).spec_width(),
                old(frame).spec_height(),
                1,
                0,
                status_line(
                    speed_kmh as nat,
                    track.spec_laps(),
                    total_secs as nat,
                    centis as nat,
                    offroad,
                ),
            ),
            old(frame).spec_width(),
            old(frame).spec_height(),
            1,
            1,
            checkpoint_line(track.spec_next() + 1, CHECKPOINT_COUNT as nat, quit_hint),
        ),
{
    let first = format_status_line(speed_kmh, track.laps(), total_secs, centis, offroad);
    frame.text(1, 0, first.as_str());
    let second = format_checkpoint_line(
        track.checkpoint_display(),
        track.checkpoint_count(),
        quit_hint,
    );
    frame.text(1, 1, second.as_str());
}

} // verus!
