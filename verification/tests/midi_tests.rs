use wadmus::midi::{build_timeline, format_duration, Msg, Score, TrackEvent, TrackKind, Timed};

fn ev(delta: u32, msg: Msg) -> TrackEvent {
    TrackEvent { delta, kind: TrackKind::Event(msg) }
}

fn end() -> TrackEvent {
    TrackEvent { delta: 0, kind: TrackKind::EndOfTrack }
}

#[test]
fn timestamps_are_non_decreasing_and_last_matches() {
    // Two tracks with interleaved times: the merged timeline is sorted and
    // its recorded last timestamp equals the final event's timestamp.
    let score = Score {
        ppq: 100,
        tracks: vec![
            vec![
                ev(0, Msg::Tempo(1_000_000)),
                ev(50, Msg::NoteOn(0, 60, 100)),
                ev(50, Msg::NoteOff(0, 60, 0)),
                end(),
            ],
            vec![ev(25, Msg::NoteOn(1, 40, 90)), ev(100, Msg::NoteOff(1, 40, 0)), end()],
        ],
    };
    let tl = build_timeline(&score);
    for w in tl.events.windows(2) {
        assert!(w[0].t_us <= w[1].t_us);
    }
    assert_eq!(tl.last_t_us, tl.events.last().unwrap().t_us);
    assert_eq!(tl.last_t_us, 1_250_000); // 125 ticks at 10,000 us per tick
    assert_eq!(tl.events.len(), 5);
}

#[test]
fn ticks_convert_through_the_current_tempo() {
    // At 100 ppq and 1,000,000 us/qn, one tick is 10,000 us. A tempo event
    // applies to the events after it, not retroactively.
    let score = Score {
        ppq: 100,
        tracks: vec![vec![
            ev(0, Msg::Tempo(1_000_000)),
            ev(100, Msg::NoteOn(0, 60, 100)),
            ev(0, Msg::Tempo(500_000)),
            ev(100, Msg::NoteOff(0, 60, 0)),
            end(),
        ]],
    };
    let tl = build_timeline(&score);
    assert_eq!(tl.ppq, 100);
    assert_eq!(tl.initial_us_per_qn, 1_000_000);
    let times: Vec<u64> = tl.events.iter().map(|e| e.t_us).collect();
    // tempo@0, note-on at tick 100 -> 1s, tempo@1s, note-off at tick 200:
    // 200 ticks * 500_000 / 100 = 1s under the new tempo
    assert_eq!(times, vec![0, 1_000_000, 1_000_000, 1_000_000]);
}

#[test]
fn initial_tempo_is_scanned_across_tracks() {
    // No tempo anywhere: the standard 500,000 us/qn seeds every track.
    let score = Score {
        ppq: 100,
        tracks: vec![vec![ev(100, Msg::NoteOn(0, 60, 100)), end()]],
    };
    let tl = build_timeline(&score);
    assert_eq!(tl.initial_us_per_qn, 500_000);
    assert_eq!(tl.events[0].t_us, 500_000);

    // A tempo in a later track seeds the earlier tracks too.
    let score2 = Score {
        ppq: 100,
        tracks: vec![
            vec![ev(100, Msg::NoteOn(0, 60, 100)), end()],
            vec![ev(0, Msg::Tempo(2_000_000)), end()],
        ],
    };
    let tl2 = build_timeline(&score2);
    assert_eq!(tl2.initial_us_per_qn, 2_000_000);
    assert_eq!(tl2.events.iter().find(|e| !matches!(e.msg, Msg::Tempo(_))).unwrap().t_us,
        2_000_000);
}

#[test]
fn zero_velocity_note_start_becomes_note_off() {
    // A note-start with velocity exactly 0 yields a NoteOff, never a
    // NoteOn, in the built timeline.
    let score = Score {
        ppq: 140,
        tracks: vec![vec![ev(0, Msg::NoteOn(3, 72, 0)), end()]],
    };
    let tl = build_timeline(&score);
    assert_eq!(tl.events.len(), 1);
    assert_eq!(tl.events[0].msg, Msg::NoteOff(3, 72, 0));
    assert!(!tl.events.iter().any(|e| matches!(e.msg, Msg::NoteOn(_, _, 0))));
}

#[test]
fn empty_score_builds_an_empty_timeline() {
    let score = Score { ppq: 140, tracks: vec![] };
    let tl = build_timeline(&score);
    assert_eq!(tl.events.len(), 0);
    assert_eq!(tl.last_t_us, 0);
    assert_eq!(tl.initial_us_per_qn, 500_000);

    let score2 = Score { ppq: 0, tracks: vec![vec![end()]] };
    let tl2 = build_timeline(&score2);
    assert_eq!(tl2.ppq, 480); // a zero tick rate falls back to the standard
    assert_eq!(tl2.events.len(), 0);
    assert_eq!(tl2.last_t_us, 0);
}

#[test]
fn aftertouch_events_pass_through() {
    let score = Score {
        ppq: 100,
        tracks: vec![vec![
            ev(0, Msg::AfterTouch(2, 60, 80)),
            ev(0, Msg::ChannelAftertouch(2, 55)),
            ev(0, Msg::Control(2, 7, 99)),
            ev(0, Msg::PitchBend(2, 9000)),
            ev(0, Msg::Program(2, 17)),
            end(),
        ]],
    };
    let tl = build_timeline(&score);
    let msgs: Vec<Msg> = tl.events.iter().map(|e| e.msg).collect();
    assert_eq!(
        msgs,
        vec![
            Msg::AfterTouch(2, 60, 80),
            Msg::ChannelAftertouch(2, 55),
            Msg::Control(2, 7, 99),
            Msg::PitchBend(2, 9000),
            Msg::Program(2, 17),
        ]
    );
}

#[test]
fn merge_is_stable_for_equal_timestamps() {
    // Events with equal timestamps keep their per-track order.
    let score = Score {
        ppq: 100,
        tracks: vec![vec![
            ev(0, Msg::NoteOn(0, 1, 10)),
            ev(0, Msg::NoteOn(0, 2, 10)),
            ev(0, Msg::NoteOn(0, 3, 10)),
            end(),
        ]],
    };
    let tl = build_timeline(&score);
    let keys: Vec<u8> = tl
        .events
        .iter()
        .map(|e| match e.msg {
            Msg::NoteOn(_, k, _) => k,
            _ => 0,
        })
        .collect();
    assert_eq!(keys, vec![1, 2, 3]);
}

#[test]
fn durations_format_as_minutes_and_seconds() {
    assert_eq!(format_duration(0), "00:00");
    assert_eq!(format_duration(999_999), "00:00");
    assert_eq!(format_duration(1_000_000), "00:01");
    assert_eq!(format_duration(65_000_000), "01:05");
    assert_eq!(format_duration(600_000_000), "10:00");
    assert_eq!(format_duration(3_599_000_000), "59:59");
    assert_eq!(format_duration(6_000_000_000), "100:00");

    let t = Timed { t_us: 65_000_000, msg: Msg::NoteOff(0, 0, 0) };
    assert_eq!(format_duration(t.t_us), "01:05");
}
