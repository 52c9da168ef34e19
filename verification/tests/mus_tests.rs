use wadmus::midi::{build_timeline, Msg, TrackEvent, TrackKind};
use wadmus::mus::{map_channel, map_controller, mus_to_smf, read_var_time, MusError};

/// Wrap a MUS score in a minimal 16-byte header declaring it at offset 16.
fn make_mus(score: &[u8]) -> Vec<u8> {
    let score_len = score.len() as u16;
    let score_start = 16u16;
    let mut mus = vec![
        b'M',
        b'U',
        b'S',
        0x1A, // magic
        score_len as u8,
        (score_len >> 8) as u8, // score_len (LE)
        score_start as u8,
        (score_start >> 8) as u8, // score_start (LE)
    ];
    mus.extend_from_slice(&[0; 8]); // pad header to 16 bytes
    mus.extend_from_slice(score); // score at offset 16
    mus
}

#[test]
fn test_valid_mus_to_midi_conversion() {
    // Minimal valid MUS lump: header + one note on + end.
    // Score: Play note event (type=1, ch=0), key=60; End of score (type=6).
    let mus = make_mus(&[0x10, 60, 0x60]);

    let smf = mus_to_smf(&mus).expect("Should convert valid MUS lump");
    assert_eq!(smf.ppq, 140);
    assert_eq!(smf.tracks.len(), 1);
    let events = &smf.tracks[0];
    // Should contain at least: Tempo, NoteOn, EndOfTrack.
    assert!(events
        .iter()
        .any(|e| matches!(e.kind, TrackKind::Event(Msg::Tempo(_)))));
    assert!(events
        .iter()
        .any(|e| matches!(e.kind, TrackKind::Event(Msg::NoteOn(..)))));
    assert!(events.iter().any(|e| matches!(e.kind, TrackKind::EndOfTrack)));
}

#[test]
fn minimal_blob_round_trip() {
    // The 3-byte score [play-note ch0 key60 (no explicit velocity),
    // end-of-score] decodes to exactly one synthetic tempo event, one
    // NoteOn(0, 60, default velocity), and one end-of-track marker; the
    // timeline built from it holds exactly one non-tempo event, at
    // timestamp 0.
    let mus = make_mus(&[0x10, 60, 0x60]);
    let smf = mus_to_smf(&mus).unwrap();
    assert_eq!(
        smf.tracks[0],
        vec![
            TrackEvent { delta: 0, kind: TrackKind::Event(Msg::Tempo(1_000_000)) },
            TrackEvent { delta: 0, kind: TrackKind::Event(Msg::NoteOn(0, 60, 127)) },
            TrackEvent { delta: 0, kind: TrackKind::EndOfTrack },
        ]
    );

    let tl = build_timeline(&smf);
    let non_tempo: Vec<_> = tl
        .events
        .iter()
        .filter(|e| !matches!(e.msg, Msg::Tempo(_)))
        .collect();
    assert_eq!(non_tempo.len(), 1);
    assert_eq!(non_tempo[0].t_us, 0);
    assert_eq!(non_tempo[0].msg, Msg::NoteOn(0, 60, 127));
}

#[test]
fn bad_magic_is_rejected() {
    let err = mus_to_smf(b"NOT!\0\0\0\0\0\0\0\0\0\0\0\0").unwrap_err();
    assert_eq!(err, MusError::NotAMus);
    assert_eq!(mus_to_smf(b"MUS").unwrap_err(), MusError::NotAMus);
}

#[test]
fn out_of_bounds_score_is_rejected() {
    // Declared score length runs past the end of the input.
    let mut mus = make_mus(&[0x10, 60, 0x60]);
    mus[4] = 200; // claim a 200-byte score
    assert_eq!(mus_to_smf(&mus).unwrap_err(), MusError::ScoreOutOfBounds);
}

#[test]
fn explicit_zero_velocity_stays_zero_in_the_track() {
    // Play note with the velocity flag set (key byte top bit) and an
    // explicit velocity of 0.
    let mus = make_mus(&[0x10, 60 | 0x80, 0, 0x60]);
    let smf = mus_to_smf(&mus).unwrap();
    assert_eq!(
        smf.tracks[0][1],
        TrackEvent { delta: 0, kind: TrackKind::Event(Msg::NoteOn(0, 60, 0)) }
    );
}

#[test]
fn release_note_and_velocity_memory() {
    // Play note ch0 key 60 explicit velocity 99; play note key 62 without
    // a velocity byte reuses 99; release note key 60.
    let mus = make_mus(&[0x10, 60 | 0x80, 99, 0x10, 62, 0x00, 60, 0x60]);
    let smf = mus_to_smf(&mus).unwrap();
    assert_eq!(
        smf.tracks[0][1..4],
        [
            TrackEvent { delta: 0, kind: TrackKind::Event(Msg::NoteOn(0, 60, 99)) },
            TrackEvent { delta: 0, kind: TrackKind::Event(Msg::NoteOn(0, 62, 99)) },
            TrackEvent { delta: 0, kind: TrackKind::Event(Msg::NoteOff(0, 60, 0)) },
        ]
    );
}

#[test]
fn time_deltas_attach_to_the_next_event() {
    // Play note with the delta flag set, a 5-tick delta, then another play
    // note: the delta belongs to the second note.
    let mus = make_mus(&[0x90, 60, 5, 0x10, 61, 0x60]);
    let smf = mus_to_smf(&mus).unwrap();
    assert_eq!(
        smf.tracks[0][1..3],
        [
            TrackEvent { delta: 0, kind: TrackKind::Event(Msg::NoteOn(0, 60, 127)) },
            TrackEvent { delta: 5, kind: TrackKind::Event(Msg::NoteOn(0, 61, 127)) },
        ]
    );
}

#[test]
fn truncated_tail_keeps_the_decoded_head() {
    // The stream ends in the middle of a play-note instruction: the events
    // decoded so far are kept.
    let mus = make_mus(&[0x10, 60, 0x10]);
    let smf = mus_to_smf(&mus).unwrap();
    assert_eq!(smf.tracks[0].len(), 3); // tempo, the first note, end marker
    assert_eq!(
        smf.tracks[0][1],
        TrackEvent { delta: 0, kind: TrackKind::Event(Msg::NoteOn(0, 60, 127)) }
    );
}

#[test]
fn pitch_wheel_rescales_to_14_bits() {
    let mus = make_mus(&[0x20, 128, 0x20, 0, 0x20, 255, 0x60]);
    let smf = mus_to_smf(&mus).unwrap();
    assert_eq!(
        smf.tracks[0][1..4],
        [
            TrackEvent { delta: 0, kind: TrackKind::Event(Msg::PitchBend(0, 8192)) },
            TrackEvent { delta: 0, kind: TrackKind::Event(Msg::PitchBend(0, 0)) },
            TrackEvent { delta: 0, kind: TrackKind::Event(Msg::PitchBend(0, 16320)) },
        ]
    );
}

#[test]
fn controllers_are_remapped_and_unknown_ones_are_skipped() {
    // Controller 3 (volume) maps to 7; controller 0 is a program change;
    // controller 12 is unknown: consumed, no event.
    let mus = make_mus(&[0x40, 3, 100, 0x40, 0, 42, 0x40, 12, 7, 0x60]);
    let smf = mus_to_smf(&mus).unwrap();
    assert_eq!(
        &smf.tracks[0][1..smf.tracks[0].len() - 1],
        [
            TrackEvent { delta: 0, kind: TrackKind::Event(Msg::Control(0, 7, 100)) },
            TrackEvent { delta: 0, kind: TrackKind::Event(Msg::Program(0, 42)) },
        ]
    );
}

#[test]
fn percussion_channel_is_remapped() {
    // MUS channel 15 is drums: mapped to channel 9; channel 9 shifts to 10.
    let mus = make_mus(&[0x1F, 35, 0x19, 40, 0x60]);
    let smf = mus_to_smf(&mus).unwrap();
    assert_eq!(
        smf.tracks[0][1..3],
        [
            TrackEvent { delta: 0, kind: TrackKind::Event(Msg::NoteOn(9, 35, 127)) },
            TrackEvent { delta: 0, kind: TrackKind::Event(Msg::NoteOn(10, 40, 127)) },
        ]
    );
    assert_eq!(map_channel(15), 9);
    assert_eq!(map_channel(9), 10);
    assert_eq!(map_channel(14), 15);
    assert_eq!(map_channel(3), 3);
}

#[test]
fn variable_length_time_values() {
    assert_eq!(read_var_time(&[0x05]), (5, 1));
    assert_eq!(read_var_time(&[0x81, 0x00]), (128, 2));
    assert_eq!(read_var_time(&[0x81, 0x7F]), (255, 2));
    assert_eq!(read_var_time(&[]), (0, 0));
    // no terminator: every byte is consumed
    assert_eq!(read_var_time(&[0x80, 0x80]), (0, 2));
}

#[test]
fn controller_table_matches_the_general_numbering() {
    assert_eq!(map_controller(1), Some(0)); // bank select
    assert_eq!(map_controller(2), Some(1)); // modulation
    assert_eq!(map_controller(3), Some(7)); // volume
    assert_eq!(map_controller(4), Some(10)); // pan
    assert_eq!(map_controller(5), Some(11)); // expression
    assert_eq!(map_controller(6), Some(91)); // reverb
    assert_eq!(map_controller(7), Some(93)); // chorus
    assert_eq!(map_controller(8), Some(64)); // sustain
    assert_eq!(map_controller(9), Some(67)); // soft pedal
    assert_eq!(map_controller(10), Some(120)); // all sounds off
    assert_eq!(map_controller(11), Some(123)); // all notes off
    assert_eq!(map_controller(0), None);
    assert_eq!(map_controller(12), None);
}
