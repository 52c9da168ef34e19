//! The MUS bytecode decoder: a pure function from a compressed-score byte
//! stream to one ordered track of delta-timed generic events.
//!
//! Layout: a 16-byte header (4-byte tag `MUS\x1A`, little-endian score
//! length, little-endian score start offset, reserved padding) followed by
//! the instruction stream at the declared offset. Each instruction byte
//! holds a 3-bit opcode and a 4-bit channel, with the top bit flagging a
//! variable-length time delta after the instruction's payload bytes.
//!
//! Running out of input mid-instruction truncates decoding gracefully: the
//! events already decoded are returned, so a corrupt tail does not discard a
//! valid head.

use vstd::prelude::*;

use crate::midi::{Msg, Score, TrackEvent, TrackKind};
use crate::wad::le16_at;

verus! {

/// Failures of the MUS decoder: a missing magic tag, or a declared score
/// range that falls outside the input bounds.
#[derive(Clone, Copy, Debug, PartialEq, Eq, Structural)]
pub enum MusError {
    /// The input does not begin with the `MUS\x1A` tag.
    NotAMus,
    /// The declared score range runs past the end of the input.
    ScoreOutOfBounds,
}

/// Remap a MUS channel number to the general MIDI numbering: the MUS
/// percussion channel 15 becomes channel 9, and channels 9..=14 shift up by
/// one to make room for it.
pub open spec fn map_channel_spec(ch_mus: u8) -> u8 {
    if ch_mus == 15 {
        9
    } else if ch_mus >= 9 {
        (ch_mus + 1) as u8
    } else {
        ch_mus
    }
}

/// Remap a MUS channel number to the general MIDI numbering.
pub fn map_channel(ch_mus: u8) -> (ch: u8)
    requires
        ch_mus < 16,
    ensures
        ch == map_channel_spec(ch_mus),
{
    if ch_mus == 15 {
        9
    } else if ch_mus >= 9 {
        ch_mus + 1
    } else {
        ch_mus
    }
}

/// The fixed table from MUS controller numbers to generic controller
/// numbers; an unlisted controller decodes to nothing.
pub open spec fn map_controller_spec(c: u8) -> Option<u8> {
    if c == 1 {
        Some(0u8)
    } else if c == 2 {
        Some(1u8)
    } else if c == 3 {
        Some(7u8)
    } else if c == 4 {
        Some(10u8)
    } else if c == 5 {
        Some(11u8)
    } else if c == 6 {
        Some(91u8)
    } else if c == 7 {
        Some(93u8)
    } else if c == 8 {
        Some(64u8)
    } else if c == 9 {
        Some(67u8)
    } else if c == 10 {
        Some(120u8)
    } else if c == 11 {
        Some(123u8)
    } else {
        None
    }
}

/// Remap a MUS controller number to the generic numbering.
pub fn map_controller(c: u8) -> (r: Option<u8>)
    ensures
        r == map_controller_spec(c),
{
    match c {
        1 => Some(0),    // bank select
        2 => Some(1),    // modulation
        3 => Some(7),    // volume
        4 => Some(10),   // pan
        5 => Some(11),   // expression
        6 => Some(91),   // reverb
        7 => Some(93),   // chorus
        8 => Some(64),   // sustain
        9 => Some(67),   // soft pedal
        10 => Some(120), // all sounds off
        11 => Some(123), // all notes off
        _ => None,
    }
}

/// How many bytes the variable-length time value starting at `i` occupies:
/// every byte with the top bit set continues the value, and a byte with the
/// top bit clear (or the end of the input) terminates it.
pub open spec fn var_len(s: Seq<u8>, i: int) -> int
    decreases s.len() - i,
{
    if i < 0 || i >= s.len() {
        0
    } else if s[i] & 0x80 == 0 {
        1
    } else {
        1 + var_len(s, i + 1)
    }
}

/// The variable-length time value starting at `i`: base-128,
/// most-significant-bits-first accumulation of each byte's low 7 bits.
pub open spec fn var_val(s: Seq<u8>, i: int, acc: u32) -> u32
    decreases s.len() - i,
{
    if i < 0 || i >= s.len() {
        acc
    } else {
        let v = (acc << 7) | ((s[i] & 0x7f) as u32);
        if s[i] & 0x80 == 0 {
            v
        } else {
            var_val(s, i + 1, v)
        }
    }
}

/// A variable-length value never runs past the end of the input.
pub proof fn lemma_var_len_bounds(s: Seq<u8>, i: int)
    requires
        0 <= i <= s.len(),
    ensures
        0 <= var_len(s, i),
        i + var_len(s, i) <= s.len(),
    decreases s.len() - i,
{
    if i < s.len() && s[i] & 0x80 != 0 {
        lemma_var_len_bounds(s, i + 1);
    }
}

/// Reading a variable-length value from a suffix of `s` reads the same
/// bytes as reading it in place.
proof fn lemma_var_suffix(s: Seq<u8>, base: int, k: int, acc: u32)
    requires
        0 <= base <= k <= s.len(),
    ensures
        var_len(s.subrange(base, s.len() as int), k - base) == var_len(s, k),
        var_val(s.subrange(base, s.len() as int), k - base, acc) == var_val(s, k, acc),
    decreases s.len() - k,
{
    let sub = s.subrange(base, s.len() as int);
    if k < s.len() {
        assert(sub[k - base] == s[k]);
        if s[k] & 0x80 != 0 {
            lemma_var_suffix(s, base, k + 1, (acc << 7) | ((s[k] & 0x7f) as u32));
        }
    }
}

/// Read a variable-length time value from the start of `bytes`: the decoded
/// value and the number of bytes consumed.
pub fn read_var_time(bytes: &[u8]) -> (r: (u32, usize))
    ensures
        r.0 == var_val(bytes@, 0, 0),
        r.1 == var_len(bytes@, 0),
        r.1 <= bytes@.len(),
{
    let mut val: u32 = 0;
    let mut used: usize = 0;
    while used < bytes.len()
        invariant_except_break
            used <= bytes@.len(),
            var_val(bytes@, 0, 0) == var_val(bytes@, used as int, val),
            var_len(bytes@, 0) == used + var_len(bytes@, used as int),
        ensures
            val == var_val(bytes@, 0, 0),
            used == var_len(bytes@, 0),
            used <= bytes@.len(),
        decreases bytes@.len() - used,
    {
        let b = bytes[used];
        val = (val << 7) | ((b & 0x7f) as u32);
        used = used + 1;
        if b & 0x80 == 0 {
            break;
        }
    }
    (val, used)
}

/// Clamp a velocity byte to the 0-127 range.
pub open spec fn clamp_vel(v: u8) -> u8 {
    if v > 127 {
        127
    } else {
        v
    }
}

/// The 14-bit pitch-bend value of a MUS pitch-wheel byte. The chosen
/// mapping: byte 128 is the center 8192, and each step of the byte moves
/// the bend by 64, so the byte range 0-255 spans 0-16320 of the 0-16383
/// bend range.
pub open spec fn bend14(v: u8) -> u16 {
    (8192 + (v - 128) * 64) as u16
}

/// The outcome of decoding one instruction's opcode and payload at `i`
/// (opcode 6, end-of-score, is handled by the caller): whether the payload
/// was complete, the message emitted (if any), the next position, the new
/// per-channel velocities, and the new pending delta.
pub open spec fn mus_arm(s: Seq<u8>, i: int, vel: Seq<u8>, pending: u32) -> (
    bool,
    Option<Msg>,
    int,
    Seq<u8>,
    u32,
) {
    let ev = s[i];
    let ty = (ev >> 4) & 0x07;
    let ch_mus = ev & 0x0f;
    let ch = map_channel_spec(ch_mus);
    if ty == 0 {
        // release note: one key byte, velocity implicitly 0
        if i + 1 < s.len() {
            (true, Some(Msg::NoteOff(ch, s[i + 1] & 0x7f, 0)), i + 2, vel, 0u32)
        } else {
            (false, None, i, vel, pending)
        }
    } else if ty == 1 {
        // play note: key byte whose top bit flags an explicit velocity byte
        if i + 1 < s.len() {
            let keyb = s[i + 1];
            if keyb & 0x80 != 0 {
                if i + 2 < s.len() {
                    let v = s[i + 2];
                    (
                        true,
                        Some(Msg::NoteOn(ch, keyb & 0x7f, clamp_vel(v))),
                        i + 3,
                        vel.update(ch_mus as int, v),
                        0u32,
                    )
                } else {
                    (false, None, i, vel, pending)
                }
            } else {
                (true, Some(Msg::NoteOn(ch, keyb, clamp_vel(vel[ch_mus as int]))), i + 2, vel, 0u32)
            }
        } else {
            (false, None, i, vel, pending)
        }
    } else if ty == 2 {
        // pitch wheel: one byte rescaled into the 14-bit bend range
        if i + 1 < s.len() {
            (true, Some(Msg::PitchBend(ch, bend14(s[i + 1]))), i + 2, vel, 0u32)
        } else {
            (false, None, i, vel, pending)
        }
    } else if ty == 3 {
        // system event: one opaque byte, consumed to keep alignment
        if i + 1 < s.len() {
            (true, None, i + 2, vel, pending)
        } else {
            (false, None, i, vel, pending)
        }
    } else if ty == 4 {
        // controller change: controller id byte, then value byte
        if i + 1 < s.len() {
            let ctrl = s[i + 1];
            if i + 2 < s.len() {
                let val = s[i + 2] & 0x7f;
                if ctrl == 0 {
                    // controller 0 is a program change
                    (true, Some(Msg::Program(ch, val)), i + 3, vel, 0u32)
                } else {
                    match map_controller_spec(ctrl) {
                        Some(cc) => (true, Some(Msg::Control(ch, cc, val)), i + 3, vel, 0u32),
                        None => (true, None, i + 3, vel, 0u32),
                    }
                }
            } else {
                (false, None, i, vel, pending)
            }
        } else {
            (false, None, i, vel, pending)
        }
    } else if ty == 5 {
        // measure end: no payload, no event
        (true, None, i + 1, vel, pending)
    } else {
        // ty == 7: reserved, one opaque byte consumed for alignment
        if i + 1 < s.len() {
            (true, None, i + 2, vel, pending)
        } else {
            (false, None, i, vel, pending)
        }
    }
}

/// The events decoded from the instruction stream `s` starting at `i`,
/// given the remembered per-channel velocities and the pending time delta.
/// End-of-score stops decoding; a truncated payload stops decoding
/// gracefully; otherwise the instruction's event (if any) carries the
/// pending delta, and a flagged time value adds (saturating) to the delta
/// of the next event.
pub open spec fn mus_events(s: Seq<u8>, i: int, vel: Seq<u8>, pending: u32) -> Seq<TrackEvent>
    decreases s.len() - i,
    via mus_events_dec
{
    if i < 0 || i >= s.len() {
        Seq::empty()
    } else {
        let ev = s[i];
        let ty = (ev >> 4) & 0x07;
        if ty == 6 {
            // end of score: discard any unread trailing bytes
            Seq::empty()
        } else {
            let arm = mus_arm(s, i, vel, pending);
            if !arm.0 {
                Seq::empty()
            } else {
                let emitted = match arm.1 {
                    Some(m) => seq![TrackEvent { delta: pending, kind: TrackKind::Event(m) }],
                    None => Seq::empty(),
                };
                let has_delta = ev & 0x80 != 0;
                let i3 = if has_delta {
                    arm.2 + var_len(s, arm.2)
                } else {
                    arm.2
                };
                let pending3 = if has_delta {
                    arm.4.saturating_add(var_val(s, arm.2, 0))
                } else {
                    arm.4
                };
                emitted + mus_events(s, i3, arm.3, pending3)
            }
        }
    }
}

#[via_fn]
proof fn mus_events_dec(s: Seq<u8>, i: int, vel: Seq<u8>, pending: u32) {
    if 0 <= i < s.len() {
        let arm = mus_arm(s, i, vel, pending);
        if arm.0 {
            lemma_var_len_bounds(s, arm.2);
        }
    }
}

/// The `MUS\x1A` tag bytes.
pub open spec fn mus_tag() -> Seq<u8> {
    seq![77u8, 85u8, 83u8, 26u8]
}

/// The input is at least a full header and begins with the MUS tag.
pub open spec fn mus_tag_ok(d: Seq<u8>) -> bool {
    d.len() >= 16 && d.subrange(0, 4) == mus_tag()
}

/// The declared score length.
pub open spec fn mus_score_len(d: Seq<u8>) -> u16 {
    le16_at(d, 4)
}

/// The declared score start offset.
pub open spec fn mus_score_start(d: Seq<u8>) -> u16 {
    le16_at(d, 6)
}

/// The declared score range lies inside the input.
pub open spec fn mus_bounds_ok(d: Seq<u8>) -> bool {
    mus_score_start(d) + mus_score_len(d) <= d.len()
}

/// The instruction stream: the declared byte range of the input.
pub open spec fn mus_stream(d: Seq<u8>) -> Seq<u8> {
    d.subrange(mus_score_start(d) as int, mus_score_start(d) + mus_score_len(d))
}

/// The remembered velocity of every channel before any note has played.
pub open spec fn init_velocities() -> Seq<u8> {
    Seq::new(16, |i: int| 127u8)
}

/// The decoder's whole output for an instruction stream: one synthetic
/// tempo event at time zero (1,000,000 microseconds per quarter note, so
/// the fixed 140 ticks-per-quarter-note rate plays at the conventional MUS
/// speed), the decoded events, and one end-of-track marker.
pub open spec fn decoded_track(stream: Seq<u8>) -> Seq<TrackEvent> {
    seq![TrackEvent { delta: 0u32, kind: TrackKind::Event(Msg::Tempo(1000000)) }] + mus_events(
        stream,
        0,
        init_velocities(),
        0,
    ) + seq![TrackEvent { delta: 0u32, kind: TrackKind::EndOfTrack }]
}

/// Read a little-endian 16-bit value from `d` at offset `at`.
fn read_u16(d: &[u8], at: usize) -> (r: u16)
    requires
        at + 2 <= d@.len(),
    ensures
        r == le16_at(d@, at as int),
{
    (d[at] as u16) + 256 * (d[at + 1] as u16)
}

/// Decode a MUS byte stream into a single-track score at 140 pulses per
/// quarter note. Fails only on a missing tag or an out-of-bounds declared
/// score range; a stream that ends mid-instruction yields the events
/// decoded so far.
pub fn mus_to_smf(mus: &[u8]) -> (r: Result<Score, MusError>)
    ensures
        !mus_tag_ok(mus@) ==> (r matches Err(e) && e == MusError::NotAMus),
        mus_tag_ok(mus@) && !mus_bounds_ok(mus@) ==> (r matches Err(e) && e
            == MusError::ScoreOutOfBounds),
        mus_tag_ok(mus@) && mus_bounds_ok(mus@) ==> (r matches Ok(sc) && sc.ppq == 140
            && sc.tracks@.len() == 1 && sc.tracks@[0]@ == decoded_track(mus_stream(mus@))),
{
    if mus.len() < 16 {
        return Err(MusError::NotAMus);
    }
    let tag_ok = mus[0] == 77 && mus[1] == 85 && mus[2] == 83 && mus[3] == 26;
    proof {
        if mus@[0] == 77 && mus@[1] == 85 && mus@[2] == 83 && mus@[3] == 26 {
            assert(mus@.subrange(0, 4) =~= mus_tag());
        }
        if mus@.subrange(0, 4) == mus_tag() {
            assert(mus@[0] == mus@.subrange(0, 4)[0]);
            assert(mus@[1] == mus@.subrange(0, 4)[1]);
            assert(mus@[2] == mus@.subrange(0, 4)[2]);
            assert(mus@[3] == mus@.subrange(0, 4)[3]);
        }
    }
    if !tag_ok {
        return Err(MusError::NotAMus);
    }
    let score_len = read_u16(mus, 4);
    let score_start = read_u16(mus, 6);
    let end = score_start as usize + score_len as usize;
    if end > mus.len() {
        return Err(MusError::ScoreOutOfBounds);
    }
    let stream = vstd::slice::slice_subrange(mus, score_start as usize, end);
    let ghost s = stream@;
    assert(s == mus_stream(mus@));

    let mut track: Vec<TrackEvent> = Vec::new();
    track.push(TrackEvent { delta: 0, kind: TrackKind::Event(Msg::Tempo(1_000_000)) });
    let mut last_vel: Vec<u8> = vec![127, 127, 127, 127, 127, 127, 127, 127, 127, 127, 127, 127,
        127, 127, 127, 127];
    assert(last_vel@ =~= init_velocities());
    let mut i: usize = 0;
    let mut pending: u32 = 0;
    let ghost tempo_item = TrackEvent { delta: 0u32, kind: TrackKind::Event(Msg::Tempo(1000000)) };
    assert(track@ =~= seq![tempo_item]);

    while i < stream.len()
        invariant_except_break
            stream@ == s,
            i <= s.len(),
            last_vel@.len() == 16,
            seq![tempo_item] + mus_events(s, 0, init_velocities(), 0) == track@ + mus_events(
                s,
                i as int,
                last_vel@,
                pending,
            ),
        ensures
            track@ == seq![tempo_item] + mus_events(s, 0, init_velocities(), 0),
        decreases s.len() - i,
    {
        let ghost old_track = track@;
        let ghost old_vel = last_vel@;
        let ghost old_pending = pending;
        let at = i;
        let ev = stream[at];
        let ty = (ev >> 4) & 0x07;
        let ch_mus = ev & 0x0f;
        assert(ch_mus < 16) by (bit_vector)
            requires
                ch_mus == ev & 0x0f,
        ;
        let ch = map_channel(ch_mus);

        if ty == 6 {
            // end of score
            proof {
                assert(mus_events(s, at as int, old_vel, old_pending) =~= Seq::empty());
                assert(old_track + Seq::<TrackEvent>::empty() =~= old_track);
            }
            break;
        }
        // decode the payload of this instruction
        let mut truncated = false;
        let mut arm_emit: Option<Msg> = None;
        let mut arm_i2: usize = at;
        let mut arm_pending2: u32 = pending;
        if ty == 0 {
            if at + 1 < stream.len() {
                arm_emit = Some(Msg::NoteOff(ch, stream[at + 1] & 0x7f, 0));
                arm_i2 = at + 2;
                arm_pending2 = 0;
            } else {
                truncated = true;
            }
        } else if ty == 1 {
            if at + 1 < stream.len() {
                let keyb = stream[at + 1];
                if keyb & 0x80 != 0 {
                    if at + 2 < stream.len() {
                        let v = stream[at + 2];
                        let vc = if v > 127 {
                            127
                        } else {
                            v
                        };
                        arm_emit = Some(Msg::NoteOn(ch, keyb & 0x7f, vc));
                        arm_i2 = at + 3;
                        arm_pending2 = 0;
                        last_vel[ch_mus as usize] = v;
                    } else {
                        truncated = true;
                    }
                } else {
                    let v = last_vel[ch_mus as usize];
                    let vc = if v > 127 {
                        127
                    } else {
                        v
                    };
                    arm_emit = Some(Msg::NoteOn(ch, keyb, vc));
                    arm_i2 = at + 2;
                    arm_pending2 = 0;
                }
            } else {
                truncated = true;
            }
        } else if ty == 2 {
            if at + 1 < stream.len() {
                let v = stream[at + 1];
                let c = (v as i32) - 128;
                let b32 = 8192 + c * 64;
                assert(0 <= b32 <= 16320);
                arm_emit = Some(Msg::PitchBend(ch, b32 as u16));
                assert(b32 as u16 == bend14(v));
                arm_i2 = at + 2;
                arm_pending2 = 0;
            } else {
                truncated = true;
            }
        } else if ty == 3 {
            if at + 1 < stream.len() {
                arm_i2 = at + 2;
            } else {
                truncated = true;
            }
        } else if ty == 4 {
            if at + 1 < stream.len() {
                let ctrl = stream[at + 1];
                if at + 2 < stream.len() {
                    let val = stream[at + 2] & 0x7f;
                    if ctrl == 0 {
                        arm_emit = Some(Msg::Program(ch, val));
                    } else {
                        match map_controller(ctrl) {
                            Some(cc) => {
                                arm_emit = Some(Msg::Control(ch, cc, val));
                            },
                            None => {},
                        }
                    }
                    arm_i2 = at + 3;
                    arm_pending2 = 0;
                } else {
                    truncated = true;
                }
            } else {
                truncated = true;
            }
        } else if ty == 5 {
            arm_i2 = at + 1;
        } else {
            // ty == 7 (3-bit opcodes leave no other value)
            assert(ty == 7) by (bit_vector)
                requires
                    ty == (ev >> 4) & 0x07 && ty != 0 && ty != 1 && ty != 2 && ty != 3 && ty != 4
                        && ty != 5 && ty != 6,
            ;
            if at + 1 < stream.len() {
                arm_i2 = at + 2;
            } else {
                truncated = true;
            }
        }

        if truncated {
            proof {
                assert(!mus_arm(s, at as int, old_vel, old_pending).0);
                assert(mus_events(s, at as int, old_vel, old_pending) =~= Seq::empty());
                assert(old_track + Seq::<TrackEvent>::empty() =~= old_track);
            }
            break;
        }
        proof {
            let arm = mus_arm(s, at as int, old_vel, old_pending);
            assert(arm.0);
            assert(arm.1 == arm_emit);
            assert(arm.2 == arm_i2 as int);
            assert(arm.3 == last_vel@);
            assert(arm.4 == arm_pending2);
        }

        // emit the instruction's event with the accumulated delta
        match arm_emit {
            Some(m) => {
                track.push(TrackEvent { delta: pending, kind: TrackKind::Event(m) });
                assert(track@ =~= old_track + seq![
                    TrackEvent { delta: old_pending, kind: TrackKind::Event(m) },
                ]);
            },
            None => {},
        }
        i = arm_i2;
        pending = arm_pending2;

        // a flagged time value follows the payload and delays the next event
        if ev & 0x80 != 0 {
            let tail = vstd::slice::slice_subrange(stream, i, stream.len());
            let (d, used) = read_var_time(tail);
            proof {
                lemma_var_len_bounds(s, i as int);
                lemma_var_suffix(s, i as int, i as int, 0);
            }
            i = i + used;
            pending = pending.saturating_add(d);
        }

        proof {
            let emitted = match arm_emit {
                Some(m) => seq![TrackEvent { delta: old_pending, kind: TrackKind::Event(m) }],
                None => Seq::<TrackEvent>::empty(),
            };
            assert(mus_events(s, at as int, old_vel, old_pending) == emitted + mus_events(
                s,
                i as int,
                last_vel@,
                pending,
            ));
            assert(track@ == old_track + emitted);
            assert(old_track + (emitted + mus_events(s, i as int, last_vel@, pending)) =~= (
            old_track + emitted) + mus_events(s, i as int, last_vel@, pending));
        }
    }

    track.push(TrackEvent { delta: 0, kind: TrackKind::EndOfTrack });
    proof {
        assert(track@ =~= decoded_track(s));
    }
    let mut tracks: Vec<Vec<TrackEvent>> = Vec::new();
    tracks.push(track);
    Ok(Score { ppq: 140, tracks })
}

} // verus!
