//! The generic music event model and the timeline builder: normalized
//! channel messages, delta-timed track events, and the conversion of
//! multi-track tick-based scores into one chronologically ordered list of
//! absolute-microsecond events.

use vstd::prelude::*;

use crate::ascii::ascii_bytes_to_string;

verus! {

broadcast use vstd::seq_lib::group_to_multiset_ensures;

/// A normalized channel message used by the playback engine.
#[derive(Clone, Copy, Debug, PartialEq, Eq, Structural)]
pub enum Msg {
    /// Start playing a note: (channel, key, velocity).
    NoteOn(u8, u8, u8),
    /// Stop playing a note: (channel, key, velocity).
    NoteOff(u8, u8, u8),
    /// Change instrument program on a channel.
    Program(u8, u8),
    /// Generic controller change: (channel, controller number, value).
    Control(u8, u8, u8),
    /// Pitch bend wheel: (channel, bend value 0-16383, center 8192).
    PitchBend(u8, u16),
    /// Per-note aftertouch pressure.
    AfterTouch(u8, u8, u8),
    /// Channel-wide aftertouch pressure.
    ChannelAftertouch(u8, u8),
    /// Tempo change in microseconds per quarter note.
    Tempo(u32),
}

/// One delta-timed event of a track: the number of ticks since the previous
/// event of the same track, and what happens then.
#[derive(Clone, Copy, Debug, PartialEq, Eq, Structural)]
pub struct TrackEvent {
    /// Ticks since the previous event in this track.
    pub delta: u32,
    /// What the event does.
    pub kind: TrackKind,
}

/// What a track event does: carry a channel message (or a tempo change), or
/// mark the end of the track.
#[derive(Clone, Copy, Debug, PartialEq, Eq, Structural)]
pub enum TrackKind {
    /// A channel message or tempo change.
    Event(Msg),
    /// The end-of-track marker.
    EndOfTrack,
}

/// A decoded score: the tick rate and the delta-timed event tracks.
#[derive(Debug)]
pub struct Score {
    /// Pulses (ticks) per quarter note.
    pub ppq: u16,
    /// The event tracks.
    pub tracks: Vec<Vec<TrackEvent>>,
}

/// A channel message tied to an absolute time in microseconds.
#[derive(Clone, Copy, Debug, PartialEq, Eq, Structural)]
pub struct Timed {
    /// Absolute time in microseconds.
    pub t_us: u64,
    /// The message.
    pub msg: Msg,
}

/// The full built timeline: all events from all tracks ordered by time,
/// plus the header metadata they were built from.
#[derive(Debug)]
pub struct Timeline {
    /// All events from all tracks, ordered by time.
    pub events: Vec<Timed>,
    /// Time of the last event (in microseconds).
    pub last_t_us: u64,
    /// Pulses per quarter note used for the conversion.
    pub ppq: u16,
    /// The initial tempo (microseconds per quarter note).
    pub initial_us_per_qn: u32,
}

/// The tick rate used for conversion: the header's rate, or the standard
/// 480 pulses per quarter note when the header declares none.
pub open spec fn effective_ppq(p: u16) -> u16 {
    if p == 0 {
        480
    } else {
        p
    }
}

/// Convert an absolute tick count to absolute microseconds at the given
/// tempo: `ticks / ppq` quarter notes, each `tempo` microseconds long,
/// saturating at the top of the 64-bit range.
pub open spec fn tick_time(ticks: u64, tempo: u32, ppq: u16) -> u64
    recommends
        ppq > 0,
{
    let t = (ticks * tempo) / (ppq as int);
    if t > u64::MAX {
        u64::MAX
    } else {
        t as u64
    }
}

/// Convert an absolute tick count to absolute microseconds.
fn tick_time_exec(ticks: u64, tempo: u32, ppq: u16) -> (r: u64)
    requires
        ppq > 0,
    ensures
        r == tick_time(ticks, tempo, ppq),
{
    assert((ticks as int) * (tempo as int) <= (u64::MAX as int) * (u32::MAX as int))
        by (nonlinear_arith)
        requires
            ticks <= u64::MAX && tempo <= u32::MAX,
    ;
    let prod = (ticks as u128) * (tempo as u128);
    let q = prod / (ppq as u128);
    if q > u64::MAX as u128 {
        u64::MAX
    } else {
        q as u64
    }
}

/// The timed events of one track from position `j` on: deltas accumulate
/// (saturating) into an absolute tick counter, each event is stamped with
/// the microsecond value of its ticks under the track's current tempo, a
/// tempo event updates the tempo for the events after it, a note-start with
/// velocity zero becomes a note-stop, and the end-of-track marker produces
/// nothing.
pub open spec fn convert_from(
    evs: Seq<TrackEvent>,
    j: int,
    ppq: u16,
    tempo: u32,
    ticks: u64,
) -> Seq<Timed>
    decreases evs.len() - j,
{
    if j < 0 || j >= evs.len() {
        Seq::empty()
    } else {
        let e = evs[j];
        let t2 = ticks.saturating_add(e.delta as u64);
        let t_us = tick_time(t2, tempo, ppq);
        match e.kind {
            TrackKind::Event(m) => match m {
                Msg::Tempo(tp) => seq![Timed { t_us, msg: Msg::Tempo(tp) }] + convert_from(
                    evs,
                    j + 1,
                    ppq,
                    tp,
                    t2,
                ),
                Msg::NoteOn(ch, k, v) => (if v == 0 {
                    seq![Timed { t_us, msg: Msg::NoteOff(ch, k, 0) }]
                } else {
                    seq![Timed { t_us, msg: Msg::NoteOn(ch, k, v) }]
                }) + convert_from(evs, j + 1, ppq, tempo, t2),
                _ => seq![Timed { t_us, msg: m }] + convert_from(evs, j + 1, ppq, tempo, t2),
            },
            TrackKind::EndOfTrack => convert_from(evs, j + 1, ppq, tempo, t2),
        }
    }
}

/// The timed events of one whole track.
pub open spec fn track_events(evs: Seq<TrackEvent>, ppq: u16, tempo0: u32) -> Seq<Timed> {
    convert_from(evs, 0, ppq, tempo0, 0)
}

/// The first tempo event of a track at or after `j`.
pub open spec fn first_tempo_in(evs: Seq<TrackEvent>, j: int) -> Option<u32>
    decreases evs.len() - j,
{
    if j < 0 || j >= evs.len() {
        None
    } else {
        match evs[j].kind {
            TrackKind::Event(Msg::Tempo(tp)) => Some(tp),
            _ => first_tempo_in(evs, j + 1),
        }
    }
}

/// The first tempo event of any track, scanning the tracks in order.
pub open spec fn scan_tempo(tracks: Seq<Vec<TrackEvent>>, k: int) -> Option<u32>
    decreases tracks.len() - k,
{
    if k < 0 || k >= tracks.len() {
        None
    } else {
        match first_tempo_in(tracks[k]@, 0) {
            Some(tp) => Some(tp),
            None => scan_tempo(tracks, k + 1),
        }
    }
}

/// The tempo every track is seeded with: the first tempo event found in any
/// track, or the standard 500,000 microseconds per quarter note (120 beats
/// per minute) when none exists.
pub open spec fn initial_tempo(tracks: Seq<Vec<TrackEvent>>) -> u32 {
    match scan_tempo(tracks, 0) {
        Some(tp) => tp,
        None => 500000,
    }
}

/// All tracks' timed events, track by track, before merging.
pub open spec fn tracks_events(tracks: Seq<Vec<TrackEvent>>, ppq: u16, tempo0: u32) -> Seq<Timed>
    decreases tracks.len(),
{
    if tracks.len() == 0 {
        Seq::empty()
    } else {
        tracks_events(tracks.drop_last(), ppq, tempo0) + track_events(
            tracks.last()@,
            ppq,
            tempo0,
        )
    }
}

/// Timestamps are non-decreasing.
pub open spec fn sorted_by_time(s: Seq<Timed>) -> bool {
    forall|i: int, j: int| 0 <= i < j < s.len() ==> s[i].t_us <= s[j].t_us
}

/// The first tempo event of one track.
fn first_tempo_track(evs: &Vec<TrackEvent>) -> (r: Option<u32>)
    ensures
        r == first_tempo_in(evs@, 0),
{
    let mut j: usize = 0;
    while j < evs.len()
        invariant
            j <= evs@.len(),
            first_tempo_in(evs@, 0) == first_tempo_in(evs@, j as int),
        decreases evs@.len() - j,
    {
        match evs[j].kind {
            TrackKind::Event(Msg::Tempo(tp)) => {
                return Some(tp);
            },
            _ => {},
        }
        j = j + 1;
    }
    None
}

/// Scan all tracks for the seeding tempo.
fn scan_initial_tempo(tracks: &Vec<Vec<TrackEvent>>) -> (r: u32)
    ensures
        r == initial_tempo(tracks@),
{
    let mut k: usize = 0;
    while k < tracks.len()
        invariant
            k <= tracks@.len(),
            scan_tempo(tracks@, 0) == scan_tempo(tracks@, k as int),
        decreases tracks@.len() - k,
    {
        match first_tempo_track(&tracks[k]) {
            Some(tp) => {
                return tp;
            },
            None => {},
        }
        k = k + 1;
    }
    500_000
}

/// Convert one track to absolute-microsecond events.
fn convert_track(evs: &Vec<TrackEvent>, ppq: u16, tempo0: u32) -> (r: Vec<Timed>)
    requires
        ppq > 0,
    ensures
        r@ == track_events(evs@, ppq, tempo0),
{
    let mut out: Vec<Timed> = Vec::new();
    let mut tempo: u32 = tempo0;
    let mut ticks: u64 = 0;
    let mut j: usize = 0;
    while j < evs.len()
        invariant
            ppq > 0,
            j <= evs@.len(),
            track_events(evs@, ppq, tempo0) == out@ + convert_from(
                evs@,
                j as int,
                ppq,
                tempo,
                ticks,
            ),
        decreases evs@.len() - j,
    {
        let ghost old_out = out@;
        let ghost old_tempo = tempo;
        let ghost old_ticks = ticks;
        let e = evs[j];
        ticks = ticks.saturating_add(e.delta as u64);
        let t_us = tick_time_exec(ticks, tempo, ppq);
        match e.kind {
            TrackKind::Event(m) => {
                match m {
                    Msg::Tempo(tp) => {
                        tempo = tp;
                        out.push(Timed { t_us, msg: Msg::Tempo(tp) });
                    },
                    Msg::NoteOn(ch, k, v) => {
                        if v == 0 {
                            out.push(Timed { t_us, msg: Msg::NoteOff(ch, k, 0) });
                        } else {
                            out.push(Timed { t_us, msg: Msg::NoteOn(ch, k, v) });
                        }
                    },
                    _ => {
                        out.push(Timed { t_us, msg: m });
                    },
                }
            },
            TrackKind::EndOfTrack => {},
        }
        j = j + 1;
        proof {
            let emitted = out@.skip(old_out.len() as int);
            assert(out@ == old_out + emitted);
            assert(convert_from(evs@, j - 1, ppq, old_tempo, old_ticks) == emitted + convert_from(
                evs@,
                j as int,
                ppq,
                tempo,
                ticks,
            ));
            assert(old_out + (emitted + convert_from(evs@, j as int, ppq, tempo, ticks)) =~= (
            old_out + emitted) + convert_from(evs@, j as int, ppq, tempo, ticks));
        }
    }
    out
}

/// Insert one event into a time-sorted vector, after every event at or
/// before its timestamp, keeping the vector sorted.
fn insert_sorted(out: &mut Vec<Timed>, x: Timed)
    requires
        sorted_by_time(old(out)@),
    ensures
        sorted_by_time(final(out)@),
        final(out)@.to_multiset() == old(out)@.to_multiset().insert(x),
{
    let mut p: usize = 0;
    while p < out.len() && out[p].t_us <= x.t_us
        invariant
            p <= out@.len(),
            out@ == old(out)@,
            forall|a: int| 0 <= a < p ==> out@[a].t_us <= x.t_us,
        decreases out@.len() - p,
    {
        p = p + 1;
    }
    let ghost before = out@;
    out.insert(p, x);
    proof {
        assert(forall|i: int| 0 <= i < p ==> out@[i] == before[i]);
        assert(out@[p as int] == x);
        assert(forall|i: int| p < i < out@.len() ==> out@[i] == before[i - 1]);
        assert forall|a: int, b: int| 0 <= a < b < out@.len() implies out@[a].t_us
            <= out@[b].t_us by {
            if a == p && b > p {
                assert(before[b - 1].t_us >= before[p as int].t_us);
            }
        };
        assert(out@.remove(p as int) =~= before);
        assert(out@.contains(x));
        assert(out@.to_multiset().count(x) > 0);
        assert(before.to_multiset() == out@.to_multiset().remove(x));
        broadcast use vstd::multiset::group_multiset_axioms;

        assert(out@.to_multiset().remove(x).insert(x) =~= out@.to_multiset());
    }
}

/// Sort events by timestamp. The sort is stable: each event is inserted
/// after all events already merged whose timestamp is at or before its own.
fn sort_by_time_vec(v: Vec<Timed>) -> (r: Vec<Timed>)
    ensures
        sorted_by_time(r@),
        r@.to_multiset() == v@.to_multiset(),
{
    let mut out: Vec<Timed> = Vec::new();
    let mut i: usize = 0;
    while i < v.len()
        invariant
            i <= v@.len(),
            sorted_by_time(out@),
            out@.to_multiset() == v@.take(i as int).to_multiset(),
        decreases v@.len() - i,
    {
        insert_sorted(&mut out, v[i]);
        i = i + 1;
        proof {
            assert(v@.take(i as int) =~= v@.take(i - 1).push(v@[i - 1]));
        }
    }
    proof {
        assert(v@.take(v@.len() as int) =~= v@);
    }
    out
}

/// Build a linear timeline from a score: every track is converted
/// independently (all seeded from one scanned initial tempo), and the
/// tracks are merged into one list ordered by timestamp. The merged list is
/// a permutation of the per-track conversions, its timestamps are
/// non-decreasing, and `last_t_us` is the final event's timestamp (zero for
/// an empty score).
pub fn build_timeline(score: &Score) -> (r: Timeline)
    ensures
        r.ppq == effective_ppq(score.ppq),
        r.initial_us_per_qn == initial_tempo(score.tracks@),
        sorted_by_time(r.events@),
        r.events@.to_multiset() == tracks_events(
            score.tracks@,
            effective_ppq(score.ppq),
            initial_tempo(score.tracks@),
        ).to_multiset(),
        r.events@.len() == 0 ==> r.last_t_us == 0,
        r.events@.len() > 0 ==> r.last_t_us == r.events@.last().t_us,
{
    let ppq = if score.ppq == 0 {
        480
    } else {
        score.ppq
    };
    let tempo0 = scan_initial_tempo(&score.tracks);
    let mut all: Vec<Timed> = Vec::new();
    let mut k: usize = 0;
    while k < score.tracks.len()
        invariant
            ppq == effective_ppq(score.ppq),
            ppq > 0,
            tempo0 == initial_tempo(score.tracks@),
            k <= score.tracks@.len(),
            all@ == tracks_events(score.tracks@.take(k as int), ppq, tempo0),
        decreases score.tracks@.len() - k,
    {
        let mut converted = convert_track(&score.tracks[k], ppq, tempo0);
        all.append(&mut converted);
        k = k + 1;
        proof {
            assert(score.tracks@.take(k as int).drop_last() =~= score.tracks@.take(k - 1));
            assert(score.tracks@.take(k as int).last() == score.tracks@[k - 1]);
        }
    }
    proof {
        assert(score.tracks@.take(score.tracks@.len() as int) =~= score.tracks@);
    }
    let events = sort_by_time_vec(all);
    let last_t_us = if events.len() == 0 {
        0
    } else {
        events[events.len() - 1].t_us
    };
    Timeline { events, last_t_us, ppq, initial_us_per_qn: tempo0 }
}

/// The decimal digits of `n` (for `n < 10`, one digit), as ASCII bytes.
pub open spec fn dec_digits(n: int) -> Seq<u8>
    decreases n,
{
    if n < 10 {
        seq![(48 + n) as u8]
    } else {
        dec_digits(n / 10).push((48 + n % 10) as u8)
    }
}

/// Two ASCII digits, for `0 <= n < 100`.
pub open spec fn two_digit(n: int) -> Seq<u8> {
    seq![(48 + n / 10) as u8, (48 + n % 10) as u8]
}

/// The `MM:SS` rendering of a microsecond count: whole minutes (at least
/// two digits), a colon, and two digits of seconds.
pub open spec fn duration_text(us: u64) -> Seq<u8> {
    let total = us as int / 1000000;
    let mins = total / 60;
    let secs = total % 60;
    (if mins < 10 {
        seq![48u8, (48 + mins) as u8]
    } else {
        dec_digits(mins)
    }) + seq![58u8] + two_digit(secs)
}

proof fn lemma_dec_digits_ascii(n: int)
    requires
        n >= 0,
    ensures
        forall|j: int| 0 <= j < dec_digits(n).len() ==> 48 <= #[trigger] dec_digits(n)[j] < 58,
    decreases n,
{
    if n >= 10 {
        lemma_dec_digits_ascii(n / 10);
        assert forall|j: int| 0 <= j < dec_digits(n).len() implies 48 <= #[trigger] dec_digits(
            n,
        )[j] < 58 by {
            if j < dec_digits(n).len() - 1 {
                assert(dec_digits(n)[j] == dec_digits(n / 10)[j]);
            } else {
                assert(dec_digits(n)[j] == (48 + n % 10) as u8);
            }
        };
    }
}

/// Append the decimal digits of `n`.
fn push_dec(out: &mut Vec<u8>, n: u64)
    ensures
        final(out)@ == old(out)@ + dec_digits(n as int),
    decreases n,
{
    if n < 10 {
        out.push(48 + n as u8);
        assert(out@ =~= old(out)@ + dec_digits(n as int));
    } else {
        push_dec(out, n / 10);
        out.push(48 + (n % 10) as u8);
        assert(out@ =~= old(out)@ + dec_digits(n as int));
    }
}

/// Format a microsecond timestamp as an `MM:SS` string.
pub fn format_duration(us: u64) -> (r: String)
    ensures
        vstd::utf8::encode_utf8(r@) == duration_text(us),
        vstd::string::string_is_ascii(&r),
{
    let total = us / 1_000_000;
    let mins = total / 60;
    let secs = total % 60;
    let mut out: Vec<u8> = Vec::new();
    if mins < 10 {
        out.push(48);
        out.push(48 + mins as u8);
    } else {
        push_dec(&mut out, mins);
        proof {
            lemma_dec_digits_ascii(mins as int);
        }
    }
    out.push(58);
    out.push(48 + (secs / 10) as u8);
    out.push(48 + (secs % 10) as u8);
    proof {
        assert(out@ =~= duration_text(us));
    }
    ascii_bytes_to_string(out)
}

/// A note-start message with velocity exactly zero.
pub open spec fn is_note_on_zero(m: Msg) -> bool {
    match m {
        Msg::NoteOn(_, _, v) => v == 0,
        _ => false,
    }
}

proof fn lemma_convert_no_zero_on(evs: Seq<TrackEvent>, j: int, ppq: u16, tempo: u32, ticks: u64)
    ensures
        forall|k: int|
            0 <= k < convert_from(evs, j, ppq, tempo, ticks).len() ==> !is_note_on_zero(
                (#[trigger] convert_from(evs, j, ppq, tempo, ticks)[k]).msg,
            ),
    decreases evs.len() - j,
{
    if 0 <= j < evs.len() {
        let e = evs[j];
        let t2 = ticks.saturating_add(e.delta as u64);
        match e.kind {
            TrackKind::Event(m) => match m {
                Msg::Tempo(tp) => {
                    lemma_convert_no_zero_on(evs, j + 1, ppq, tp, t2);
                },
                _ => {
                    lemma_convert_no_zero_on(evs, j + 1, ppq, tempo, t2);
                },
            },
            TrackKind::EndOfTrack => {
                lemma_convert_no_zero_on(evs, j + 1, ppq, tempo, t2);
            },
        }
    }
}

proof fn lemma_tracks_no_zero_on(tracks: Seq<Vec<TrackEvent>>, ppq: u16, tempo0: u32)
    ensures
        forall|k: int|
            0 <= k < tracks_events(tracks, ppq, tempo0).len() ==> !is_note_on_zero(
                (#[trigger] tracks_events(tracks, ppq, tempo0)[k]).msg,
            ),
    decreases tracks.len(),
{
    if tracks.len() > 0 {
        lemma_tracks_no_zero_on(tracks.drop_last(), ppq, tempo0);
        lemma_convert_no_zero_on(tracks.last()@, 0, ppq, tempo0, 0);
    }
}

/// A note-start with velocity exactly zero never reaches a timeline: every
/// converted track replaces it by a note-stop, and merging (any permutation
/// of the converted events) cannot reintroduce one. Instantiated with what
/// `build_timeline` ensures, this covers every built timeline.
pub proof fn lemma_no_zero_velocity_note_on(
    events: Seq<Timed>,
    tracks: Seq<Vec<TrackEvent>>,
    ppq: u16,
    tempo0: u32,
)
    requires
        events.to_multiset() == tracks_events(tracks, ppq, tempo0).to_multiset(),
    ensures
        forall|k: int| 0 <= k < events.len() ==> !is_note_on_zero((#[trigger] events[k]).msg),
{
    lemma_tracks_no_zero_on(tracks, ppq, tempo0);
    let src = tracks_events(tracks, ppq, tempo0);
    assert forall|k: int| 0 <= k < events.len() implies !is_note_on_zero(events[k].msg) by {
        assert(events.contains(events[k]));
        assert(events.to_multiset().count(events[k]) > 0);
        assert(src.to_multiset().count(events[k]) > 0);
        assert(src.contains(events[k]));
        let m = choose|m: int| 0 <= m < src.len() && src[m] == events[k];
        assert(!is_note_on_zero(src[m].msg));
    };
}

} // verus!
