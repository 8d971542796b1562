//! The event source and the track merge scheduler.
//!
//! A standard MIDI file is parsed with `midly` into at most `MAX_TRACKS`
//! lazy, forward-only track iterators. The scheduler keeps, for each track,
//! its next pending event and the absolute tick of the last event it handed
//! out, and repeatedly hands out the earliest pending event over all tracks,
//! ties going to the lowest track index.
use midly::{EventIter, MidiMessage, TrackEventKind, TrackIter};
use vstd::prelude::*;

verus! {

#[verifier::external_type_specification]
#[verifier::external_body]
pub struct ExEventIter<'a>(midly::EventIter<'a>);

#[verifier::external_type_specification]
#[verifier::external_body]
pub struct ExTrackEvent<'a>(midly::TrackEvent<'a>);

#[verifier::external_type_specification]
#[verifier::external_body]
pub struct ExTrackIter<'a>(midly::TrackIter<'a>);

#[verifier::external_type_specification]
#[verifier::external_body]
pub struct ExMidlyError(midly::Error);

/// The most tracks that the scheduler follows; later tracks are ignored.
pub const MAX_TRACKS: usize = 8;

/// The timing field of a file header.
#[derive(Clone, Copy, Debug, PartialEq, Eq, Structural)]
pub enum Timing {
    /// Ticks per beat.
    Metrical(u16),
    /// Frames per second and ticks per frame.
    Timecode(u8, u8),
}

/// What a track event says, as far as the scheduler reads it.
#[derive(Clone, Copy, Debug, PartialEq, Eq, Structural)]
pub enum TrackMessage {
    NoteOn { channel: u8, key: u8, vel: u8 },
    NoteOff { channel: u8, key: u8 },
    /// Any other event: meta, system exclusive, or another channel message.
    Other,
}

/// One event of a track: the ticks since the previous event of the same
/// track, and the message.
#[derive(Clone, Copy, Debug, PartialEq, Eq, Structural)]
pub struct RawEvent {
    pub delta: u32,
    pub message: TrackMessage,
}

/// A note event as the voice table takes it.
#[derive(Clone, Copy, Debug, PartialEq, Eq, Structural)]
pub enum MidiEvent {
    /// Key and velocity.
    NoteOn(u8, u8),
    /// Key.
    NoteOff(u8),
}

/// What the scheduler has for a given tick.
#[derive(Clone, Copy, Debug, PartialEq, Eq, Structural)]
pub enum NextMidiEvent {
    /// A note event due by the tick, with its channel.
    Event(u8, MidiEvent),
    /// Every track is exhausted.
    Finished,
    /// The earliest pending event lies after the tick.
    Pending,
}

/// Why a file could not be loaded.
#[derive(Clone, Copy, Debug, PartialEq, Eq, Structural)]
pub enum LoadError {
    /// The bytes are not a standard MIDI file.
    Malformed,
}

/// What `midly::parse` reads from `bytes`: the header's timing and the
/// events of each track, or `None` where it fails.
pub uninterp spec fn smf_contents(bytes: Seq<u8>) -> Option<(Timing, Seq<Seq<RawEvent>>)>;

/// The events of the tracks that a track iterator has yet to yield.
pub uninterp spec fn tracks_left(tracks: TrackIter<'static>) -> Seq<Seq<RawEvent>>;

/// The events that an event iterator has yet to yield.
pub uninterp spec fn events_left(events: EventIter<'static>) -> Seq<RawEvent>;

/// Relies on `midly::parse`: reads the header chunk of a standard MIDI file
/// and returns its timing field with an iterator over the track chunks.
#[verifier::external_body]
fn parse_file(bytes: &'static [u8]) -> (r: Result<(Timing, TrackIter<'static>), midly::Error>)
    ensures
        match r {
            Ok((timing, tracks)) => smf_contents(bytes@) == Some((timing, tracks_left(tracks))),
            Err(_) => smf_contents(bytes@) is None,
        },
{
    let (header, tracks) = midly::parse(bytes)?;
    let timing = match header.timing {
        midly::Timing::Metrical(n) => Timing::Metrical(n.as_int()),
        midly::Timing::Timecode(fps, n) => Timing::Timecode(fps.as_int(), n),
    };
    Ok((timing, tracks))
}

/// Relies on `Iterator::next` of `midly::TrackIter`: yields an event
/// iterator over the next track chunk, or nothing once the chunks run out.
/// Built without its `strict` feature, `midly` skips unreadable chunks here
/// instead of yielding an error; an error would end the tracks.
#[verifier::external_body]
fn next_track(tracks: &mut TrackIter<'static>) -> (r: Option<EventIter<'static>>)
    ensures
        match r {
            Some(events) => {
                &&& tracks_left(*old(tracks)).len() > 0
                &&& events_left(events) == tracks_left(*old(tracks))[0]
                &&& tracks_left(*final(tracks)) == tracks_left(*old(tracks)).drop_first()
            },
            None => tracks_left(*old(tracks)).len() == 0,
        },
{
    match tracks.next() {
        Some(Ok(events)) => Some(events),
        _ => None,
    }
}

/// Relies on `Iterator::next` of `midly::EventIter`: parses the next event
/// of a track, or yields nothing at the end of the track. Built without its
/// `strict` feature, `midly` ends a track at its first unreadable event
/// instead of yielding an error; an error would end the track here too.
#[verifier::external_body]
fn next_raw_event(events: &mut EventIter<'static>) -> (r: Option<RawEvent>)
    ensures
        match r {
            Some(e) => {
                &&& events_left(*old(events)).len() > 0
                &&& e == events_left(*old(events))[0]
                &&& events_left(*final(events)) == events_left(*old(events)).drop_first()
            },
            None => events_left(*old(events)).len() == 0,
        },
{
    let ev = match events.next() {
        Some(Ok(ev)) => ev,
        _ => return None,
    };
    let message = match ev.kind {
        TrackEventKind::Midi { channel: c, message: MidiMessage::NoteOn { key, vel } } =>
            TrackMessage::NoteOn { channel: c.as_int(), key: key.as_int(), vel: vel.as_int() },
        TrackEventKind::Midi { channel: c, message: MidiMessage::NoteOff { key, .. } } =>
            TrackMessage::NoteOff { channel: c.as_int(), key: key.as_int() },
        _ => TrackMessage::Other,
    };
    Some(RawEvent { delta: ev.delta.as_int(), message })
}

// ---------------------------------------------------------------------------
// The model: for each track, its pending events with their absolute ticks.

/// A scheduled event: its absolute tick and its message.
pub type Timed = (int, TrackMessage);

/// The events `evs` with absolute ticks, the first delta counted from `start`.
pub open spec fn timed(start: int, evs: Seq<RawEvent>) -> Seq<Timed>
    decreases evs.len(),
{
    if evs.len() == 0 {
        Seq::empty()
    } else {
        let t = start + evs[0].delta;
        seq![(t, evs[0].message)] + timed(t, evs.drop_first())
    }
}

/// Ticks per second given by a header's timing field.
pub open spec fn tick_rate(timing: Timing) -> int {
    match timing {
        Timing::Metrical(n) => n as int,
        Timing::Timecode(fps, n) => fps * n,
    }
}

/// The tick of each track's first pending event.
pub open spec fn heads(s: Seq<Seq<Timed>>) -> Seq<Option<int>> {
    Seq::new(
        s.len(),
        |i: int|
            if s[i].len() > 0 {
                Some(s[i][0].0)
            } else {
                None
            },
    )
}

/// Among the first `n` entries of `d`, the index and tick of the earliest,
/// the lowest index winning a tie.
pub open spec fn earliest_in(d: Seq<Option<int>>, n: int) -> Option<(int, int)>
    decreases n,
{
    if n <= 0 {
        None
    } else {
        let prev = earliest_in(d, n - 1);
        match d[n - 1] {
            None => prev,
            Some(t) => match prev {
                None => Some((n - 1, t)),
                Some((j, u)) => if t < u {
                    Some((n - 1, t))
                } else {
                    prev
                },
            },
        }
    }
}

/// The index and tick of the earliest entry of `d`, the lowest index
/// winning a tie; `None` where every entry is `None`.
pub open spec fn earliest(d: Seq<Option<int>>) -> Option<(int, int)> {
    earliest_in(d, d.len() as int)
}

/// `(tick, track)` pairs ordered by tick, then by track.
pub open spec fn key_le(a: (int, int), b: (int, int)) -> bool {
    a.0 < b.0 || (a.0 == b.0 && a.1 <= b.1)
}

/// Each track's ticks never decrease.
pub open spec fn sorted(s: Seq<Seq<Timed>>) -> bool {
    forall|i: int, m: int, n: int|
        0 <= i < s.len() && 0 <= m <= n < s[i].len() ==> s[i][m].0 <= s[i][n].0
}

/// Every event left in `s` comes at or after `k` in `(tick, track)` order.
pub open spec fn all_after(s: Seq<Seq<Timed>>, k: (int, int)) -> bool {
    forall|i: int, m: int| 0 <= i < s.len() && 0 <= m < s[i].len() ==> key_le(k, (s[i][m].0, i))
}

/// `s` with the earliest event removed.
pub open spec fn pop(s: Seq<Seq<Timed>>) -> Seq<Seq<Timed>> {
    match earliest(heads(s)) {
        None => s,
        Some((j, _)) => s.update(j, s[j].drop_first()),
    }
}

/// The number of events left in `s`.
pub open spec fn total(s: Seq<Seq<Timed>>) -> nat
    decreases s.len(),
{
    if s.len() == 0 {
        0
    } else {
        total(s.drop_last()) + s.last().len()
    }
}

/// The note event a message stands for: a note-on with velocity zero is a
/// note-off; other messages stand for none.
pub open spec fn note_event(m: TrackMessage) -> Option<(u8, MidiEvent)> {
    match m {
        TrackMessage::NoteOn { channel, key, vel } => if vel == 0 {
            Some((channel, MidiEvent::NoteOff(key)))
        } else {
            Some((channel, MidiEvent::NoteOn(key, vel)))
        },
        TrackMessage::NoteOff { channel, key } => Some((channel, MidiEvent::NoteOff(key))),
        TrackMessage::Other => None,
    }
}

/// One step of the scheduler at `tick`: events due by `tick` are taken in
/// order, those that are no note event are skipped, and the first note
/// event is returned with the `(tick, track)` it was due at. Returns the
/// events left, the outcome, and that key (meaningful for an `Event` only).
pub open spec fn advance(s: Seq<Seq<Timed>>, tick: int) -> (Seq<Seq<Timed>>, NextMidiEvent, (
    int,
    int,
))
    decreases total(s),
{
    match earliest(heads(s)) {
        None => (s, NextMidiEvent::Finished, (0, 0)),
        Some((j, t)) => if t > tick {
            (s, NextMidiEvent::Pending, (0, 0))
        } else {
            proof {
                lemma_earliest(heads(s));
                lemma_total_drop_first(s, j);
            }
            match note_event(s[j][0].1) {
                Some((c, e)) => (pop(s), NextMidiEvent::Event(c, e), (t, j)),
                None => advance(pop(s), tick),
            }
        },
    }
}

proof fn lemma_earliest_in(d: Seq<Option<int>>, n: int)
    requires
        0 <= n <= d.len(),
    ensures
        match earliest_in(d, n) {
            None => forall|k: int| 0 <= k < n ==> d[k] is None,
            Some((j, u)) => {
                &&& 0 <= j < n
                &&& d[j] == Some(u)
                &&& forall|k: int|
                    0 <= k < n && #[trigger] d[k] is Some ==> key_le((u, j), (d[k]->0, k))
            },
        },
    decreases n,
{
    if n > 0 {
        lemma_earliest_in(d, n - 1);
    }
}

/// The earliest entry is one of `d`, and comes first in `(tick, index)` order.
pub proof fn lemma_earliest(d: Seq<Option<int>>)
    ensures
        match earliest(d) {
            None => forall|k: int| 0 <= k < d.len() ==> d[k] is None,
            Some((j, u)) => {
                &&& 0 <= j < d.len()
                &&& d[j] == Some(u)
                &&& forall|k: int|
                    0 <= k < d.len() && #[trigger] d[k] is Some ==> key_le((u, j), (d[k]->0, k))
            },
        },
{
    lemma_earliest_in(d, d.len() as int);
}

/// Removing the first event of a non-empty track leaves one event fewer.
pub proof fn lemma_total_drop_first(s: Seq<Seq<Timed>>, j: int)
    requires
        0 <= j < s.len(),
        s[j].len() > 0,
    ensures
        total(s.update(j, s[j].drop_first())) + 1 == total(s),
    decreases s.len(),
{
    let u = s.update(j, s[j].drop_first());
    if j == s.len() - 1 {
        assert(u.drop_last() =~= s.drop_last());
    } else {
        assert(u.drop_last() =~= s.drop_last().update(j, s[j].drop_first()));
        lemma_total_drop_first(s.drop_last(), j);
    }
}

proof fn lemma_timed_cons(start: int, e: RawEvent, rest: Seq<RawEvent>)
    ensures
        timed(start, seq![e] + rest) == seq![(start + e.delta, e.message)] + timed(
            start + e.delta,
            rest,
        ),
{
    assert((seq![e] + rest).drop_first() =~= rest);
}

proof fn lemma_pop_sorted(s: Seq<Seq<Timed>>, j: int)
    requires
        sorted(s),
        0 <= j < s.len(),
        s[j].len() > 0,
    ensures
        sorted(s.update(j, s[j].drop_first())),
{
    let u = s.update(j, s[j].drop_first());
    assert forall|i: int, m: int, n: int|
        0 <= i < u.len() && 0 <= m <= n < u[i].len() implies u[i][m].0 <= u[i][n].0 by {
        if i == j {
            assert(u[i][m] == s[j][m + 1]);
            assert(u[i][n] == s[j][n + 1]);
        }
    }
}

proof fn lemma_timed_sorted(start: int, evs: Seq<RawEvent>)
    ensures
        forall|m: int, n: int|
            0 <= m <= n < timed(start, evs).len() ==> start <= #[trigger] timed(start, evs)[m].0
                <= #[trigger] timed(start, evs)[n].0,
        timed(start, evs).len() == evs.len(),
    decreases evs.len(),
{
    if evs.len() > 0 {
        let t = start + evs[0].delta;
        lemma_timed_sorted(t, evs.drop_first());
        let r = timed(start, evs);
        assert forall|m: int, n: int| 0 <= m <= n < r.len() implies start <= #[trigger] r[m].0 <= #[trigger] r[n].0 by {
            if m > 0 {
                assert(r[m] == timed(t, evs.drop_first())[m - 1]);
            }
            if n > 0 {
                assert(r[n] == timed(t, evs.drop_first())[n - 1]);
            }
        }
    }
}

proof fn lemma_pop_after(s: Seq<Seq<Timed>>)
    requires
        sorted(s),
        earliest(heads(s)) is Some,
    ensures
        sorted(pop(s)),
        ({
            let (j, u) = earliest(heads(s))->0;
            all_after(pop(s), (u, j))
        }),
{
    let d = heads(s);
    lemma_earliest(d);
    let (j, u) = earliest(d)->0;
    assert(s[j].len() > 0);
    lemma_pop_sorted(s, j);
    let p = pop(s);
    assert forall|i: int, m: int| 0 <= i < p.len() && 0 <= m < p[i].len() implies key_le(
        (u, j),
        (#[trigger] p[i][m].0, i),
    ) by {
        if i == j {
            assert(p[i][m] == s[j][m + 1]);
            assert(s[j][0].0 <= s[j][m + 1].0);
        } else {
            assert(d[i] is Some);
            assert(s[i][0].0 <= s[i][m].0);
        }
    }
}

proof fn lemma_pop_keeps_after(s: Seq<Seq<Timed>>, k: (int, int))
    requires
        all_after(s, k),
    ensures
        all_after(pop(s), k),
{
    lemma_earliest(heads(s));
    let p = pop(s);
    assert forall|i: int, m: int| 0 <= i < p.len() && 0 <= m < p[i].len() implies key_le(
        k,
        (#[trigger] p[i][m].0, i),
    ) by {
        match earliest(heads(s)) {
            Some((j, _)) => {
                if i == j {
                    assert(p[i][m] == s[j][m + 1]);
                }
            },
            None => {},
        }
    }
}

proof fn lemma_advance_after(s: Seq<Seq<Timed>>, tick: int)
    requires
        sorted(s),
    ensures
        sorted(advance(s, tick).0),
        advance(s, tick).1 is Event ==> all_after(advance(s, tick).0, advance(s, tick).2),
    decreases total(s),
{
    lemma_earliest(heads(s));
    match earliest(heads(s)) {
        None => {},
        Some((j, t)) => {
            if t <= tick {
                lemma_total_drop_first(s, j);
                lemma_pop_after(s);
                if note_event(s[j][0].1) is None {
                    lemma_advance_after(pop(s), tick);
                }
            }
        },
    }
}

proof fn lemma_advance_bounded(s: Seq<Seq<Timed>>, k: (int, int), tick: int)
    requires
        all_after(s, k),
    ensures
        advance(s, tick).1 is Event ==> key_le(k, advance(s, tick).2),
    decreases total(s),
{
    lemma_earliest(heads(s));
    match earliest(heads(s)) {
        None => {},
        Some((j, t)) => {
            if t <= tick {
                lemma_total_drop_first(s, j);
                assert(s[j][0].0 == t);
                if note_event(s[j][0].1) is None {
                    lemma_pop_keeps_after(s, k);
                    lemma_advance_bounded(pop(s), k, tick);
                }
            }
        },
    }
}

/// Note events come out in order of absolute tick, and of track index for
/// equal ticks, over any two successive steps, whatever ticks they are
/// asked for.
pub proof fn lemma_events_in_order(s: Seq<Seq<Timed>>, tick1: int, tick2: int)
    requires
        sorted(s),
    ensures
        ({
            let (s1, r1, k1) = advance(s, tick1);
            let (s2, r2, k2) = advance(s1, tick2);
            r1 is Event && r2 is Event ==> key_le(k1, k2)
        }),
{
    lemma_advance_after(s, tick1);
    let (s1, r1, k1) = advance(s, tick1);
    if r1 is Event {
        lemma_advance_bounded(s1, k1, tick2);
    }
}

/// A step reports `Finished` only once no event is left.
pub proof fn lemma_finished_is_empty(s: Seq<Seq<Timed>>, tick: int)
    ensures
        advance(s, tick).1 == NextMidiEvent::Finished ==> earliest(heads(advance(s, tick).0)) is None,
    decreases total(s),
{
    lemma_earliest(heads(s));
    match earliest(heads(s)) {
        None => {},
        Some((j, t)) => {
            if t <= tick {
                lemma_total_drop_first(s, j);
                if note_event(s[j][0].1) is None {
                    lemma_finished_is_empty(pop(s), tick);
                }
            }
        },
    }
}

/// Once a step reports `Finished`, every later step reports `Finished`.
pub proof fn lemma_finished_stays_finished(s: Seq<Seq<Timed>>, tick1: int, tick2: int)
    ensures
        advance(s, tick1).1 == NextMidiEvent::Finished ==> advance(advance(s, tick1).0, tick2).1
            == NextMidiEvent::Finished,
{
    lemma_finished_is_empty(s, tick1);
}

/// A step never adds events, and a step that returns a note event takes
/// at least one.
pub proof fn lemma_advance_shrinks(s: Seq<Seq<Timed>>, tick: int)
    ensures
        total(advance(s, tick).0) <= total(s),
        advance(s, tick).1 is Event ==> total(advance(s, tick).0) < total(s),
    decreases total(s),
{
    lemma_earliest(heads(s));
    match earliest(heads(s)) {
        None => {},
        Some((j, t)) => {
            if t <= tick {
                lemma_total_drop_first(s, j);
                if note_event(s[j][0].1) is None {
                    lemma_advance_shrinks(pop(s), tick);
                }
            }
        },
    }
}

/// The events of one track as the scheduler follows it.
struct TrackState {
    events: EventIter<'static>,
    /// The next event of the track; `None` once the track is exhausted.
    pending: Option<RawEvent>,
    /// Absolute tick of the last event handed out from this track.
    tick: u32,
}

impl TrackState {
    spec fn view(&self) -> Seq<Timed> {
        match self.pending {
            None => Seq::empty(),
            Some(e) => timed(self.tick as int, seq![e] + events_left(self.events)),
        }
    }

    spec fn due(&self) -> Option<int> {
        match self.pending {
            None => None,
            Some(e) => Some(self.tick + e.delta),
        }
    }

    proof fn lemma_view(&self)
        ensures
            self.view().len() > 0 <==> self.pending is Some,
            self.pending is Some ==> self.view()[0].0 == self.due()->0,
            self.pending is Some ==> self.view()[0].1 == self.pending->0.message,
            forall|m: int, n: int|
                0 <= m <= n < self.view().len() ==> #[trigger] self.view()[m].0
                    <= #[trigger] self.view()[n].0,
    {
        match self.pending {
            None => {},
            Some(e) => {
                lemma_timed_cons(self.tick as int, e, events_left(self.events));
                lemma_timed_sorted(self.tick as int, seq![e] + events_left(self.events));
            },
        }
    }
}

/// The track merge scheduler.
pub struct Midi {
    tracks: Vec<TrackState>,
    /// The earliest pending event over all tracks: its track and tick.
    next_track: Option<(usize, u64)>,
    ticks_per_sec: usize,
}

/// The schedule right after loading: the first `MAX_TRACKS` tracks of a
/// file, each with ticks counted from zero.
pub open spec fn initial_schedule(tracks: Seq<Seq<RawEvent>>) -> Seq<Seq<Timed>> {
    let n = if tracks.len() < MAX_TRACKS {
        tracks.len() as int
    } else {
        MAX_TRACKS as int
    };
    Seq::new(n as nat, |i: int| timed(0, tracks[i]))
}

impl Midi {
    /// For each track, the events left with their absolute ticks.
    pub closed spec fn schedule(&self) -> Seq<Seq<Timed>> {
        Seq::new(self.tracks@.len(), |i: int| self.tracks@[i].view())
    }

    /// Ticks per second.
    pub closed spec fn rate(&self) -> int {
        self.ticks_per_sec as int
    }

    /// The cached earliest event agrees with the tracks.
    pub closed spec fn cache_ok(&self) -> bool {
        match self.next_track {
            None => earliest(heads(self.schedule())) is None,
            Some((i, t)) => earliest(heads(self.schedule())) == Some((i as int, t as int)),
        }
    }

    /// The scheduler's invariant: at most `MAX_TRACKS` tracks, each in tick
    /// order, and the cached earliest event agrees with the tracks.
    pub open spec fn wf(&self) -> bool {
        &&& self.schedule().len() <= MAX_TRACKS
        &&& sorted(self.schedule())
        &&& self.cache_ok()
    }

    proof fn lemma_heads(&self)
        ensures
            forall|i: int|
                0 <= i < self.tracks@.len() ==> #[trigger] heads(self.schedule())[i]
                    == self.tracks@[i].due(),
            heads(self.schedule()).len() == self.tracks@.len(),
            sorted(self.schedule()),
    {
        assert forall|i: int| 0 <= i < self.tracks@.len() implies #[trigger] heads(
            self.schedule(),
        )[i] == self.tracks@[i].due() by {
            self.tracks@[i].lemma_view();
        }
        assert forall|i: int, m: int, n: int|
            0 <= i < self.schedule().len() && 0 <= m <= n
                < self.schedule()[i].len() implies self.schedule()[i][m].0
            <= self.schedule()[i][n].0 by {
            self.tracks@[i].lemma_view();
        }
    }

    /// Recomputes the cached earliest pending event.
    fn update_next_track(&mut self)
        requires
            old(self).schedule().len() <= MAX_TRACKS,
        ensures
            final(self).wf(),
            final(self).schedule() == old(self).schedule(),
            final(self).rate() == old(self).rate(),
    {
        proof {
            self.lemma_heads();
        }
        let ghost d = heads(self.schedule());
        let mut best: Option<(usize, u64)> = None;
        let mut i: usize = 0;
        while i < self.tracks.len()
            invariant
                i <= self.tracks@.len(),
                d.len() == self.tracks@.len(),
                forall|k: int| 0 <= k < self.tracks@.len() ==> #[trigger] d[k] == self.tracks@[k].due(),
                match best {
                    None => earliest_in(d, i as int) is None,
                    Some((j, u)) => earliest_in(d, i as int) == Some((j as int, u as int)),
                },
            decreases self.tracks@.len() - i,
        {
            let ts = &self.tracks[i];
            match ts.pending {
                Some(e) => {
                    let t: u64 = ts.tick as u64 + e.delta as u64;
                    match best {
                        None => {
                            best = Some((i, t));
                        },
                        Some((_, u)) => {
                            if t < u {
                                best = Some((i, t));
                            }
                        },
                    }
                },
                None => {},
            }
            i = i + 1;
        }
        self.next_track = best;
    }

    /// Loads a standard MIDI file: its tick rate and its first `MAX_TRACKS`
    /// tracks. Fails where `midly` cannot read the file.
    pub fn load(bytes: &'static [u8]) -> (r: Result<Midi, LoadError>)
        ensures
            match r {
                Ok(m) => match smf_contents(bytes@) {
                    Some((timing, tracks)) => {
                        &&& m.wf()
                        &&& m.schedule() == initial_schedule(tracks)
                        &&& m.rate() == tick_rate(timing)
                    },
                    None => false,
                },
                Err(e) => e == LoadError::Malformed && smf_contents(bytes@) is None,
            },
    {
        let (timing, mut file_tracks) = match parse_file(bytes) {
            Ok(x) => x,
            Err(_) => {
                return Err(LoadError::Malformed);
            },
        };
        let ghost all = tracks_left(file_tracks);
        let ticks_per_sec: usize = match timing {
            Timing::Metrical(n) => n as usize,
            Timing::Timecode(fps, n) => {
                assert(fps as u32 * n as u32 <= 255 * 255) by (nonlinear_arith)
                    requires
                        fps <= 255,
                        n <= 255,
                ;
                (fps as u32 * n as u32) as usize
            },
        };
        let mut tracks: Vec<TrackState> = Vec::new();
        let mut done = false;
        while !done && tracks.len() < MAX_TRACKS
            invariant
                tracks@.len() <= MAX_TRACKS,
                tracks@.len() <= all.len(),
                !done ==> tracks_left(file_tracks) == all.skip(tracks@.len() as int),
                done ==> tracks@.len() == all.len(),
                forall|k: int| 0 <= k < tracks@.len() ==> (#[trigger] tracks@[k]).view() == timed(0, all[k]),
            decreases MAX_TRACKS - tracks@.len() + (if done {
                0int
            } else {
                1int
            }),
        {
            match next_track(&mut file_tracks) {
                None => {
                    done = true;
                },
                Some(mut events) => {
                    let ghost evs = events_left(events);
                    assert(evs == all[tracks@.len() as int]);
                    let pending = next_raw_event(&mut events);
                    let ts = TrackState { events, pending, tick: 0 };
                    proof {
                        match pending {
                            Some(e) => {
                                assert(seq![e] + events_left(events) =~= evs);
                            },
                            None => {
                                assert(evs =~= Seq::<RawEvent>::empty());
                            },
                        }
                    }
                    tracks.push(ts);
                    assert(tracks_left(file_tracks) =~= all.skip(tracks@.len() as int));
                },
            }
        }
        let mut m = Midi { tracks, next_track: None, ticks_per_sec };
        assert(m.schedule() =~= initial_schedule(all));
        m.update_next_track();
        Ok(m)
    }

    /// Hands out the earliest pending event over all tracks, ties going to
    /// the lowest track index, with its track and absolute tick, and moves
    /// that track on to its next event. `None` once every track is exhausted.
    /// The event's tick must fit in `u32`, as the per-track ticks are kept
    /// in `u32`; `next_midi_event` only hands out events due by a `u32` tick.
    pub fn next_event(&mut self) -> (r: Option<(usize, u64, TrackMessage)>)
        requires
            old(self).wf(),
            match earliest(heads(old(self).schedule())) {
                Some((_, t)) => t <= u32::MAX,
                None => true,
            },
        ensures
            final(self).wf(),
            final(self).schedule() == pop(old(self).schedule()),
            final(self).rate() == old(self).rate(),
            match earliest(heads(old(self).schedule())) {
                None => r is None,
                Some((j, t)) => r == Some((j as usize, t as u64, old(self).schedule()[j][0].1)),
            },
    {
        proof {
            self.lemma_heads();
            lemma_earliest(heads(self.schedule()));
        }
        let (i, tick) = match self.next_track {
            None => {
                return None;
            },
            Some(x) => x,
        };
        let ghost s = self.schedule();
        let ghost old_ts = self.tracks@[i as int];
        proof {
            old_ts.lemma_view();
        }
        let e = match self.tracks[i].pending {
            Some(e) => e,
            None => {
                return None;
            },
        };
        let ts = &mut self.tracks[i];
        let next = next_raw_event(&mut ts.events);
        ts.pending = next;
        ts.tick = tick as u32;
        proof {
            let rest = events_left(old_ts.events);
            lemma_timed_cons(old_ts.tick as int, e, rest);
            let new_ts = self.tracks@[i as int];
            match next {
                Some(e2) => {
                    assert(seq![e2] + events_left(new_ts.events) =~= rest);
                },
                None => {
                    assert(rest =~= Seq::<RawEvent>::empty());
                },
            }
            assert(new_ts.view() =~= s[i as int].drop_first());
            assert(self.schedule() =~= s.update(i as int, s[i as int].drop_first()));
            lemma_pop_sorted(s, i as int);
        }
        self.update_next_track();
        Some((i, tick, e.message))
    }

    /// The scheduler's step at `tick` (the caller loops on it until
    /// `Pending` or `Finished`): returns `Finished` once every track is
    /// exhausted, `Pending` where the earliest pending event lies after
    /// `tick`, and otherwise takes events in order, skipping those that are
    /// no note event, and returns the first note event with its channel. A
    /// note-on with velocity zero comes out as a note-off.
    pub fn next_midi_event(&mut self, tick: u32) -> (r: NextMidiEvent)
        requires
            old(self).wf(),
        ensures
            final(self).wf(),
            final(self).rate() == old(self).rate(),
            final(self).schedule() == advance(old(self).schedule(), tick as int).0,
            r == advance(old(self).schedule(), tick as int).1,
    {
        let ghost s0 = self.schedule();
        loop
            invariant
                self.wf(),
                self.rate() == old(self).rate(),
                s0 == old(self).schedule(),
                advance(self.schedule(), tick as int).0 == advance(s0, tick as int).0,
                advance(self.schedule(), tick as int).1 == advance(s0, tick as int).1,
            decreases total(self.schedule()),
        {
            proof {
                self.lemma_heads();
                lemma_earliest(heads(self.schedule()));
            }
            match self.next_track {
                None => {
                    return NextMidiEvent::Finished;
                },
                Some((_, t)) => {
                    if t > tick as u64 {
                        return NextMidiEvent::Pending;
                    }
                },
            }
            let ghost s = self.schedule();
            let popped = self.next_event();
            proof {
                let (j, _) = earliest(heads(s))->0;
                lemma_total_drop_first(s, j);
            }
            match popped {
                None => {
                    return NextMidiEvent::Finished;
                },
                Some((_, _, message)) => {
                    match message {
                        TrackMessage::NoteOn { channel, key, vel } => {
                            if vel == 0 {
                                return NextMidiEvent::Event(channel, MidiEvent::NoteOff(key));
                            } else {
                                return NextMidiEvent::Event(channel, MidiEvent::NoteOn(key, vel));
                            }
                        },
                        TrackMessage::NoteOff { channel, key } => {
                            return NextMidiEvent::Event(channel, MidiEvent::NoteOff(key));
                        },
                        TrackMessage::Other => {},
                    }
                },
            }
        }
    }

    /// Ticks per second, from the file header's timing field.
    pub fn ticks_per_sec(&self) -> (r: usize)
        ensures
            r == self.rate(),
    {
        self.ticks_per_sec
    }
}

} // verus!
