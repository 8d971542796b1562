//! The voice table: which key, if any, sounds on each output channel.
use crate::midi::MidiEvent;
use vstd::prelude::*;

verus! {

/// The number of output channels.
pub const MAX_CHANNELS: usize = 4;

/// The key that a raise or lower request starts from on a silent channel.
pub const DEFAULT_KEY: u8 = 60;

/// The highest key among the first `n` slots.
pub open spec fn highest_in(s: Seq<Option<u8>>, n: int) -> Option<u8>
    decreases n,
{
    if n <= 0 {
        None
    } else {
        let prev = highest_in(s, n - 1);
        match s[n - 1] {
            None => prev,
            Some(k) => match prev {
                Some(p) => if p >= k {
                    Some(p)
                } else {
                    Some(k)
                },
                None => Some(k),
            },
        }
    }
}

/// The highest key that sounds on any channel, `None` where all are silent.
pub open spec fn highest(s: Seq<Option<u8>>) -> Option<u8> {
    highest_in(s, s.len() as int)
}

/// The `(channel, key)` pairs of the sounding channels among the first `n`,
/// in channel order.
pub open spec fn active_in(s: Seq<Option<u8>>, n: int) -> Seq<(usize, u8)>
    decreases n,
{
    if n <= 0 {
        Seq::empty()
    } else {
        match s[n - 1] {
            None => active_in(s, n - 1),
            Some(k) => active_in(s, n - 1).push(((n - 1) as usize, k)),
        }
    }
}

/// The table with every channel silent.
pub open spec fn silence() -> Seq<Option<u8>> {
    seq![None, None, None, None]
}

/// `s` after `event` on `channel`: a note-on sets the channel's key, a
/// note-off clears it.
pub open spec fn apply_event(s: Seq<Option<u8>>, channel: int, event: MidiEvent) -> Seq<
    Option<u8>,
> {
    match event {
        MidiEvent::NoteOn(key, _) => s.update(channel, Some(key)),
        MidiEvent::NoteOff(_) => s.update(channel, None),
    }
}

proof fn lemma_highest_in(s: Seq<Option<u8>>, n: int)
    requires
        0 <= n <= s.len(),
    ensures
        match highest_in(s, n) {
            None => forall|c: int| 0 <= c < n ==> s[c] is None,
            Some(k) => {
                &&& exists|c: int| 0 <= c < n && s[c] == Some(k)
                &&& forall|c: int| 0 <= c < n && #[trigger] s[c] is Some ==> s[c]->0 <= k
            },
        },
    decreases n,
{
    if n > 0 {
        lemma_highest_in(s, n - 1);
    }
}

/// The highest key is one that sounds, and no sounding key is higher.
pub proof fn lemma_highest(s: Seq<Option<u8>>)
    ensures
        match highest(s) {
            None => forall|c: int| 0 <= c < s.len() ==> s[c] is None,
            Some(k) => {
                &&& exists|c: int| 0 <= c < s.len() && s[c] == Some(k)
                &&& forall|c: int| 0 <= c < s.len() && #[trigger] s[c] is Some ==> s[c]->0 <= k
            },
        },
{
    lemma_highest_in(s, s.len() as int);
}

/// One slot per output channel, each holding the key that sounds there.
pub struct VoiceTable {
    notes: [Option<u8>; 4],
}

impl View for VoiceTable {
    type V = Seq<Option<u8>>;

    closed spec fn view(&self) -> Seq<Option<u8>> {
        self.notes@
    }
}

impl VoiceTable {
    /// The table has one slot per channel.
    pub proof fn lemma_len(&self)
        ensures
            self@.len() == MAX_CHANNELS,
    {
    }

    /// A table with every channel silent.
    pub fn new() -> (r: VoiceTable)
        ensures
            r@ == silence(),
    {
        let r = VoiceTable { notes: [None, None, None, None] };
        assert(r@ =~= silence());
        r
    }

    /// The key on `channel`, if one sounds there.
    pub fn key(&self, channel: usize) -> (r: Option<u8>)
        requires
            channel < MAX_CHANNELS,
        ensures
            r == self@[channel as int],
    {
        self.notes[channel]
    }

    /// Starts `key` on `channel`, replacing what sounded there.
    pub fn note_on(&mut self, channel: u8, key: u8)
        requires
            channel < MAX_CHANNELS,
        ensures
            final(self)@ == old(self)@.update(channel as int, Some(key)),
    {
        self.notes[channel as usize] = Some(key);
        assert(self@ =~= old(self)@.update(channel as int, Some(key)));
    }

    /// Silences `channel`, whatever key sounds there.
    pub fn note_off(&mut self, channel: u8, key: u8)
        requires
            channel < MAX_CHANNELS,
        ensures
            final(self)@ == old(self)@.update(channel as int, None),
    {
        self.notes[channel as usize] = None;
        assert(self@ =~= old(self)@.update(channel as int, None));
    }

    /// Applies a note event on `channel`.
    pub fn handle_midi_event(&mut self, channel: u8, event: MidiEvent)
        requires
            channel < MAX_CHANNELS,
        ensures
            final(self)@ == apply_event(old(self)@, channel as int, event),
    {
        match event {
            MidiEvent::NoteOn(key, _vel) => self.note_on(channel, key),
            MidiEvent::NoteOff(key) => self.note_off(channel, key),
        }
    }

    /// Silences every channel.
    pub fn silence_all(&mut self)
        ensures
            final(self)@ == silence(),
    {
        self.notes = [None, None, None, None];
        assert(self@ =~= silence());
    }

    /// The highest key that sounds on any channel: the pitch that sounds
    /// when the channels share one output.
    pub fn highest_key(&self) -> (r: Option<u8>)
        ensures
            r == highest(self@),
    {
        let mut best: Option<u8> = None;
        let mut c: usize = 0;
        while c < MAX_CHANNELS
            invariant
                c <= MAX_CHANNELS,
                self@.len() == MAX_CHANNELS,
                best == highest_in(self@, c as int),
            decreases MAX_CHANNELS - c,
        {
            match self.notes[c] {
                Some(k) => {
                    best = match best {
                        Some(p) => if p >= k {
                            Some(p)
                        } else {
                            Some(k)
                        },
                        None => Some(k),
                    };
                },
                None => {},
            }
            c = c + 1;
        }
        best
    }

    /// The sounding channels with their keys, in channel order.
    pub fn active_keys(&self) -> (r: Vec<(usize, u8)>)
        ensures
            r@ == active_in(self@, MAX_CHANNELS as int),
    {
        let mut r: Vec<(usize, u8)> = Vec::new();
        let mut c: usize = 0;
        while c < MAX_CHANNELS
            invariant
                c <= MAX_CHANNELS,
                self@.len() == MAX_CHANNELS,
                r@ == active_in(self@, c as int),
            decreases MAX_CHANNELS - c,
        {
            match self.notes[c] {
                Some(k) => r.push((c, k)),
                None => {},
            }
            c = c + 1;
        }
        r
    }

    /// Raises the key on channel 0 by one semitone (up to 255), starting
    /// from `DEFAULT_KEY` where the channel is silent.
    pub fn raise_key(&mut self)
        ensures
            final(self)@ == old(self)@.update(
                0,
                Some(
                    match old(self)@[0] {
                        Some(k) => if k < 255 {
                            (k + 1) as u8
                        } else {
                            k
                        },
                        None => (DEFAULT_KEY + 1) as u8,
                    },
                ),
            ),
    {
        let k = match self.notes[0] {
            Some(k) => k,
            None => DEFAULT_KEY,
        };
        let raised = if k < 255 {
            k + 1
        } else {
            k
        };
        self.note_on(0, raised);
    }

    /// Lowers the key on channel 0 by one semitone (down to 0), starting
    /// from `DEFAULT_KEY` where the channel is silent.
    pub fn lower_key(&mut self)
        ensures
            final(self)@ == old(self)@.update(
                0,
                Some(
                    match old(self)@[0] {
                        Some(k) => if k > 0 {
                            (k - 1) as u8
                        } else {
                            k
                        },
                        None => (DEFAULT_KEY - 1) as u8,
                    },
                ),
            ),
    {
        let k = match self.notes[0] {
            Some(k) => k,
            None => DEFAULT_KEY,
        };
        let lowered = if k > 0 {
            k - 1
        } else {
            k
        };
        self.note_on(0, lowered);
    }
}

} // verus!
