//! The bookkeeping of the random note generator: which kinds of event a note port can receive,
//! and which notes are playing on each port, so that consistent event streams never end, choke
//! or modulate a note that is not playing, and never start one twice.

use vstd::prelude::*;

verus! {

/// A note the generator started.
#[derive(Debug, Clone, Copy, PartialEq, Eq, Structural)]
pub struct Note {
    pub key: i16,
    pub channel: i16,
    pub note_id: i32,
    /// Whether the note was choked; a note is choked at most once.
    pub choked: bool,
}

/// The kinds of event the generator sends to a note port.
#[derive(Debug, Clone, Copy, PartialEq, Eq, Structural)]
pub enum NoteEventType {
    ClapNoteOn,
    ClapNoteOff,
    ClapNoteChoke,
    ClapNoteExpression,
    MidiNoteOn,
    MidiNoteOff,
    MidiChannelPressure,
    MidiPolyKeyPressure,
    MidiPitchBend,
    MidiCc,
    MidiProgramChange,
    ParamValue,
    ParamModulation,
}

/// The event kinds of CLAP note events.
pub open spec fn clap_events() -> Seq<NoteEventType> {
    seq![
        NoteEventType::ClapNoteOn,
        NoteEventType::ClapNoteOff,
        NoteEventType::ClapNoteChoke,
        NoteEventType::ClapNoteExpression,
    ]
}

/// The event kinds of MIDI events.
pub open spec fn midi_events() -> Seq<NoteEventType> {
    seq![
        NoteEventType::MidiNoteOn,
        NoteEventType::MidiNoteOff,
        NoteEventType::MidiChannelPressure,
        NoteEventType::MidiPolyKeyPressure,
        NoteEventType::MidiPitchBend,
        NoteEventType::MidiCc,
        NoteEventType::MidiProgramChange,
    ]
}

/// The event kinds of polyphonic parameter events.
pub open spec fn param_events() -> Seq<NoteEventType> {
    seq![NoteEventType::ParamValue, NoteEventType::ParamModulation]
}

/// The event kinds a port can receive: CLAP note events when it supports them, then MIDI events
/// when it supports them, then parameter events when there are parameters.
pub open spec fn supported_types_spec(supports_clap: bool, supports_midi: bool, supports_params: bool) -> Seq<NoteEventType> {
    (if supports_clap {
        clap_events()
    } else {
        Seq::empty()
    }) + (if supports_midi {
        midi_events()
    } else {
        Seq::empty()
    }) + (if supports_params {
        param_events()
    } else {
        Seq::empty()
    })
}

/// The event kinds a port can receive, in the order the generator picks from.
pub fn supported_types(supports_clap: bool, supports_midi: bool, supports_params: bool) -> (r: Vec<NoteEventType>)
    ensures
        r@ == supported_types_spec(supports_clap, supports_midi, supports_params),
{
    let mut r: Vec<NoteEventType> = Vec::new();
    if supports_clap {
        r.push(NoteEventType::ClapNoteOn);
        r.push(NoteEventType::ClapNoteOff);
        r.push(NoteEventType::ClapNoteChoke);
        r.push(NoteEventType::ClapNoteExpression);
    }
    let ghost clap = r@;
    if supports_midi {
        r.push(NoteEventType::MidiNoteOn);
        r.push(NoteEventType::MidiNoteOff);
        r.push(NoteEventType::MidiChannelPressure);
        r.push(NoteEventType::MidiPolyKeyPressure);
        r.push(NoteEventType::MidiPitchBend);
        r.push(NoteEventType::MidiCc);
        r.push(NoteEventType::MidiProgramChange);
    }
    let ghost midi = r@;
    if supports_params {
        r.push(NoteEventType::ParamValue);
        r.push(NoteEventType::ParamModulation);
    }
    proof {
        let c = if supports_clap {
            clap_events()
        } else {
            Seq::empty()
        };
        let m = if supports_midi {
            midi_events()
        } else {
            Seq::empty()
        };
        let p = if supports_params {
            param_events()
        } else {
            Seq::empty()
        };
        assert(clap =~= c);
        assert(midi =~= c + m);
        assert(r@ =~= c + m + p);
    }
    r
}

/// The note ID after `id`, wrapping around.
pub open spec fn next_note_id(id: i32) -> i32 {
    if id == i32::MAX {
        i32::MIN
    } else {
        (id + 1) as i32
    }
}

/// Whether `note` is among `notes`.
fn contains_note(notes: &Vec<Note>, note: Note) -> (r: bool)
    ensures
        r == notes@.contains(note),
{
    let mut k: usize = 0;
    while k < notes.len()
        invariant
            k <= notes@.len(),
            forall|j: int| 0 <= j < k ==> notes@[j] != note,
        decreases notes@.len() - k,
    {
        if notes[k] == note {
            assert(notes@[k as int] == note);
            return true;
        }
        k = k + 1;
    }
    false
}

/// The notes playing on each note port, and the ID the next note gets.
pub struct NoteTracker {
    active: Vec<Vec<Note>>,
    next_id: i32,
}

impl View for NoteTracker {
    type V = Seq<Seq<Note>>;

    closed spec fn view(&self) -> Seq<Seq<Note>> {
        self.active@.map_values(|notes: Vec<Note>| notes@)
    }
}

/// The notes of every port, in port order, each with its port.
pub open spec fn all_notes(active: Seq<Seq<Note>>, ports: int) -> Seq<(usize, Note)>
    decreases ports,
{
    if ports <= 0 {
        Seq::empty()
    } else {
        all_notes(active, ports - 1) + active[ports - 1].map_values(|n: Note| ((ports - 1) as usize, n))
    }
}

/// No note plays on any of `ports` ports.
pub open spec fn silent(ports: nat) -> Seq<Seq<Note>> {
    Seq::new(ports, |p: int| Seq::<Note>::empty())
}

impl NoteTracker {
    /// The ID the next note gets.
    pub closed spec fn next_id_spec(&self) -> i32 {
        self.next_id
    }

    /// A tracker for `ports` note ports with no note playing.
    pub fn new(ports: usize) -> (r: NoteTracker)
        ensures
            r@ == silent(ports as nat),
            r.next_id_spec() == 0,
    {
        let mut active: Vec<Vec<Note>> = Vec::new();
        let mut p: usize = 0;
        while p < ports
            invariant
                p <= ports,
                active@.len() == p,
                forall|q: int| 0 <= q < p ==> (#[trigger] active@[q])@.len() == 0,
            decreases ports - p,
        {
            active.push(Vec::new());
            p = p + 1;
        }
        let r = NoteTracker { active, next_id: 0 };
        assert(r@ =~~= silent(ports as nat));
        r
    }

    /// The number of note ports.
    pub fn ports(&self) -> (r: usize)
        ensures
            r == self@.len(),
    {
        self.active.len()
    }

    /// The number of notes playing on `port`.
    pub fn playing(&self, port: usize) -> (r: usize)
        requires
            port < self@.len(),
        ensures
            r == self@[port as int].len(),
    {
        self.active[port].len()
    }

    /// The note at `index` among those playing on `port`.
    pub fn playing_note(&self, port: usize, index: usize) -> (r: Note)
        requires
            port < self@.len(),
            index < self@[port as int].len(),
        ensures
            r == self@[port as int][index as int],
    {
        self.active[port][index]
    }

    /// Starts a note with the next note ID on `port`, unless that very note is already playing
    /// there, in which case nothing changes and `None` is returned.
    pub fn start_note(&mut self, port: usize, key: i16, channel: i16) -> (r: Option<Note>)
        requires
            port < old(self)@.len(),
        ensures
            ({
                let note = Note { key, channel, note_id: old(self).next_id_spec(), choked: false };
                &&& old(self)@[port as int].contains(note) ==> r is None && final(self)@ == old(self)@
                    && final(self).next_id_spec() == old(self).next_id_spec()
                &&& !old(self)@[port as int].contains(note) ==> r == Some(note) && final(self)@ == old(self)@.update(
                    port as int,
                    old(self)@[port as int].push(note),
                ) && final(self).next_id_spec() == next_note_id(old(self).next_id_spec())
            }),
    {
        let note = Note { key, channel, note_id: self.next_id, choked: false };
        if contains_note(&self.active[port], note) {
            return None;
        }
        assert(!self@[port as int].contains(note));
        let ghost before = self@;
        let mut notes: Vec<Note> = Vec::new();
        std::mem::swap(&mut notes, &mut self.active[port]);
        notes.push(note);
        self.active.set(port, notes);
        self.next_id = if self.next_id == i32::MAX {
            i32::MIN
        } else {
            self.next_id + 1
        };
        assert(self@ =~= before.update(port as int, before[port as int].push(note)));
        Some(note)
    }

    /// Ends the note at `index` among those playing on `port`, and returns it.
    pub fn end_note(&mut self, port: usize, index: usize) -> (r: Note)
        requires
            port < old(self)@.len(),
            index < old(self)@[port as int].len(),
        ensures
            r == old(self)@[port as int][index as int],
            final(self)@ == old(self)@.update(port as int, old(self)@[port as int].remove(index as int)),
            final(self).next_id_spec() == old(self).next_id_spec(),
    {
        let ghost before = self@;
        let mut notes: Vec<Note> = Vec::new();
        std::mem::swap(&mut notes, &mut self.active[port]);
        let note = notes.remove(index);
        self.active.set(port, notes);
        assert(self@ =~= before.update(port as int, before[port as int].remove(index as int)));
        note
    }

    /// Chokes the note at `index` among those playing on `port` and returns it, unless it was
    /// choked already, in which case nothing changes and `None` is returned.
    pub fn choke_note(&mut self, port: usize, index: usize) -> (r: Option<Note>)
        requires
            port < old(self)@.len(),
            index < old(self)@[port as int].len(),
        ensures
            ({
                let note = old(self)@[port as int][index as int];
                &&& note.choked ==> r is None && final(self)@ == old(self)@
                &&& !note.choked ==> r == Some(Note { choked: true, ..note }) && final(self)@ == old(self)@.update(
                    port as int,
                    old(self)@[port as int].update(index as int, Note { choked: true, ..note }),
                )
                &&& final(self).next_id_spec() == old(self).next_id_spec()
            }),
    {
        let note = self.active[port][index];
        if note.choked {
            return None;
        }
        let choked = Note { choked: true, ..note };
        let ghost before = self@;
        let mut notes: Vec<Note> = Vec::new();
        std::mem::swap(&mut notes, &mut self.active[port]);
        notes.set(index, choked);
        self.active.set(port, notes);
        assert(self@ =~= before.update(port as int, before[port as int].update(index as int, choked)));
        Some(choked)
    }

    /// Ends every playing note: returns them in port order, each with its port, and leaves no
    /// note playing.
    pub fn stop_all_voices(&mut self) -> (r: Vec<(usize, Note)>)
        ensures
            r@ == all_notes(old(self)@, old(self)@.len() as int),
            final(self)@ == silent(old(self)@.len()),
            final(self).next_id_spec() == old(self).next_id_spec(),
    {
        let ghost before = self@;
        let mut r: Vec<(usize, Note)> = Vec::new();
        let mut p: usize = 0;
        while p < self.active.len()
            invariant
                self.active@.len() == before.len(),
                self.next_id == old(self).next_id,
                before == old(self)@,
                p <= before.len(),
                r@ == all_notes(before, p as int),
                forall|q: int| 0 <= q < p ==> (#[trigger] self.active@[q])@.len() == 0,
                forall|q: int| p <= q < before.len() ==> (#[trigger] self.active@[q])@ == before[q],
            decreases before.len() - p,
        {
            let mut notes: Vec<Note> = Vec::new();
            std::mem::swap(&mut notes, &mut self.active[p]);
            let ghost head = r@;
            let mut k: usize = 0;
            while k < notes.len()
                invariant
                    p < before.len(),
                    notes@ == before[p as int],
                    k <= notes@.len(),
                    r@ == head + notes@.subrange(0, k as int).map_values(|n: Note| (p, n)),
                decreases notes@.len() - k,
            {
                r.push((p, notes[k]));
                k = k + 1;
                assert(notes@.subrange(0, k as int).map_values(|n: Note| (p, n)) =~= notes@.subrange(
                    0,
                    (k - 1) as int,
                ).map_values(|n: Note| (p, n)).push((p, notes@[k - 1])));
            }
            assert(notes@.subrange(0, k as int) =~= notes@);
            p = p + 1;
        }
        assert(self@ =~~= silent(before.len()));
        r
    }

    /// Forgets every playing note and starts the note IDs over.
    pub fn reset(&mut self)
        ensures
            final(self)@ == silent(old(self)@.len()),
            final(self).next_id_spec() == 0,
    {
        let ghost before = self@;
        let mut p: usize = 0;
        while p < self.active.len()
            invariant
                self.active@.len() == before.len(),
                p <= before.len(),
                forall|q: int| 0 <= q < p ==> (#[trigger] self.active@[q])@.len() == 0,
            decreases before.len() - p,
        {
            self.active.set(p, Vec::new());
            p = p + 1;
        }
        self.next_id = 0;
        assert(self@ =~~= silent(before.len()));
    }
}

/// Law: ending the note that was just started on a port leaves that port's notes as they were,
/// so a note on followed by its note off undoes the note on.
pub proof fn law_end_undoes_start(before: Seq<Seq<Note>>, port: int, note: Note)
    requires
        0 <= port < before.len(),
    ensures
        ({
            let started = before.update(port, before[port].push(note));
            started.update(port, started[port].remove(before[port].len() as int)) == before
        }),
{
    let started = before.update(port, before[port].push(note));
    assert(started[port].remove(before[port].len() as int) =~= before[port]);
    assert(started.update(port, started[port].remove(before[port].len() as int)) =~= before);
}

/// What the generator sends for the event kind it drew.
#[derive(Debug, Clone, Copy, PartialEq, Eq, Structural)]
pub enum PlannedEvent {
    /// An event about a note: a note on, off, choke or expression, a MIDI note on or off, a
    /// polyphonic key pressure, or a polyphonic parameter value or modulation.
    ForNote { kind: NoteEventType, note: Note },
    /// A channel pressure, pitch bend, control change or program change, which concern no note.
    Channel { kind: NoteEventType },
}

/// Whether an event kind starts a note.
pub open spec fn starts_note(kind: NoteEventType) -> bool {
    kind == NoteEventType::ClapNoteOn || kind == NoteEventType::MidiNoteOn
}

/// Whether an event kind ends a note.
pub open spec fn ends_note(kind: NoteEventType) -> bool {
    kind == NoteEventType::ClapNoteOff || kind == NoteEventType::MidiNoteOff
}

/// Whether an event kind concerns a single playing note without ending it.
pub open spec fn touches_note(kind: NoteEventType) -> bool {
    ||| kind == NoteEventType::ClapNoteExpression
    ||| kind == NoteEventType::MidiPolyKeyPressure
    ||| kind == NoteEventType::ParamValue
    ||| kind == NoteEventType::ParamModulation
}

/// Whether an event kind concerns no note at all.
pub open spec fn channel_event(kind: NoteEventType) -> bool {
    ||| kind == NoteEventType::MidiChannelPressure
    ||| kind == NoteEventType::MidiPitchBend
    ||| kind == NoteEventType::MidiCc
    ||| kind == NoteEventType::MidiProgramChange
}

/// Whether an event kind is a polyphonic parameter event.
pub open spec fn param_event(kind: NoteEventType) -> bool {
    kind == NoteEventType::ParamValue || kind == NoteEventType::ParamModulation
}

impl NoteTracker {
    /// Decides the event for the kind drawn for `port`, or `None` when that kind cannot be sent
    /// now and another is drawn.
    ///
    /// `random_note` is the note drawn for the event: a new note takes its key and channel, and
    /// with `consistent` false every note event uses it as it is. `index` is the playing note
    /// drawn on `port`, read only when a note is playing there. `has_param` says whether a
    /// parameter fit for a parameter event was found. In consistent streams a note off ends a
    /// playing note, a choke chokes one that was not choked, other note events concern a playing
    /// note, and a note on starts a note that is not playing.
    pub fn plan_event(&mut self, port: usize, kind: NoteEventType, consistent: bool, random_note: Note, index: usize, has_param: bool) -> (r: Option<PlannedEvent>)
        requires
            port < old(self)@.len(),
            old(self)@[port as int].len() > 0 ==> index < old(self)@[port as int].len(),
        ensures
            ({
                let playing = old(self)@[port as int];
                let fresh = Note { key: random_note.key, channel: random_note.channel, note_id: old(self).next_id_spec(), choked: false };
                &&& channel_event(kind) ==> r == Some(PlannedEvent::Channel { kind }) && final(self)@ == old(self)@
                    && final(self).next_id_spec() == old(self).next_id_spec()
                &&& param_event(kind) && !has_param ==> r is None && final(self)@ == old(self)@
                    && final(self).next_id_spec() == old(self).next_id_spec()
                &&& !channel_event(kind) && !(param_event(kind) && !has_param) && !consistent ==> r == Some(
                    PlannedEvent::ForNote { kind, note: random_note },
                ) && final(self)@ == old(self)@ && final(self).next_id_spec() == old(self).next_id_spec()
                &&& consistent && starts_note(kind) ==> {
                    &&& playing.contains(fresh) ==> r is None && final(self)@ == old(self)@
                        && final(self).next_id_spec() == old(self).next_id_spec()
                    &&& !playing.contains(fresh) ==> r == Some(PlannedEvent::ForNote { kind, note: fresh })
                        && final(self)@ == old(self)@.update(port as int, playing.push(fresh))
                        && final(self).next_id_spec() == next_note_id(old(self).next_id_spec())
                }
                &&& consistent && !starts_note(kind) && !channel_event(kind) && !(param_event(kind) && !has_param)
                    && playing.len() == 0 ==> r is None && final(self)@ == old(self)@
                    && final(self).next_id_spec() == old(self).next_id_spec()
                &&& consistent && ends_note(kind) && playing.len() > 0 ==> r == Some(
                    PlannedEvent::ForNote { kind, note: playing[index as int] },
                ) && final(self)@ == old(self)@.update(port as int, playing.remove(index as int))
                    && final(self).next_id_spec() == old(self).next_id_spec()
                &&& consistent && kind == NoteEventType::ClapNoteChoke && playing.len() > 0 ==> {
                    &&& playing[index as int].choked ==> r is None && final(self)@ == old(self)@
                    &&& !playing[index as int].choked ==> r == Some(
                        PlannedEvent::ForNote { kind, note: Note { choked: true, ..playing[index as int] } },
                    ) && final(self)@ == old(self)@.update(
                        port as int,
                        playing.update(index as int, Note { choked: true, ..playing[index as int] }),
                    )
                    &&& final(self).next_id_spec() == old(self).next_id_spec()
                }
                &&& consistent && touches_note(kind) && !(param_event(kind) && !has_param) && playing.len() > 0 ==> r
                    == Some(PlannedEvent::ForNote { kind, note: playing[index as int] }) && final(self)@ == old(self)@
                    && final(self).next_id_spec() == old(self).next_id_spec()
            }),
    {
        match kind {
            NoteEventType::MidiChannelPressure | NoteEventType::MidiPitchBend | NoteEventType::MidiCc
            | NoteEventType::MidiProgramChange => {
                return Some(PlannedEvent::Channel { kind });
            },
            _ => {},
        }
        if (kind == NoteEventType::ParamValue || kind == NoteEventType::ParamModulation) && !has_param {
            return None;
        }
        if !consistent {
            return Some(PlannedEvent::ForNote { kind, note: random_note });
        }
        match kind {
            NoteEventType::ClapNoteOn | NoteEventType::MidiNoteOn => {
                match self.start_note(port, random_note.key, random_note.channel) {
                    Some(note) => Some(PlannedEvent::ForNote { kind, note }),
                    None => None,
                }
            },
            _ => {
                if self.playing(port) == 0 {
                    return None;
                }
                match kind {
                    NoteEventType::ClapNoteOff | NoteEventType::MidiNoteOff => {
                        let note = self.end_note(port, index);
                        Some(PlannedEvent::ForNote { kind, note })
                    },
                    NoteEventType::ClapNoteChoke => {
                        match self.choke_note(port, index) {
                            Some(note) => Some(PlannedEvent::ForNote { kind, note }),
                            None => None,
                        }
                    },
                    _ => Some(PlannedEvent::ForNote { kind, note: self.playing_note(port, index) }),
                }
            },
        }
    }
}

} // verus!
