//! The event queues handed to a plugin's process call, and the checks on the events the plugin
//! sends back.
//!
//! The validator only reads an event's sample offset; the event's body is kept by the caller and
//! named here by a tag.

use vstd::prelude::*;
use crate::clap_abi::{
    CORE_EVENT_SPACE_ID, EVENT_MIDI, EVENT_NOTE_CHOKE, EVENT_NOTE_END, EVENT_NOTE_EXPRESSION, EVENT_NOTE_OFF,
    EVENT_NOTE_ON, EVENT_PARAM_MOD, EVENT_PARAM_VALUE, EVENT_TRANSPORT,
};

verus! {

/// An event in a queue: the sample offset within the block at which it happens, and a tag by which
/// the caller finds the full event again.
#[derive(Clone, Copy, Debug, PartialEq, Eq, Structural)]
pub struct QueuedEvent {
    pub time: u32,
    pub tag: u64,
}

/// Holds of the events at sample offset `t`.
pub open spec fn at_time(t: u32) -> spec_fn(QueuedEvent) -> bool {
    |e: QueuedEvent| e.time == t
}

/// The events are ordered by sample offset.
pub open spec fn sorted_by_time(s: Seq<QueuedEvent>) -> bool {
    forall|i: int, j: int| 0 <= i <= j < s.len() ==> #[trigger] s[i].time <= #[trigger] s[j].time
}

/// `out` is what a stable sort by sample offset makes of `input`: it is ordered by sample offset,
/// and the events at each offset come in the order they had in `input`.
pub open spec fn stable_sort_of(out: Seq<QueuedEvent>, input: Seq<QueuedEvent>) -> bool {
    &&& sorted_by_time(out)
    &&& forall|t: u32| #[trigger] out.filter(at_time(t)) == input.filter(at_time(t))
}

/// A sequence none of whose elements meet `p` filters to nothing.
pub proof fn lemma_filter_none<A>(s: Seq<A>, p: spec_fn(A) -> bool)
    requires
        forall|i: int| 0 <= i < s.len() ==> !p(#[trigger] s[i]),
    ensures
        s.filter(p) == Seq::<A>::empty(),
    decreases s.len(),
{
    reveal(Seq::filter);
    if s.len() > 0 {
        lemma_filter_none(s.drop_last(), p);
    }
}

/// Filtering a sequence with one more element at its end.
pub proof fn lemma_filter_push<A>(s: Seq<A>, x: A, p: spec_fn(A) -> bool)
    ensures
        s.push(x).filter(p) == if p(x) { s.filter(p).push(x) } else { s.filter(p) },
{
    reveal(Seq::filter);
    assert(s.push(x).drop_last() =~= s);
}

/// Inserting `x` into the ordered sequence `out`, after every event that is not later than `x`,
/// keeps the result a stable sort of `input` with `x` appended.
proof fn lemma_insert_stable(out: Seq<QueuedEvent>, input: Seq<QueuedEvent>, x: QueuedEvent, p: int)
    requires
        stable_sort_of(out, input),
        0 <= p <= out.len(),
        forall|k: int| 0 <= k < p ==> (#[trigger] out[k]).time <= x.time,
        forall|k: int| p <= k < out.len() ==> (#[trigger] out[k]).time > x.time,
    ensures
        stable_sort_of(out.insert(p, x), input.push(x)),
{
    let res = out.insert(p, x);
    let pre = out.subrange(0, p);
    let post = out.subrange(p, out.len() as int);
    assert(out =~= pre + post);
    assert(res =~= pre.push(x) + post);
    assert forall|i: int, j: int| 0 <= i <= j < res.len() implies #[trigger] res[i].time
        <= #[trigger] res[j].time by {
        if i < p && j < p {
        } else if i < p && j == p {
        } else if i < p {
            assert(res[j] == out[j - 1]);
        } else if i == p && j == p {
        } else if i == p {
            assert(res[j] == out[j - 1]);
        } else {
            assert(res[i] == out[i - 1]);
            assert(res[j] == out[j - 1]);
        }
    }
    assert forall|t: u32| #[trigger] res.filter(at_time(t)) == input.push(x).filter(at_time(t)) by {
        let q = at_time(t);
        Seq::filter_distributes_over_add(pre.push(x), post, q);
        Seq::filter_distributes_over_add(pre, post, q);
        lemma_filter_push(pre, x, q);
        lemma_filter_push(input, x, q);
        assert(out.filter(q) == input.filter(q));
        if x.time == t {
            assert forall|i: int| 0 <= i < post.len() implies !q(#[trigger] post[i]) by {
                assert(post[i] == out[p + i]);
            }
            lemma_filter_none(post, q);
            assert(out.filter(q) =~= pre.filter(q));
            assert(res.filter(q) =~= pre.filter(q).push(x));
        } else {
            assert(res.filter(q) =~= pre.filter(q) + post.filter(q));
        }
    }
}

/// The events of `input` in a stable order by sample offset.
fn stable_sort_by_time(input: &Vec<QueuedEvent>) -> (out: Vec<QueuedEvent>)
    ensures
        stable_sort_of(out@, input@),
        out@.to_multiset() == input@.to_multiset(),
{
    let mut out: Vec<QueuedEvent> = Vec::new();
    let mut i: usize = 0;
    proof {
        reveal(Seq::filter);
        assert(input@.subrange(0, 0) =~= Seq::<QueuedEvent>::empty());
    }
    while i < input.len()
        invariant
            i <= input.len(),
            stable_sort_of(out@, input@.subrange(0, i as int)),
            out@.to_multiset() == input@.subrange(0, i as int).to_multiset(),
            out.len() == i,
        decreases input.len() - i,
    {
        let x = input[i];
        let mut p: usize = 0;
        while p < out.len() && out[p].time <= x.time
            invariant
                p <= out.len(),
                sorted_by_time(out@),
                forall|k: int| 0 <= k < p ==> (#[trigger] out@[k]).time <= x.time,
            decreases out.len() - p,
        {
            p = p + 1;
        }
        proof {
            assert forall|k: int| p <= k < out.len() implies (#[trigger] out@[k]).time > x.time by {
                assert(out@[p as int].time > x.time);
                assert(out@[p as int].time <= out@[k].time);
            }
            lemma_insert_stable(out@, input@.subrange(0, i as int), x, p as int);
            assert(input@.subrange(0, i as int).push(x) =~= input@.subrange(0, i + 1));
            vstd::seq_lib::to_multiset_insert(out@, p as int, x);
            input@.subrange(0, i as int).to_multiset_ensures();
        }
        out.insert(p, x);
        i = i + 1;
    }
    proof {
        assert(input@.subrange(0, input.len() as int) =~= input@);
    }
    out
}

/// Law: in a queue ordered by sample offset, the last event is the latest, so judging a block by
/// the last event's offset, as a process call does, judges every event.
pub proof fn law_ordered_queue_fits_by_last(events: Seq<QueuedEvent>, samples: u32)
    requires
        sorted_by_time(events),
    ensures
        (events.len() == 0 || events.last().time < samples) <==> forall|i: int|
            0 <= i < events.len() ==> (#[trigger] events[i]).time < samples,
{
    if events.len() > 0 {
        assert forall|i: int| 0 <= i < events.len() implies (#[trigger] events[i]).time <= events.last().time by {
            assert(events[i].time <= events[events.len() - 1].time);
        }
    }
}

/// The events handed to the plugin for one process call.
pub struct InputEventQueue {
    events: Vec<QueuedEvent>,
}

impl View for InputEventQueue {
    type V = Seq<QueuedEvent>;

    closed spec fn view(&self) -> Seq<QueuedEvent> {
        self.events@
    }
}

impl InputEventQueue {
    /// An empty queue.
    pub fn new() -> (r: Self)
        ensures
            r@ == Seq::<QueuedEvent>::empty(),
    {
        InputEventQueue { events: Vec::new() }
    }

    /// Removes every event.
    pub fn clear(&mut self)
        ensures
            final(self)@ == Seq::<QueuedEvent>::empty(),
    {
        self.events = Vec::new();
    }

    /// The sample offset of the last event in the queue, if there is one.
    pub fn last_event_time(&self) -> (r: Option<u32>)
        ensures
            r == (if self@.len() == 0 { None } else { Some(self@.last().time) }),
    {
        let n = self.events.len();
        if n == 0 {
            None
        } else {
            Some(self.events[n - 1].time)
        }
    }

    /// Appends events. When the queue held events already, the whole queue is then sorted by
    /// sample offset, keeping the order of events at the same offset; events added to an empty
    /// queue keep the order they were given in.
    pub fn add_events(&mut self, extend: Vec<QueuedEvent>)
        ensures
            old(self)@.len() == 0 ==> final(self)@ == extend@,
            old(self)@.len() > 0 ==> stable_sort_of(final(self)@, old(self)@ + extend@),
            final(self)@.to_multiset() == (old(self)@ + extend@).to_multiset(),
    {
        let was_empty = self.events.len() == 0;
        let mut all = self.events.clone();
        let mut extra = extend;
        all.append(&mut extra);
        if was_empty {
            self.events = all;
        } else {
            self.events = stable_sort_by_time(&all);
        }
    }

    /// The number of events in the queue.
    pub fn size(&self) -> (r: usize)
        ensures
            r == self@.len(),
    {
        self.events.len()
    }

    /// The event at `index`, or `None` when the index is out of bounds.
    pub fn get(&self, index: usize) -> (r: Option<QueuedEvent>)
        ensures
            r == (if index < self@.len() { Some(self@[index as int]) } else { None }),
    {
        if index < self.events.len() {
            Some(self.events[index])
        } else {
            None
        }
    }

    /// Whether every event falls inside a block of `samples` samples, judged by the last event
    /// as a process call does before it runs.
    pub fn fits_block(&self, samples: u32) -> (r: bool)
        ensures
            r == (self@.len() == 0 || self@.last().time < samples),
    {
        match self.last_event_time() {
            None => true,
            Some(t) => t < samples,
        }
    }
}

/// The events a plugin sent back during one process call, in the order it sent them.
pub struct OutputEventQueue {
    events: Vec<QueuedEvent>,
}

impl View for OutputEventQueue {
    type V = Seq<QueuedEvent>;

    closed spec fn view(&self) -> Seq<QueuedEvent> {
        self.events@
    }
}

impl OutputEventQueue {
    /// An empty queue.
    pub fn new() -> (r: Self)
        ensures
            r@ == Seq::<QueuedEvent>::empty(),
    {
        OutputEventQueue { events: Vec::new() }
    }

    /// Removes every event.
    pub fn clear(&mut self)
        ensures
            final(self)@ == Seq::<QueuedEvent>::empty(),
    {
        self.events = Vec::new();
    }

    /// Records an event the plugin pushed. Pushing always succeeds.
    pub fn try_push(&mut self, event: QueuedEvent) -> (r: bool)
        ensures
            r,
            final(self)@ == old(self)@.push(event),
    {
        self.events.push(event);
        true
    }

    /// The events pushed so far, in order.
    pub fn read(&self) -> (r: Vec<QueuedEvent>)
        ensures
            r@ == self@,
    {
        self.events.clone()
    }
}

/// Why the events a plugin sent back are refused.
#[derive(Clone, Copy, Debug, PartialEq, Eq, Structural)]
pub enum OutputEventError {
    /// An event at sample `time` came after one at the later sample `previous`.
    OutOfOrder { time: u32, previous: u32 },
    /// An event at sample `time` lies outside a block of `block_size` samples.
    BeyondBlock { time: u32, block_size: u32 },
}

/// What is wrong with the event at `i`, judged against the event before it and the block size.
pub open spec fn event_error_at(events: Seq<QueuedEvent>, i: int, block_size: u32) -> Option<OutputEventError> {
    if i > 0 && events[i].time < events[i - 1].time {
        Some(OutputEventError::OutOfOrder { time: events[i].time, previous: events[i - 1].time })
    } else if events[i].time >= block_size {
        Some(OutputEventError::BeyondBlock { time: events[i].time, block_size })
    } else {
        None
    }
}

/// Checks that the events a plugin sent back come in order of sample offset and all lie within
/// the block. The first offending event is reported.
pub fn check_output_events(events: &Vec<QueuedEvent>, block_size: u32) -> (r: Result<(), OutputEventError>)
    ensures
        r is Ok <==> forall|i: int| 0 <= i < events@.len() ==> event_error_at(events@, i, block_size) is None,
        r matches Err(e) ==> exists|i: int|
            0 <= i < events@.len() && event_error_at(events@, i, block_size) == Some(e) && forall|j: int|
                0 <= j < i ==> event_error_at(events@, j, block_size) is None,
{
    let mut last_event_time: u32 = 0;
    let mut i: usize = 0;
    while i < events.len()
        invariant
            i <= events.len(),
            forall|j: int| 0 <= j < i ==> event_error_at(events@, j, block_size) is None,
            i > 0 ==> last_event_time == events@[i - 1].time,
            i == 0 ==> last_event_time == 0,
        decreases events.len() - i,
    {
        let event_time = events[i].time;
        if event_time < last_event_time {
            let e = OutputEventError::OutOfOrder { time: event_time, previous: last_event_time };
            assert(event_error_at(events@, i as int, block_size) == Some(e));
            return Err(e);
        }
        if event_time >= block_size {
            let e = OutputEventError::BeyondBlock { time: event_time, block_size };
            assert(event_error_at(events@, i as int, block_size) == Some(e));
            return Err(e);
        }
        last_event_time = event_time;
        i = i + 1;
    }
    Ok(())
}

/// The kinds of event the validator tells apart when it reads an event a plugin sent.
#[derive(Clone, Copy, Debug, PartialEq, Eq, Structural)]
pub enum EventKind {
    /// A note on, note off, note choke or note end event.
    Note,
    NoteExpression,
    Midi,
    ParamValue,
    ParamMod,
    Transport,
    /// An event of another space or of a type the validator does not handle.
    Unknown,
}

/// The kind of an event with the given header fields.
pub open spec fn event_kind_spec(space_id: u16, type_: u16) -> EventKind {
    if space_id != CORE_EVENT_SPACE_ID {
        EventKind::Unknown
    } else if type_ == EVENT_NOTE_ON || type_ == EVENT_NOTE_OFF || type_ == EVENT_NOTE_CHOKE || type_
        == EVENT_NOTE_END {
        EventKind::Note
    } else if type_ == EVENT_NOTE_EXPRESSION {
        EventKind::NoteExpression
    } else if type_ == EVENT_PARAM_VALUE {
        EventKind::ParamValue
    } else if type_ == EVENT_PARAM_MOD {
        EventKind::ParamMod
    } else if type_ == EVENT_MIDI {
        EventKind::Midi
    } else if type_ == EVENT_TRANSPORT {
        EventKind::Transport
    } else {
        EventKind::Unknown
    }
}

/// Tells which kind of event a header with this space and type announces.
pub fn event_kind(space_id: u16, type_: u16) -> (r: EventKind)
    ensures
        r == event_kind_spec(space_id, type_),
{
    if space_id != CORE_EVENT_SPACE_ID {
        return EventKind::Unknown;
    }
    match type_ {
        0 | 1 | 2 | 3 => EventKind::Note,
        4 => EventKind::NoteExpression,
        5 => EventKind::ParamValue,
        6 => EventKind::ParamMod,
        10 => EventKind::Midi,
        9 => EventKind::Transport,
        _ => EventKind::Unknown,
    }
}

} // verus!
