//! The pitch tracker: the notes that are held, in the order in which they
//! arrived, and the table that gives each note its playback rate.

use vstd::prelude::*;
use vstd::set_lib::{lemma_int_range, lemma_len_subset, set_int_range};

verus! {

/// The number of notes that MIDI knows, and of entries in the rate table.
pub const NOTES: usize = 128;

/// One event of the host's MIDI stream, as far as the tracker tells events
/// apart.
#[derive(Clone, Copy, Debug, PartialEq, Eq, Structural)]
pub enum MidiEvent {
    /// A key went down.
    NoteOn { note: u8 },
    /// A key came up.
    NoteOff { note: u8 },
    /// Any event that is neither of the two.
    Other,
}

/// What draining a batch of events does when it meets an event that is
/// neither a note-on nor a note-off.
#[derive(Clone, Copy, Debug, PartialEq, Eq, Structural)]
pub enum DrainPolicy {
    /// Stop there: the rest of the batch is dropped.
    StopAtOther,
    /// Pass over it and go on with the rest of the batch.
    SkipOther,
}

impl MidiEvent {
    /// True unless the event names a note that MIDI does not know.
    pub open spec fn in_range(self) -> bool {
        match self {
            MidiEvent::NoteOn { note } => note < NOTES,
            MidiEvent::NoteOff { note } => note < NOTES,
            MidiEvent::Other => true,
        }
    }
}

/// An event together with the frame of the block on which it falls.
#[derive(Clone, Copy, Debug, PartialEq, Eq, Structural)]
pub struct TimedEvent {
    pub timing: u32,
    pub event: MidiEvent,
}

/// The events of a block that fall on `frame`, in the order of the block.
pub open spec fn stamped(events: Seq<TimedEvent>, frame: u32) -> Seq<MidiEvent>
    decreases events.len(),
{
    if events.len() == 0 {
        Seq::empty()
    } else if events.last().timing == frame {
        stamped(events.drop_last(), frame).push(events.last().event)
    } else {
        stamped(events.drop_last(), frame)
    }
}

/// Every event that falls on a frame is an event of the block: if all
/// events of the block name notes that MIDI knows, so do those of the frame.
pub proof fn lemma_stamped_in_range(events: Seq<TimedEvent>, frame: u32)
    requires
        forall|i: int| 0 <= i < events.len() ==> (#[trigger] events[i]).event.in_range(),
    ensures
        forall|k: int|
            0 <= k < stamped(events, frame).len() ==> {
                (#[trigger] stamped(events, frame)[k]).in_range()
            },
    decreases events.len(),
{
    if events.len() > 0 {
        let front = events.drop_last();
        assert forall|i: int| 0 <= i < front.len() implies {
            (#[trigger] front[i]).event.in_range()
        } by {
            assert(front[i] == events[i]);
        }
        lemma_stamped_in_range(front, frame);
        let last = events[events.len() - 1];
        assert(last.event.in_range());
        let here = stamped(events, frame);
        let before = stamped(front, frame);
        assert forall|k: int| 0 <= k < here.len() implies (#[trigger] here[k]).in_range() by {
            if k < before.len() {
                assert(here[k] == before[k]);
            } else {
                assert(here[k] == last.event);
            }
        }
    }
}

/// Collects into `batch`, which is emptied first, the events of a block that
/// fall on `frame`, in the order of the block.
pub fn batch_for(events: &Vec<TimedEvent>, frame: u32, batch: &mut Vec<MidiEvent>)
    ensures
        final(batch)@ == stamped(events@, frame),
        (forall|i: int| 0 <= i < events@.len() ==> (#[trigger] events@[i]).event.in_range())
            ==> (forall|k: int|
            0 <= k < final(batch)@.len() ==> (#[trigger] final(batch)@[k]).in_range()),
{
    batch.clear();
    let mut i: usize = 0;
    while i < events.len()
        invariant
            i <= events@.len(),
            batch@ == stamped(events@.take(i as int), frame),
        decreases events@.len() - i,
    {
        let timed: TimedEvent = events[i];
        proof {
            let head = events@.take(i + 1);
            assert(head.drop_last() =~= events@.take(i as int));
            assert(head.last() == timed);
        }
        if timed.timing == frame {
            batch.push(timed.event);
        }
        i = i + 1;
    }
    proof {
        assert(events@.take(i as int) =~= events@);
        if forall|i: int| 0 <= i < events@.len() ==> (#[trigger] events@[i]).event.in_range() {
            lemma_stamped_in_range(events@, frame);
        }
    }
}

/// The held notes after a note-on: `note` goes to the end unless it is held
/// already.
pub open spec fn with_note(held: Seq<u8>, note: u8) -> Seq<u8> {
    if held.contains(note) {
        held
    } else {
        held.push(note)
    }
}

/// The held notes after a note-off: the first occurrence of `note` leaves,
/// and nothing changes if there is none.
pub open spec fn without_note(held: Seq<u8>, note: u8) -> Seq<u8> {
    held.remove_value(note)
}

/// The held notes after one event.
pub open spec fn after_event(held: Seq<u8>, event: MidiEvent) -> Seq<u8> {
    match event {
        MidiEvent::NoteOn { note } => with_note(held, note),
        MidiEvent::NoteOff { note } => without_note(held, note),
        MidiEvent::Other => held,
    }
}

/// True when draining under `policy` ends at `event`.
pub open spec fn stops_at(event: MidiEvent, policy: DrainPolicy) -> bool {
    event == MidiEvent::Other && policy == DrainPolicy::StopAtOther
}

/// The held notes after a batch of events has been drained under `policy`.
pub open spec fn drained(held: Seq<u8>, batch: Seq<MidiEvent>, policy: DrainPolicy) -> Seq<u8>
    decreases batch.len(),
{
    if batch.len() == 0 || stops_at(batch[0], policy) {
        held
    } else {
        drained(after_event(held, batch[0]), batch.drop_first(), policy)
    }
}

/// The number of events at the head of `batch` that draining under `policy`
/// takes in before it ends.
pub open spec fn taken(batch: Seq<MidiEvent>, policy: DrainPolicy) -> nat
    decreases batch.len(),
{
    if batch.len() == 0 || stops_at(batch[0], policy) {
        0
    } else {
        1 + taken(batch.drop_first(), policy)
    }
}

/// True when no note occurs twice in `held` and every note is one that MIDI
/// knows.
pub open spec fn tidy(held: Seq<u8>) -> bool {
    &&& held.no_duplicates()
    &&& forall|i: int| 0 <= i < held.len() ==> held[i] < NOTES
}

/// No more notes can be held at once than MIDI knows.
pub proof fn lemma_tidy_fits(held: Seq<u8>)
    requires
        tidy(held),
    ensures
        held.len() <= NOTES,
{
    let wide = held.map_values(|note: u8| note as int);
    assert forall|i: int, j: int|
        0 <= i < wide.len() && 0 <= j < wide.len() && i != j implies wide[i] != wide[j] by {
        assert(held[i] != held[j]);
    }
    wide.unique_seq_to_set();
    lemma_int_range(0, NOTES as int);
    let notes = set_int_range(0, NOTES as int);
    assert forall|n: int| wide.to_set().contains(n) implies notes.contains(n) by {
        let i = choose|i: int| 0 <= i < wide.len() && wide[i] == n;
        assert(held[i] < NOTES);
    }
    lemma_len_subset(wide.to_set(), notes);
}

/// Removing the entry at `at` keeps a tidy sequence tidy, and if the entry
/// was `note`, the note is gone.
proof fn lemma_remove_tidy(held: Seq<u8>, at: int)
    requires
        tidy(held),
        0 <= at < held.len(),
    ensures
        tidy(held.remove(at)),
        !held.remove(at).contains(held[at]),
{
    let rest = held.remove(at);
    assert forall|i: int| 0 <= i < rest.len() implies rest[i] == held[if i < at {
        i
    } else {
        i + 1
    }] by {}
    assert forall|i: int, j: int|
        0 <= i < rest.len() && 0 <= j < rest.len() && i != j implies rest[i] != rest[j] by {
        let a = if i < at { i } else { i + 1 };
        let b = if j < at { j } else { j + 1 };
        assert(held[a] != held[b]);
    }
    if rest.contains(held[at]) {
        let i = choose|i: int| 0 <= i < rest.len() && rest[i] == held[at];
        let a = if i < at { i } else { i + 1 };
        assert(held[a] != held[at]);
    }
}

/// A note-on keeps the held notes free of repetition, and afterwards the
/// note is held.
pub proof fn lemma_with_note_tidy(held: Seq<u8>, note: u8)
    requires
        tidy(held),
        note < NOTES,
    ensures
        tidy(with_note(held, note)),
        with_note(held, note).contains(note),
{
    if !held.contains(note) {
        let more = held.push(note);
        assert(more[held.len() as int] == note);
        assert forall|i: int, j: int|
            0 <= i < more.len() && 0 <= j < more.len() && i != j implies more[i] != more[j] by {
            if i < held.len() {
                assert(held.contains(more[i]));
            }
            if j < held.len() {
                assert(held.contains(more[j]));
            }
        }
    }
}

/// A note-off keeps the held notes free of repetition, and afterwards the
/// note is not held.
pub proof fn lemma_without_note_tidy(held: Seq<u8>, note: u8)
    requires
        tidy(held),
    ensures
        tidy(without_note(held, note)),
        !without_note(held, note).contains(note),
{
    held.index_of_first_ensures(note);
    match held.index_of_first(note) {
        Some(at) => {
            lemma_remove_tidy(held, at);
        },
        None => {},
    }
}

/// Whatever sequence of note-ons and note-offs is drained, under either
/// policy, no note is ever held twice.
pub proof fn lemma_drained_tidy(held: Seq<u8>, batch: Seq<MidiEvent>, policy: DrainPolicy)
    requires
        tidy(held),
        forall|i: int| 0 <= i < batch.len() ==> (#[trigger] batch[i]).in_range(),
    ensures
        tidy(drained(held, batch, policy)),
    decreases batch.len(),
{
    if batch.len() == 0 || stops_at(batch[0], policy) {
    } else {
        match batch[0] {
            MidiEvent::NoteOn { note } => {
                lemma_with_note_tidy(held, note);
            },
            MidiEvent::NoteOff { note } => {
                lemma_without_note_tidy(held, note);
            },
            MidiEvent::Other => {},
        }
        let rest = batch.drop_first();
        assert forall|i: int| 0 <= i < rest.len() implies (#[trigger] rest[i]).in_range() by {
            assert(rest[i] == batch[i + 1]);
        }
        lemma_drained_tidy(after_event(held, batch[0]), rest, policy);
    }
}

/// Draining a batch in two parts gives what draining it whole gives, as long
/// as the first part is taken in to its end.
pub proof fn lemma_drained_split(held: Seq<u8>, batch: Seq<MidiEvent>, policy: DrainPolicy, n: int)
    requires
        0 <= n <= taken(batch, policy),
    ensures
        n <= batch.len(),
        drained(held, batch, policy) == drained(
            drained(held, batch.take(n), policy),
            batch.skip(n),
            policy,
        ),
        taken(batch.take(n), policy) == n,
        taken(batch, policy) == n + taken(batch.skip(n), policy),
    decreases n,
{
    if n == 0 {
        assert(batch.take(0).len() == 0);
        assert(batch.skip(0) =~= batch);
    } else {
        let rest = batch.drop_first();
        lemma_drained_split(after_event(held, batch[0]), rest, policy, n - 1);
        assert(batch.take(n)[0] == batch[0]);
        assert(batch.take(n).drop_first() =~= rest.take(n - 1));
        assert(batch.skip(n) =~= rest.skip(n - 1));
    }
}

/// The notes that are held and the rate of every note.
pub struct PitchTracker {
    held: Vec<u8>,
    rates: [i32; 128],
}

impl PitchTracker {
    #[verifier::type_invariant]
    spec fn held_is_tidy(self) -> bool {
        tidy(self.held@)
    }

    /// The held notes, oldest first.
    pub closed spec fn held(self) -> Seq<u8> {
        self.held@
    }

    /// The rate table: entry `n` is the playback rate of note `n`, in
    /// millionths.
    pub closed spec fn rates(self) -> Seq<i32> {
        self.rates@
    }

    /// A tracker that holds no note, with `rates` as its rate table.
    pub fn new(rates: [i32; 128]) -> (tracker: Self)
        ensures
            tracker.held() == Seq::<u8>::empty(),
            tracker.rates() == rates@,
    {
        PitchTracker { held: Vec::with_capacity(NOTES), rates }
    }

    /// Replaces the rate table and keeps the held notes.
    pub fn set_rates(&mut self, rates: [i32; 128])
        ensures
            final(self).rates() == rates@,
            final(self).held() == old(self).held(),
    {
        proof {
            use_type_invariant(&*self);
        }
        self.rates = rates;
    }

    /// Moves the held notes out and leaves none behind.
    fn take_held(&mut self) -> (held: Vec<u8>)
        ensures
            held@ == old(self).held(),
            tidy(held@),
            final(self).held() == Seq::<u8>::empty(),
            final(self).rates() == old(self).rates(),
    {
        proof {
            use_type_invariant(&*self);
        }
        let mut emptied = PitchTracker { held: Vec::new(), rates: self.rates };
        core::mem::swap(self, &mut emptied);
        emptied.held
    }

    /// Puts `held` in the place of the held notes.
    fn put_held(&mut self, held: Vec<u8>)
        requires
            tidy(held@),
        ensures
            final(self).held() == held@,
            final(self).rates() == old(self).rates(),
    {
        *self = PitchTracker { held, rates: self.rates };
    }

    /// The index of the first occurrence of `note` among the held notes.
    fn find(&self, note: u8) -> (found: Option<usize>)
        ensures
            match found {
                Some(at) => {
                    &&& at < self.held@.len()
                    &&& self.held@[at as int] == note
                    &&& self.held@.index_of_first(note) == Some(at as int)
                },
                None => !self.held@.contains(note),
            },
    {
        let mut i: usize = 0;
        while i < self.held.len()
            invariant
                i <= self.held@.len(),
                forall|j: int| 0 <= j < i ==> self.held@[j] != note,
            decreases self.held@.len() - i,
        {
            if self.held[i] == note {
                proof {
                    self.held@.index_of_first_ensures(note);
                }
                return Some(i);
            }
            i = i + 1;
        }
        None
    }

    /// Takes `note` into the held notes, at the end, unless it is held
    /// already.
    pub fn note_on(&mut self, note: u8)
        requires
            note < NOTES,
        ensures
            final(self).held() == with_note(old(self).held(), note),
            final(self).held().no_duplicates(),
            final(self).rates() == old(self).rates(),
    {
        proof {
            use_type_invariant(&*self);
            lemma_with_note_tidy(self.held@, note);
        }
        if self.find(note).is_none() {
            let mut held = self.take_held();
            held.push(note);
            self.put_held(held);
        }
    }

    /// Takes the first occurrence of `note` out of the held notes. A note
    /// that is not held changes nothing.
    pub fn note_off(&mut self, note: u8)
        ensures
            final(self).held() == without_note(old(self).held(), note),
            final(self).held().no_duplicates(),
            final(self).rates() == old(self).rates(),
    {
        proof {
            use_type_invariant(&*self);
            lemma_without_note_tidy(self.held@, note);
        }
        match self.find(note) {
            Some(at) => {
                let mut held = self.take_held();
                held.remove(at);
                self.put_held(held);
            },
            None => {
                proof {
                    self.held@.index_of_first_ensures(note);
                }
            },
        }
    }

    /// Applies one event to the held notes.
    pub fn handle(&mut self, event: MidiEvent)
        requires
            event.in_range(),
        ensures
            final(self).held() == after_event(old(self).held(), event),
            final(self).held().no_duplicates(),
            final(self).rates() == old(self).rates(),
    {
        proof {
            use_type_invariant(&*self);
        }
        match event {
            MidiEvent::NoteOn { note } => self.note_on(note),
            MidiEvent::NoteOff { note } => self.note_off(note),
            MidiEvent::Other => {},
        }
    }

    /// Drains one frame's batch of events into the held notes, in order, and
    /// returns how many events were taken in. Under
    /// [`DrainPolicy::StopAtOther`] draining ends at the first event that is
    /// neither a note-on nor a note-off, and what follows it in the batch is
    /// dropped; under [`DrainPolicy::SkipOther`] such events are passed over
    /// and every note event of the batch is applied.
    pub fn drain(&mut self, batch: &Vec<MidiEvent>, policy: DrainPolicy) -> (count: usize)
        requires
            forall|i: int| 0 <= i < batch@.len() ==> (#[trigger] batch@[i]).in_range(),
        ensures
            final(self).held() == drained(old(self).held(), batch@, policy),
            count == taken(batch@, policy),
            final(self).held().no_duplicates(),
            final(self).rates() == old(self).rates(),
    {
        let mut i: usize = 0;
        let mut stopped: bool = false;
        proof {
            assert(batch@.take(0).len() == 0);
        }
        while !stopped && i < batch.len()
            invariant
                i <= batch@.len(),
                forall|k: int| 0 <= k < batch@.len() ==> (#[trigger] batch@[k]).in_range(),
                i <= taken(batch@, policy),
                stopped ==> i < batch@.len() && stops_at(batch@[i as int], policy),
                self.held() == drained(old(self).held(), batch@.take(i as int), policy),
                self.rates() == old(self).rates(),
            decreases batch@.len() - i + if stopped { 0int } else { 1int },
        {
            let event: MidiEvent = batch[i];
            proof {
                lemma_drained_split(old(self).held(), batch@, policy, i as int);
                assert(batch@.skip(i as int)[0] == event);
            }
            let stop: bool = match event {
                MidiEvent::Other => match policy {
                    DrainPolicy::StopAtOther => true,
                    DrainPolicy::SkipOther => false,
                },
                _ => false,
            };
            if stop {
                stopped = true;
            } else {
                self.handle(event);
                proof {
                    let rest = batch@.skip(i as int);
                    assert(taken(rest, policy) == 1 + taken(rest.drop_first(), policy));
                    lemma_drained_split(old(self).held(), batch@, policy, i + 1);
                    let head = batch@.take(i + 1);
                    let before = drained(old(self).held(), batch@.take(i as int), policy);
                    lemma_drained_split(old(self).held(), head, policy, i as int);
                    assert(head.take(i as int) =~= batch@.take(i as int));
                    assert(head.skip(i as int) =~= seq![event]);
                    assert(seq![event].drop_first().len() == 0);
                    assert(drained(after_event(before, event), seq![event].drop_first(), policy)
                        == after_event(before, event));
                    assert(drained(before, seq![event], policy) == after_event(before, event));
                }
                i = i + 1;
            }
        }
        proof {
            use_type_invariant(&*self);
            lemma_drained_split(old(self).held(), batch@, policy, i as int);
            if stopped {
                assert(batch@.skip(i as int)[0] == batch@[i as int]);
            } else {
                assert(batch@.skip(i as int).len() == 0);
            }
        }
        i
    }

    /// The held notes, oldest first.
    pub fn active_notes(&self) -> (notes: &Vec<u8>)
        ensures
            notes@ == self.held(),
            notes@.no_duplicates(),
            notes@.len() <= NOTES,
            forall|i: int| 0 <= i < notes@.len() ==> notes@[i] < NOTES,
    {
        proof {
            use_type_invariant(self);
            lemma_tidy_fits(self.held@);
        }
        &self.held
    }

    /// The playback rate of `note`, in millionths.
    pub fn rate_for(&self, note: u8) -> (rate: i32)
        requires
            note < NOTES,
        ensures
            rate == self.rates()[note as int],
    {
        self.rates[note as usize]
    }
}

} // verus!
