//! The Event Buffer: a bounded ring of the current Instance's recent QMP events, read by
//! cursor, with a race-safe long-poll.
//!
//! Every captured event is stamped with a sequence number that grows for the life of the
//! server. A reader pages by passing the cursor of its last read; events that it has not
//! seen come back as long as they were not evicted. A long-poll that cannot be answered at
//! once is registered as a waiter, and settled by the next matching event, by its timeout or
//! by a reset.

use std::collections::VecDeque;

use vstd::prelude::*;

use crate::qemu::qmp_client::{QmpEvent, QmpEventText};
use crate::text;

verus! {

/// The capacity of an Event Buffer when none is configured.
pub const DEFAULT_EVENT_BUFFER_SIZE: usize = 256;

// ---------------------------------------------------------------------------
// Events
// ---------------------------------------------------------------------------

/// A captured QMP event, stamped with its sequence number.
#[derive(Debug, PartialEq, Eq)]
pub struct BufferedEvent {
    /// The sequence number: strictly increasing, never reused.
    pub seq: u64,
    /// The QMP event name.
    pub event: String,
    /// The event's payload as JSON text, if any.
    pub data: Option<String>,
    /// The `{seconds, microseconds}` stamp as JSON text, if any.
    pub timestamp: Option<String>,
}

/// What a captured event says.
pub struct EventText {
    /// The sequence number.
    pub seq: nat,
    /// The event itself.
    pub says: QmpEventText,
}

impl View for BufferedEvent {
    type V = EventText;

    open spec fn view(&self) -> EventText {
        EventText {
            seq: self.seq as nat,
            says: QmpEventText {
                event: self.event@,
                data: text::string_of(self.data),
                timestamp: text::string_of(self.timestamp),
            },
        }
    }
}

impl Clone for BufferedEvent {
    fn clone(&self) -> (r: BufferedEvent)
        ensures
            r@ == self@,
    {
        BufferedEvent {
            seq: self.seq,
            event: self.event.clone(),
            data: text::clone_option(&self.data),
            timestamp: text::clone_option(&self.timestamp),
        }
    }
}

/// What captured events say.
pub open spec fn events_text(events: Seq<BufferedEvent>) -> Seq<EventText> {
    events.map_values(|e: BufferedEvent| e@)
}

/// The result of a read: the matching events, oldest first, and the latest cursor.
#[derive(Debug, PartialEq, Eq)]
pub struct ReadResult {
    /// The matching events, oldest first.
    pub events: Vec<BufferedEvent>,
    /// The latest sequence number, to page from.
    pub cursor: u64,
}

/// What a long-poll waits for.
#[derive(Debug, Clone)]
pub struct WaitForEventOptions {
    /// Only settle on this event name; `None` settles on any event.
    pub event_name: Option<String>,
    /// How long to wait, in milliseconds; zero polls without waiting.
    pub timeout_ms: u64,
    /// Also consider events already buffered after this cursor.
    pub since_cursor: Option<u64>,
}

/// The result of a long-poll. A timeout is an ordinary outcome.
#[derive(Debug, PartialEq, Eq)]
pub struct WaitForEventResult {
    /// Whether no matching event arrived in time.
    pub timed_out: bool,
    /// The matching event, unless the wait timed out.
    pub event: Option<BufferedEvent>,
    /// The cursor to resume from.
    pub cursor: u64,
}

impl WaitForEventResult {
    /// The result says that the wait was answered by `e`.
    pub open spec fn answers(self, e: EventText) -> bool {
        &&& !self.timed_out
        &&& self.event matches Some(x) && x@ == e
        &&& self.cursor == e.seq
    }

    /// The result says that the wait timed out when the cursor stood at `cursor`.
    pub open spec fn expired(self, cursor: nat) -> bool {
        self.timed_out && self.event is None && self.cursor == cursor
    }

    /// The result of a wait that an event answers.
    pub fn matched(event: &BufferedEvent) -> (r: WaitForEventResult)
        ensures
            r.answers(event@),
    {
        WaitForEventResult { timed_out: false, cursor: event.seq, event: Some(event.clone()) }
    }
}

/// What becomes of a long-poll when it is issued.
#[derive(Debug, PartialEq, Eq)]
pub enum WaitOutcome {
    /// It is settled at once.
    Settled(WaitForEventResult),
    /// It waits, under this number.
    Waiting(u64),
}

/// What a captured event does: its stamped form, and the waiters that it settles.
#[derive(Debug, PartialEq, Eq)]
pub struct Appended {
    /// The event as buffered.
    pub event: BufferedEvent,
    /// The numbers of the waiters that it answers, in the order they registered.
    pub woken: Vec<u64>,
}

struct Waiter {
    id: u64,
    event_name: Option<String>,
}

/// A registered long-poll.
pub struct WaiterText {
    /// Its number.
    pub id: u64,
    /// The event name that it waits for; none for any event.
    pub event_name: Option<Seq<char>>,
}

spec fn waiter_text(w: Waiter) -> WaiterText {
    WaiterText { id: w.id, event_name: text::string_of(w.event_name) }
}

spec fn waiters_text(waiters: Seq<Waiter>) -> Seq<WaiterText> {
    waiters.map_values(|w: Waiter| waiter_text(w))
}

// ---------------------------------------------------------------------------
// The model
// ---------------------------------------------------------------------------

/// An event satisfies a name filter.
pub open spec fn matches(name: Option<Seq<char>>, e: EventText) -> bool {
    name matches Some(n) ==> e.says.event == n
}

/// The last `n` of a sequence.
pub open spec fn newest(events: Seq<EventText>, n: nat) -> Seq<EventText> {
    if events.len() <= n {
        events
    } else {
        events.skip(events.len() - n)
    }
}

/// The events after a cursor; all of them where there is none.
pub open spec fn after(events: Seq<EventText>, since: Option<u64>) -> Seq<EventText>
    decreases events.len(),
{
    if events.len() == 0 {
        events
    } else {
        let rest = after(events.drop_last(), since);
        if since matches Some(s) && events.last().seq <= s {
            rest
        } else {
            rest.push(events.last())
        }
    }
}

/// The oldest event after a cursor that satisfies a name filter.
pub open spec fn first_hit(events: Seq<EventText>, since: u64, name: Option<Seq<char>>) -> Option<
    EventText,
>
    decreases events.len(),
{
    if events.len() == 0 {
        None
    } else if events[0].seq > since && matches(name, events[0]) {
        Some(events[0])
    } else {
        first_hit(events.skip(1), since, name)
    }
}

/// The waiters that an event does not answer.
pub open spec fn unanswered(waiters: Seq<WaiterText>, e: EventText) -> Seq<WaiterText>
    decreases waiters.len(),
{
    if waiters.len() == 0 {
        waiters
    } else {
        let rest = unanswered(waiters.drop_last(), e);
        if matches(waiters.last().event_name, e) {
            rest
        } else {
            rest.push(waiters.last())
        }
    }
}

/// The numbers of the waiters that an event answers.
pub open spec fn answered(waiters: Seq<WaiterText>, e: EventText) -> Seq<u64>
    decreases waiters.len(),
{
    if waiters.len() == 0 {
        Seq::empty()
    } else {
        let rest = answered(waiters.drop_last(), e);
        if matches(waiters.last().event_name, e) {
            rest.push(waiters.last().id)
        } else {
            rest
        }
    }
}

/// The waiters with another number.
pub open spec fn without(waiters: Seq<WaiterText>, id: u64) -> Seq<WaiterText>
    decreases waiters.len(),
{
    if waiters.len() == 0 {
        waiters
    } else {
        let rest = without(waiters.drop_last(), id);
        if waiters.last().id == id {
            rest
        } else {
            rest.push(waiters.last())
        }
    }
}

/// The state of an Event Buffer.
pub struct BufferModel {
    /// How many events are retained at most.
    pub capacity: nat,
    /// The retained events, oldest first.
    pub events: Seq<EventText>,
    /// The last sequence number assigned.
    pub cursor: nat,
    /// The registered long-polls, in the order they registered.
    pub waiters: Seq<WaiterText>,
    /// The number of the next long-poll.
    pub next_waiter: u64,
}

impl BufferModel {
    /// The ring is within its capacity, and holds the latest events without a gap.
    pub open spec fn valid(self) -> bool {
        &&& self.capacity >= 1
        &&& self.events.len() <= self.capacity
        &&& self.events.len() <= self.cursor
        &&& forall|i: int|
            0 <= i < self.events.len() ==> (#[trigger] self.events[i]).seq == self.cursor
                - self.events.len() + 1 + i
    }

    /// An event as it is stamped next.
    pub open spec fn stamped(self, says: QmpEventText) -> EventText {
        EventText { seq: self.cursor + 1, says }
    }

    /// The state after an event is captured.
    pub open spec fn appended(self, says: QmpEventText) -> BufferModel {
        BufferModel {
            events: newest(self.events.push(self.stamped(says)), self.capacity),
            cursor: self.cursor + 1,
            waiters: unanswered(self.waiters, self.stamped(says)),
            ..self
        }
    }

    /// The state after events are captured one after another.
    pub open spec fn appended_all(self, all: Seq<QmpEventText>) -> BufferModel
        decreases all.len(),
    {
        if all.len() == 0 {
            self
        } else {
            self.appended_all(all.drop_last()).appended(all.last())
        }
    }

    /// The state after a reset.
    pub open spec fn cleared(self) -> BufferModel {
        BufferModel { events: Seq::empty(), waiters: Seq::empty(), ..self }
    }

    /// The event that answers a long-poll at once, if any.
    pub open spec fn replay(self, name: Option<Seq<char>>, since: Option<u64>) -> Option<
        EventText,
    > {
        match since {
            Some(s) => first_hit(self.events, s, name),
            None => None,
        }
    }

    /// The state after a long-poll is registered.
    pub open spec fn waiting(self, name: Option<Seq<char>>) -> BufferModel {
        BufferModel {
            waiters: self.waiters.push(WaiterText { id: self.next_waiter, event_name: name }),
            next_waiter: if self.next_waiter == u64::MAX {
                0
            } else {
                (self.next_waiter + 1) as u64
            },
            ..self
        }
    }
}

// ---------------------------------------------------------------------------
// The buffer
// ---------------------------------------------------------------------------

/// A bounded ring of events with cursor-based reads and a race-safe long-poll.
pub struct EventBuffer {
    capacity: usize,
    events: VecDeque<BufferedEvent>,
    seq: u64,
    waiters: Vec<Waiter>,
    next_waiter_id: u64,
}

impl View for EventBuffer {
    type V = BufferModel;

    closed spec fn view(&self) -> BufferModel {
        BufferModel {
            capacity: self.capacity as nat,
            events: events_text(self.events@),
            cursor: self.seq as nat,
            waiters: waiters_text(self.waiters@),
            next_waiter: self.next_waiter_id,
        }
    }
}

fn event_matches(filter: &Option<String>, event: &BufferedEvent) -> (r: bool)
    ensures
        r == matches(text::string_of(*filter), event@),
{
    match filter {
        None => true,
        Some(name) => text::str_eq(event.event.as_str(), name.as_str()),
    }
}

impl EventBuffer {
    /// An empty buffer that retains at most `capacity` events.
    pub fn new(capacity: usize) -> (r: EventBuffer)
        requires
            capacity >= 1,
        ensures
            r@.valid(),
            r@ == (BufferModel {
                capacity: capacity as nat,
                events: Seq::empty(),
                cursor: 0,
                waiters: Seq::empty(),
                next_waiter: 1,
            }),
    {
        let r = EventBuffer {
            capacity,
            events: VecDeque::new(),
            seq: 0,
            waiters: Vec::new(),
            next_waiter_id: 1,
        };
        assert(r@.events =~= Seq::empty());
        assert(r@.waiters =~= Seq::empty());
        r
    }

    /// How many events are retained at most.
    pub fn capacity(&self) -> (r: usize)
        ensures
            r == self@.capacity,
    {
        self.capacity
    }

    /// The last sequence number assigned.
    pub fn cursor(&self) -> (r: u64)
        ensures
            r == self@.cursor,
    {
        self.seq
    }

    /// How many events are retained.
    pub fn size(&self) -> (r: usize)
        ensures
            r == self@.events.len(),
    {
        self.events.len()
    }

    /// Capture an event: stamp it with the next sequence number, retain it (evicting the
    /// oldest beyond the capacity), and settle every waiter that it answers.
    pub fn append(&mut self, event: QmpEvent) -> (r: Appended)
        requires
            old(self)@.valid(),
            old(self)@.cursor < u64::MAX,
        ensures
            final(self)@.valid(),
            final(self)@ == old(self)@.appended(event@),
            r.event@ == old(self)@.stamped(event@),
            r.woken@ == answered(old(self)@.waiters, old(self)@.stamped(event@)),
    {
        let ghost start = self@;
        let ghost says = event@;
        self.seq = self.seq + 1;
        let buffered = BufferedEvent {
            seq: self.seq,
            event: event.event,
            data: event.data,
            timestamp: event.timestamp,
        };
        assert(buffered@ == start.stamped(says));
        let copy = buffered.clone();
        self.events.push_back(copy);
        assert(events_text(self.events@) =~= start.events.push(start.stamped(says)));
        if self.events.len() > self.capacity {
            let ghost full = self.events@;
            let _ = self.events.pop_front();
            assert(events_text(self.events@) =~= events_text(full).skip(1));
        }
        assert(self@.events == newest(start.events.push(start.stamped(says)), start.capacity));
        let woken = self.settle(&buffered);
        assert(self@.valid()) by {
            assert forall|i: int| 0 <= i < self@.events.len() implies (
            #[trigger] self@.events[i]).seq == self@.cursor - self@.events.len() + 1 + i by {
                let all = start.events.push(start.stamped(says));
                let k = all.len() - self@.events.len();
                assert(self@.events[i] == all[i + k]);
                if i + k < start.events.len() {
                    assert(all[i + k] == start.events[i + k]);
                }
            }
        }
        Appended { event: buffered, woken }
    }

    fn settle(&mut self, event: &BufferedEvent) -> (r: Vec<u64>)
        ensures
            final(self)@ == (BufferModel {
                waiters: unanswered(old(self)@.waiters, event@),
                ..old(self)@
            }),
            r@ == answered(old(self)@.waiters, event@),
    {
        let ghost start = self@;
        let ghost all = start.waiters;
        let mut woken: Vec<u64> = Vec::new();
        let mut i: usize = 0;
        let ghost mut done: int = 0;
        assert(all.take(0) =~= Seq::empty());
        assert(self@.waiters =~= unanswered(all.take(0), event@) + all.skip(0));
        while i < self.waiters.len()
            invariant
                0 <= done <= all.len(),
                i == unanswered(all.take(done), event@).len(),
                self@ == (BufferModel { waiters: self@.waiters, ..start }),
                self@.waiters == unanswered(all.take(done), event@) + all.skip(done),
                self@.waiters.len() == self.waiters@.len(),
                woken@ == answered(all.take(done), event@),
            decreases all.len() - done,
        {
            let ghost before = self@.waiters;
            assert(before[i as int] == all[done]);
            assert(all.take(done + 1).drop_last() =~= all.take(done));
            if event_matches(&self.waiters[i].event_name, event) {
                let waiter = self.waiters.remove(i);
                woken.push(waiter.id);
                assert(self@.waiters =~= before.remove(i as int));
                assert(self@.waiters =~= unanswered(all.take(done + 1), event@) + all.skip(
                    done + 1,
                ));
            } else {
                i = i + 1;
                assert(self@.waiters =~= unanswered(all.take(done + 1), event@) + all.skip(
                    done + 1,
                ));
            }
            proof {
                done = done + 1;
            }
        }
        assert(done == all.len());
        assert(all.take(done) =~= all);
        assert(self@.waiters =~= unanswered(all, event@));
        woken
    }

    /// The retained events after a cursor (all of them where there is none), oldest first,
    /// and the latest cursor.
    pub fn read(&self, since: Option<u64>) -> (r: ReadResult)
        ensures
            events_text(r.events@) == after(self@.events, since),
            r.cursor == self@.cursor,
    {
        let mut events: Vec<BufferedEvent> = Vec::new();
        let mut i: usize = 0;
        let ghost all = self@.events;
        assert(all.take(0) =~= Seq::empty());
        assert(events_text(events@) =~= after(all.take(0), since));
        while i < self.events.len()
            invariant
                all == events_text(self.events@),
                i <= self.events@.len(),
                events_text(events@) == after(all.take(i as int), since),
            decreases self.events@.len() - i,
        {
            let e = &self.events[i];
            assert(e@ == all[i as int]);
            assert(all.take(i + 1).drop_last() =~= all.take(i as int));
            let newer = match since {
                None => true,
                Some(s) => e.seq > s,
            };
            let ghost before = events@;
            if newer {
                events.push(e.clone());
                assert(events_text(events@) =~= events_text(before).push(all[i as int]));
            }
            i = i + 1;
        }
        assert(all.take(i as int) =~= all);
        ReadResult { events, cursor: self.seq }
    }

    fn find(&self, since: u64, name: &Option<String>) -> (r: Option<&BufferedEvent>)
        ensures
            match r {
                Some(e) => first_hit(self@.events, since, text::string_of(*name)) == Some(e@),
                None => first_hit(self@.events, since, text::string_of(*name)) is None,
            },
    {
        let mut i: usize = 0;
        let ghost all = self@.events;
        assert(all.skip(0) =~= all);
        while i < self.events.len()
            invariant
                all == events_text(self.events@),
                i <= self.events@.len(),
                first_hit(all.skip(i as int), since, text::string_of(*name)) == first_hit(
                    all,
                    since,
                    text::string_of(*name),
                ),
            decreases self.events@.len() - i,
        {
            assert(all.skip(i as int).skip(1) =~= all.skip(i + 1));
            let e = &self.events[i];
            assert(e@ == all.skip(i as int)[0]);
            if e.seq > since && event_matches(name, e) {
                return Some(e);
            }
            i = i + 1;
        }
        None
    }

    /// Long-poll for a matching event. An event already buffered after the given cursor
    /// answers at once; a zero timeout reports a clean timeout; otherwise the poll is
    /// registered, and waits under the number that comes back.
    pub fn wait_for(&mut self, opts: WaitForEventOptions) -> (r: WaitOutcome)
        ensures
            match old(self)@.replay(text::string_of(opts.event_name), opts.since_cursor) {
                Some(e) => r matches WaitOutcome::Settled(x) && x.answers(e) && final(self)@
                    == old(self)@,
                None => if opts.timeout_ms == 0 {
                    r matches WaitOutcome::Settled(x) && x.expired(old(self)@.cursor) && final(self)@ == old(self)@
                } else {
                    r == WaitOutcome::Waiting(old(self)@.next_waiter) && final(self)@ == old(self)@.waiting(text::string_of(opts.event_name))
                },
            },
    {
        if let Some(since) = opts.since_cursor {
            if let Some(hit) = self.find(since, &opts.event_name) {
                return WaitOutcome::Settled(WaitForEventResult::matched(hit));
            }
        }
        if opts.timeout_ms == 0 {
            return WaitOutcome::Settled(self.timed_out());
        }
        let ghost start = self@;
        let id = self.next_waiter_id;
        self.next_waiter_id = if id == u64::MAX {
            0
        } else {
            id + 1
        };
        self.waiters.push(Waiter { id, event_name: opts.event_name });
        assert(self@.waiters =~= start.waiting(text::string_of(opts.event_name)).waiters);
        WaitOutcome::Waiting(id)
    }

    /// The result of a wait that ends now without an event.
    pub fn timed_out(&self) -> (r: WaitForEventResult)
        ensures
            r.expired(self@.cursor),
    {
        WaitForEventResult { timed_out: true, event: None, cursor: self.seq }
    }

    /// End the wait under a number because its time is up: deregister it, and report a clean
    /// timeout.
    pub fn expire(&mut self, id: u64) -> (r: WaitForEventResult)
        ensures
            final(self)@ == (BufferModel { waiters: without(old(self)@.waiters, id), ..old(self)@ }),
            r.expired(old(self)@.cursor),
    {
        let ghost start = self@;
        let ghost all = start.waiters;
        let mut i: usize = 0;
        let ghost mut done: int = 0;
        assert(all.take(0) =~= Seq::empty());
        assert(self@.waiters =~= without(all.take(0), id) + all.skip(0));
        while i < self.waiters.len()
            invariant
                0 <= done <= all.len(),
                i == without(all.take(done), id).len(),
                self@ == (BufferModel { waiters: self@.waiters, ..start }),
                self@.waiters == without(all.take(done), id) + all.skip(done),
                self@.waiters.len() == self.waiters@.len(),
            decreases all.len() - done,
        {
            let ghost before = self@.waiters;
            assert(before[i as int] == all[done]);
            assert(all.take(done + 1).drop_last() =~= all.take(done));
            if self.waiters[i].id == id {
                let _ = self.waiters.remove(i);
                assert(self@.waiters =~= before.remove(i as int));
                assert(self@.waiters =~= without(all.take(done + 1), id) + all.skip(done + 1));
            } else {
                i = i + 1;
                assert(self@.waiters =~= without(all.take(done + 1), id) + all.skip(done + 1));
            }
            proof {
                done = done + 1;
            }
        }
        assert(all.take(done) =~= all);
        assert(self@.waiters =~= without(all, id));
        self.timed_out()
    }

    /// Drop all events and settle every wait as a clean timeout: the numbers of the waiters
    /// come back. The cursor does not rewind.
    pub fn reset(&mut self) -> (r: Vec<u64>)
        ensures
            final(self)@ == old(self)@.cleared(),
            old(self)@.valid() ==> final(self)@.valid(),
            r@ == old(self)@.waiters.map_values(|w: WaiterText| w.id),
    {
        let ghost all = self@.waiters;
        let mut settled: Vec<u64> = Vec::new();
        let mut i: usize = 0;
        while i < self.waiters.len()
            invariant
                i <= self.waiters@.len(),
                all == waiters_text(self.waiters@),
                settled@.len() == i,
                forall|j: int| 0 <= j < i ==> (#[trigger] settled@[j]) == all[j].id,
            decreases self.waiters@.len() - i,
        {
            settled.push(self.waiters[i].id);
            i = i + 1;
        }
        assert(settled@ =~= all.map_values(|w: WaiterText| w.id));
        self.events.clear();
        self.waiters.clear();
        assert(self@.events =~= Seq::empty());
        assert(self@.waiters =~= Seq::empty());
        settled
    }
}

// ---------------------------------------------------------------------------
// Laws
// ---------------------------------------------------------------------------

/// Capturing and resetting keep a buffer valid: it never holds more than its capacity, and
/// what it holds are the latest events without a gap.
pub proof fn buffers_stay_valid(buffer: BufferModel, says: QmpEventText)
    requires
        buffer.valid(),
    ensures
        buffer.appended(says).valid(),
        buffer.cleared().valid(),
{
    let all = buffer.events.push(buffer.stamped(says));
    let next = buffer.appended(says);
    assert forall|i: int| 0 <= i < next.events.len() implies (#[trigger] next.events[i]).seq
        == next.cursor - next.events.len() + 1 + i by {
        let k = all.len() - next.events.len();
        assert(next.events[i] == all[i + k]);
        if i + k < buffer.events.len() {
            assert(all[i + k] == buffer.events[i + k]);
        }
    }
}

/// Sequence numbers strictly increase along a buffer and never exceed the cursor.
pub proof fn sequence_numbers_increase(buffer: BufferModel)
    requires
        buffer.valid(),
    ensures
        forall|i: int, j: int|
            0 <= i < j < buffer.events.len() ==> (#[trigger] buffer.events[i]).seq < (
            #[trigger] buffer.events[j]).seq <= buffer.cursor,
{
}

/// A reset loses the events but not the cursor, so the next event is numbered past every
/// event of the Instance before.
pub proof fn cursors_survive_a_reset(buffer: BufferModel, says: QmpEventText)
    requires
        buffer.valid(),
    ensures
        buffer.cleared().cursor == buffer.cursor,
        buffer.cleared().events.len() == 0,
        forall|i: int|
            0 <= i < buffer.events.len() ==> (#[trigger] buffer.events[i]).seq
                < buffer.cleared().stamped(says).seq,
{
}

proof fn lemma_after_members(events: Seq<EventText>, since: Option<u64>, e: EventText)
    ensures
        after(events, since).contains(e) <==> events.contains(e) && (since matches Some(s) ==> e.seq
            > s),
    decreases events.len(),
{
    if events.len() > 0 {
        let init = events.drop_last();
        let rest = after(init, since);
        lemma_after_members(init, since, e);
        let all = after(events, since);
        assert(events =~= init.push(events.last()));
        if events.contains(e) {
            let i = events.index_of(e);
            if i < init.len() {
                assert(init[i] == e);
                assert(init.contains(e));
            } else {
                assert(e == events.last());
            }
        }
        if init.contains(e) {
            let i = init.index_of(e);
            assert(events[i] == e);
        }
        if rest.contains(e) {
            let i = rest.index_of(e);
            assert(all[i] == e);
        }
        if all.contains(e) {
            let i = all.index_of(e);
            if i < rest.len() {
                assert(rest[i] == e);
            } else {
                assert(e == events.last());
                assert(events[events.len() - 1] == e);
            }
        }
        if !(since matches Some(s) && events.last().seq <= s) {
            assert(all[all.len() - 1] == events.last());
        }
    }
}

/// A read after a cursor returns exactly the retained events with a greater number.
pub proof fn reads_return_what_is_newer(buffer: BufferModel, since: u64, e: EventText)
    ensures
        after(buffer.events, Some(since)).contains(e) <==> buffer.events.contains(e) && e.seq
            > since,
        after(buffer.events, None).contains(e) <==> buffer.events.contains(e),
{
    lemma_after_members(buffer.events, Some(since), e);
    lemma_after_members(buffer.events, None, e);
}

/// The stamped forms of events captured one after another.
pub open spec fn stamps(cursor: nat, all: Seq<QmpEventText>) -> Seq<EventText> {
    Seq::new(all.len(), |i: int| EventText { seq: (cursor + 1 + i) as nat, says: all[i] })
}

proof fn lemma_appended_all(buffer: BufferModel, all: Seq<QmpEventText>)
    requires
        buffer.valid(),
    ensures
        buffer.appended_all(all).valid(),
        buffer.appended_all(all).cursor == buffer.cursor + all.len(),
        buffer.appended_all(all).capacity == buffer.capacity,
        buffer.appended_all(all).events == newest(
            buffer.events + stamps(buffer.cursor, all),
            buffer.capacity,
        ),
    decreases all.len(),
{
    if all.len() == 0 {
        assert(buffer.events + stamps(buffer.cursor, all) =~= buffer.events);
    } else {
        let init = all.drop_last();
        let before = buffer.appended_all(init);
        lemma_appended_all(buffer, init);
        buffers_stay_valid(before, all.last());
        let short = buffer.events + stamps(buffer.cursor, init);
        let long = buffer.events + stamps(buffer.cursor, all);
        assert(long =~= short.push(before.stamped(all.last())));
        assert(newest(before.events.push(before.stamped(all.last())), buffer.capacity) =~= newest(
            long,
            buffer.capacity,
        ));
    }
}

proof fn lemma_after_split(old: Seq<EventText>, new: Seq<EventText>, since: u64)
    requires
        forall|i: int| 0 <= i < old.len() ==> (#[trigger] old[i]).seq <= since,
        forall|i: int| 0 <= i < new.len() ==> (#[trigger] new[i]).seq > since,
    ensures
        after(old + new, Some(since)) == new,
    decreases old.len() + new.len(),
{
    let all = old + new;
    if new.len() > 0 {
        assert(all.drop_last() =~= old + new.drop_last());
        assert(all.last() == new.last());
        assert forall|i: int| 0 <= i < new.drop_last().len() implies (
        #[trigger] new.drop_last()[i]).seq > since by {
            assert(new.drop_last()[i] == new[i]);
        }
        lemma_after_split(old, new.drop_last(), since);
        assert(after(all, Some(since)) =~= new);
    } else if old.len() > 0 {
        assert(all.drop_last() =~= old.drop_last() + new);
        assert(all.last() == old.last());
        assert forall|i: int| 0 <= i < old.drop_last().len() implies (
        #[trigger] old.drop_last()[i]).seq <= since by {
            assert(old.drop_last()[i] == old[i]);
        }
        lemma_after_split(old.drop_last(), new, since);
    } else {
        assert(after(all, Some(since)) =~= new);
    }
}

/// Paging by cursor neither misses nor repeats an event: a read after the cursor of the last
/// read returns exactly the events captured since, in order, less those that the capacity
/// has evicted.
pub proof fn pages_neither_miss_nor_repeat(buffer: BufferModel, all: Seq<QmpEventText>)
    requires
        buffer.valid(),
        buffer.cursor + all.len() <= u64::MAX,
    ensures
        after(buffer.appended_all(all).events, Some(buffer.cursor as u64)) == newest(
            stamps(buffer.cursor, all),
            buffer.capacity,
        ),
{
    lemma_appended_all(buffer, all);
    let since = buffer.cursor as u64;
    let new = stamps(buffer.cursor, all);
    let events = buffer.appended_all(all).events;
    let whole = buffer.events + new;
    if new.len() >= buffer.capacity {
        let kept = newest(new, buffer.capacity);
        assert(events =~= Seq::<EventText>::empty() + kept);
        assert forall|i: int| 0 <= i < kept.len() implies (#[trigger] kept[i]).seq > since by {
            assert(kept[i] == new[i + new.len() - kept.len()]);
        }
        lemma_after_split(Seq::empty(), kept, since);
    } else {
        let dropped: int = if whole.len() <= buffer.capacity {
            0
        } else {
            whole.len() - buffer.capacity
        };
        let kept = buffer.events.skip(dropped);
        assert(events =~= kept + new);
        assert forall|i: int| 0 <= i < kept.len() implies (#[trigger] kept[i]).seq <= since by {
            assert(kept[i] == buffer.events[i + dropped]);
        }
        lemma_after_split(kept, new, since);
        assert(newest(new, buffer.capacity) == new);
    }
}

proof fn lemma_first_hit(events: Seq<EventText>, since: u64, name: Option<Seq<char>>, i: int)
    requires
        0 <= i < events.len(),
        events[i].seq > since,
        matches(name, events[i]),
    ensures
        first_hit(events, since, name) is Some,
    decreases events.len(),
{
    if !(events[0].seq > since && matches(name, events[0])) {
        assert(events.skip(1)[i - 1] == events[i]);
        lemma_first_hit(events.skip(1), since, name, i - 1);
    }
}

/// A long-poll from a cursor cannot lose an event that landed after it and is still
/// buffered: it is answered at once.
pub proof fn waits_are_race_safe(
    buffer: BufferModel,
    since: u64,
    name: Option<Seq<char>>,
    i: int,
)
    requires
        0 <= i < buffer.events.len(),
        buffer.events[i].seq > since,
        matches(name, buffer.events[i]),
    ensures
        buffer.replay(name, Some(since)) is Some,
{
    lemma_first_hit(buffer.events, since, name, i);
}

proof fn lemma_replayed(events: Seq<EventText>, since: u64, name: Option<Seq<char>>)
    requires
        first_hit(events, since, name) is Some,
    ensures
        first_hit(events, since, name)->0.seq > since,
        matches(name, first_hit(events, since, name)->0),
        events.contains(first_hit(events, since, name)->0),
    decreases events.len(),
{
    if events[0].seq > since && matches(name, events[0]) {
        assert(events.contains(events[0]));
    } else {
        let rest = events.skip(1);
        lemma_replayed(rest, since, name);
        let e = first_hit(rest, since, name)->0;
        let k = rest.index_of(e);
        assert(events[k + 1] == e);
    }
}

/// A replay never fires on an event at or before its cursor, nor on one that it does not wait
/// for.
pub proof fn replays_are_new(buffer: BufferModel, since: u64, name: Option<Seq<char>>)
    requires
        buffer.replay(name, Some(since)) is Some,
    ensures
        buffer.replay(name, Some(since))->0.seq > since,
        matches(name, buffer.replay(name, Some(since))->0),
        buffer.events.contains(buffer.replay(name, Some(since))->0),
{
    lemma_replayed(buffer.events, since, name);
}

proof fn lemma_unanswered(waiters: Seq<WaiterText>, e: EventText)
    ensures
        forall|i: int|
            0 <= i < unanswered(waiters, e).len() ==> !matches(
                (#[trigger] unanswered(waiters, e)[i]).event_name,
                e,
            ),
        unanswered(waiters, e).len() + answered(waiters, e).len() == waiters.len(),
        forall|i: int|
            0 <= i < waiters.len() && matches((#[trigger] waiters[i]).event_name, e) ==> answered(
                waiters,
                e,
            ).contains(waiters[i].id),
    decreases waiters.len(),
{
    if waiters.len() > 0 {
        let init = waiters.drop_last();
        lemma_unanswered(init, e);
        let rest = unanswered(init, e);
        let ids = answered(waiters, e);
        assert forall|i: int|
            0 <= i < waiters.len() && matches(
                (#[trigger] waiters[i]).event_name,
                e,
            ) implies ids.contains(waiters[i].id) by {
            let before = answered(init, e);
            if i < init.len() {
                assert(init[i] == waiters[i]);
                let k = before.index_of(waiters[i].id);
                assert(ids[k] == waiters[i].id);
            } else {
                assert(ids[ids.len() - 1] == waiters[i].id);
            }
        }
        assert forall|i: int| 0 <= i < unanswered(waiters, e).len() implies !matches(
            (#[trigger] unanswered(waiters, e)[i]).event_name,
            e,
        ) by {
            if i < rest.len() {
                assert(unanswered(waiters, e)[i] == rest[i]);
            }
        }
    }
}

/// One event settles every wait that it answers, and no other: no waiter that it matches is
/// left behind, and each waiter is either settled or kept.
pub proof fn events_wake_every_match(buffer: BufferModel, says: QmpEventText)
    ensures
        forall|i: int|
            0 <= i < buffer.waiters.len() && matches(
                (#[trigger] buffer.waiters[i]).event_name,
                buffer.stamped(says),
            ) ==> answered(buffer.waiters, buffer.stamped(says)).contains(buffer.waiters[i].id),
        forall|i: int|
            0 <= i < buffer.appended(says).waiters.len() ==> !matches(
                (#[trigger] buffer.appended(says).waiters[i]).event_name,
                buffer.stamped(says),
            ),
        buffer.appended(says).waiters.len() + answered(
            buffer.waiters,
            buffer.stamped(says),
        ).len() == buffer.waiters.len(),
{
    lemma_unanswered(buffer.waiters, buffer.stamped(says));
}

/// A long-poll that times out leaves every other one as it was: those under another number
/// stay registered in their order, and none is left under its own.
pub proof fn expired_waits_leave_the_others(waiters: Seq<WaiterText>, id: u64)
    ensures
        without(waiters, id) == waiters.filter(|w: WaiterText| w.id != id),
    decreases waiters.len(),
{
    reveal(Seq::filter);
    if waiters.len() > 0 {
        expired_waits_leave_the_others(waiters.drop_last(), id);
    }
}

/// An event settles the long-polls that wait for any event or for one of its name, in the
/// order in which they registered. The others stay, in their order.
pub proof fn events_settle_by_name(waiters: Seq<WaiterText>, e: EventText)
    ensures
        answered(waiters, e) == waiters.filter(
            |w: WaiterText| w.event_name is None || w.event_name == Some(e.says.event),
        ).map_values(|w: WaiterText| w.id),
        unanswered(waiters, e) == waiters.filter(
            |w: WaiterText| w.event_name is Some && w.event_name != Some(e.says.event),
        ),
    decreases waiters.len(),
{
    reveal(Seq::filter);
    if waiters.len() > 0 {
        events_settle_by_name(waiters.drop_last(), e);
        assert(answered(waiters, e) =~= waiters.filter(
            |w: WaiterText| w.event_name is None || w.event_name == Some(e.says.event),
        ).map_values(|w: WaiterText| w.id));
    } else {
        assert(answered(waiters, e) =~= waiters.filter(
            |w: WaiterText| w.event_name is None || w.event_name == Some(e.says.event),
        ).map_values(|w: WaiterText| w.id));
    }
}

/// A read keeps the order of the events: it is what is left of them when those up to the
/// cursor are taken out.
pub proof fn reads_keep_the_order(events: Seq<EventText>, since: u64)
    ensures
        after(events, Some(since)) == events.filter(|e: EventText| e.seq > since),
        after(events, None) == events,
    decreases events.len(),
{
    reveal(Seq::filter);
    if events.len() > 0 {
        reads_keep_the_order(events.drop_last(), since);
        assert(after(events, None) =~= events);
    }
}

proof fn lemma_filter_first(events: Seq<EventText>, keep: spec_fn(EventText) -> bool)
    requires
        events.len() > 0,
    ensures
        events.filter(keep) == (if keep(events[0]) {
            seq![events[0]]
        } else {
            Seq::empty()
        }) + events.skip(1).filter(keep),
    decreases events.len(),
{
    reveal(Seq::filter);
    if events.len() == 1 {
        assert(events.drop_last() =~= Seq::empty());
        assert(events.skip(1) =~= Seq::empty());
        assert(events.filter(keep) =~= (if keep(events[0]) {
            seq![events[0]]
        } else {
            Seq::empty()
        }) + events.skip(1).filter(keep));
    } else {
        lemma_filter_first(events.drop_last(), keep);
        assert(events.drop_last().skip(1) =~= events.skip(1).drop_last());
        assert(events.filter(keep) =~= (if keep(events[0]) {
            seq![events[0]]
        } else {
            Seq::empty()
        }) + events.skip(1).filter(keep));
    }
}

proof fn lemma_first_hit_filter(events: Seq<EventText>, since: u64, name: Option<Seq<char>>)
    ensures
        ({
            let hits = events.filter(
                |e: EventText| e.seq > since && (name is None || name == Some(e.says.event)),
            );
            first_hit(events, since, name) == (if hits.len() == 0 {
                None
            } else {
                Some(hits[0])
            })
        }),
    decreases events.len(),
{
    let keep = |e: EventText| e.seq > since && (name is None || name == Some(e.says.event));
    if events.len() == 0 {
        reveal(Seq::filter);
    } else {
        lemma_filter_first(events, keep);
        lemma_first_hit_filter(events.skip(1), since, name);
    }
}

/// A long-poll from a cursor is answered by the oldest buffered event past the cursor that it
/// waits for, if there is one; without a cursor, by none.
pub proof fn replays_are_the_oldest(buffer: BufferModel, since: u64, name: Option<Seq<char>>)
    ensures
        ({
            let hits = buffer.events.filter(
                |e: EventText| e.seq > since && (name is None || name == Some(e.says.event)),
            );
            buffer.replay(name, Some(since)) == (if hits.len() == 0 {
                None
            } else {
                Some(hits[0])
            })
        }),
        buffer.replay(name, None) is None,
{
    lemma_first_hit_filter(buffer.events, since, name);
}

/// A captured event is numbered one past the cursor, which moves to it, and comes last; what
/// it says is kept. Only a full buffer loses an event, and only the oldest one.
pub proof fn captures_keep_the_newest(buffer: BufferModel, says: QmpEventText)
    requires
        buffer.valid(),
    ensures
        ({
            let next = buffer.appended(says);
            &&& buffer.stamped(says).seq == buffer.cursor + 1
            &&& buffer.stamped(says).says == says
            &&& next.cursor == buffer.cursor + 1
            &&& next.capacity == buffer.capacity
            &&& next.next_waiter == buffer.next_waiter
            &&& next.events.last() == buffer.stamped(says)
            &&& next.events.drop_last() == (if buffer.events.len() == buffer.capacity {
                buffer.events.skip(1)
            } else {
                buffer.events
            })
        }),
{
    let all = buffer.events.push(buffer.stamped(says));
    if buffer.events.len() == buffer.capacity {
        assert(all.skip(1).drop_last() =~= buffer.events.skip(1));
    } else {
        assert(all.drop_last() =~= buffer.events);
    }
}

/// A long-poll that waits registers last, under a number that the next one does not get, and
/// changes nothing else.
pub proof fn waits_register_last(buffer: BufferModel, name: Option<Seq<char>>)
    ensures
        ({
            let next = buffer.waiting(name);
            &&& next.waiters.drop_last() == buffer.waiters
            &&& next.waiters.last().id == buffer.next_waiter
            &&& next.waiters.last().event_name == name
            &&& next.next_waiter != buffer.next_waiter
            &&& next.next_waiter == buffer.next_waiter + 1 || next.next_waiter == 0
            &&& next.events == buffer.events
            &&& next.cursor == buffer.cursor
            &&& next.capacity == buffer.capacity
        }),
{
    assert(buffer.waiting(name).waiters.drop_last() =~= buffer.waiters);
}

/// A reset forgets the events and the long-polls, and nothing else.
pub proof fn resets_keep_the_numbers(buffer: BufferModel)
    ensures
        buffer.cleared().events.len() == 0,
        buffer.cleared().waiters.len() == 0,
        buffer.cleared().cursor == buffer.cursor,
        buffer.cleared().capacity == buffer.capacity,
        buffer.cleared().next_waiter == buffer.next_waiter,
{
}

/// A long-poll that an event answers reports the event and resumes from it, so that a read
/// from there does not repeat it. One that times out reports no event and resumes from where
/// the buffer stands.
pub proof fn wait_results_resume_past_the_event(
    r: WaitForEventResult,
    e: EventText,
    cursor: nat,
)
    ensures
        r.answers(e) == (!r.timed_out && r.event is Some && r.event->0@ == e && r.cursor == e.seq),
        r.expired(cursor) == (r.timed_out && r.event is None && r.cursor == cursor),
        r.answers(e) ==> after(seq![e], Some(r.cursor)).len() == 0,
{
    reads_keep_the_order(seq![e], r.cursor);
    reveal(Seq::filter);
    assert(seq![e].drop_last() =~= Seq::empty());
    reveal_with_fuel(Seq::filter, 3);
}

/// What a buffered event says is what its fields hold.
pub proof fn buffered_events_are_seen_whole(e: BufferedEvent)
    ensures
        e@.seq == e.seq,
        e@.says.event == e.event@,
        e@.says.data == text::string_of(e.data),
        e@.says.timestamp == text::string_of(e.timestamp),
{
}

} // verus!
