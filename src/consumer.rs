use vstd::prelude::*;

use crate::error::{ClientError, DecodeFault};

verus! {

/// Consecutive transport errors after which the consume loop gives up.
pub const MAX_RETRIES: u32 = 5;

/// A structured view of one received record.
#[derive(Debug, Clone)]
pub struct MessageInfo {
    pub topic: String,
    pub partition: i32,
    pub offset: i64,
    pub key: Option<String>,
    pub payload: String,
    pub timestamp: i64,
}

/// How one part of a received record (its key or its payload) reads as text.
#[derive(Debug, Clone)]
pub enum TextView {
    Absent,
    NotText,
    Text(String),
}

/// A received record, as the broker client hands it over.
#[derive(Debug, Clone)]
pub struct RawRecord {
    pub topic: String,
    pub partition: i32,
    pub offset: i64,
    pub key: TextView,
    pub payload: TextView,
    /// Milliseconds since the epoch, where the broker attached a time.
    pub timestamp: Option<i64>,
}

pub open spec fn opt_view(o: Option<String>) -> Option<Seq<char>> {
    match o {
        Some(s) => Some(s@),
        None => None,
    }
}

/// The key of a message: text keys that are not empty; anything else is no key.
pub open spec fn key_of(key: TextView) -> Option<Seq<char>> {
    match key {
        TextView::Text(s) => if s@.len() == 0 { None } else { Some(s@) },
        _ => None,
    }
}

/// Why a payload cannot be decoded, if it cannot.
pub open spec fn payload_fault(p: TextView) -> Option<DecodeFault> {
    match p {
        TextView::Absent => Some(DecodeFault::EmptyPayload),
        TextView::NotText => Some(DecodeFault::NotText),
        TextView::Text(_) => None,
    }
}

pub open spec fn payload_text(p: TextView) -> Seq<char> {
    match p {
        TextView::Text(s) => s@,
        _ => Seq::empty(),
    }
}

pub open spec fn timestamp_of(t: Option<i64>) -> i64 {
    match t {
        Some(ms) => ms,
        None => 0,
    }
}

/// `m` is the message that decoding `raw` gives.
pub open spec fn message_of(raw: RawRecord, m: MessageInfo) -> bool {
    &&& m.topic@ == raw.topic@
    &&& m.partition == raw.partition
    &&& m.offset == raw.offset
    &&& opt_view(m.key) == key_of(raw.key)
    &&& m.payload@ == payload_text(raw.payload)
    &&& m.timestamp == timestamp_of(raw.timestamp)
}

/// The outcome of decoding `raw`: a message, or `DecodeFailed` exactly when the
/// payload is absent or not text.
pub open spec fn decoded(raw: RawRecord, r: Result<MessageInfo, ClientError>) -> bool {
    match r {
        Ok(m) => payload_fault(raw.payload) is None && message_of(raw, m),
        Err(e) => payload_fault(raw.payload) is Some
            && e == ClientError::DecodeFailed(payload_fault(raw.payload)->Some_0),
    }
}

/// Decodes a received record into a message.
pub fn process_message(raw: RawRecord) -> (r: Result<MessageInfo, ClientError>)
    ensures
        decoded(raw, r),
{
    let payload = match raw.payload {
        TextView::Text(s) => s,
        TextView::Absent => {
            return Err(ClientError::DecodeFailed(DecodeFault::EmptyPayload));
        },
        TextView::NotText => {
            return Err(ClientError::DecodeFailed(DecodeFault::NotText));
        },
    };
    let key = match raw.key {
        TextView::Text(s) => if s.as_str().is_empty() { None } else { Some(s) },
        _ => None,
    };
    let timestamp: i64 = match raw.timestamp {
        Some(ms) => ms,
        None => 0,
    };
    Ok(MessageInfo {
        topic: raw.topic,
        partition: raw.partition,
        offset: raw.offset,
        key,
        payload,
        timestamp,
    })
}

/// What the consume loop does next.
#[derive(Debug, Clone)]
pub enum LoopAction {
    /// Hand the decoded message to the sink and receive again at once.
    Deliver(MessageInfo),
    /// Wait this many seconds, then receive again.
    Wait(u64),
    /// Terminate the loop with this error.
    Stop(ClientError),
    /// Leave the loop quietly: it was cancelled from outside.
    Cancelled,
}

/// What the consume loop observes on one receive.
pub enum Event {
    /// The receive failed at the transport level.
    TransportError,
    /// A record arrived; `true` when it decodes.
    Record(bool),
    /// The loop was cancelled from outside while it waited.
    Cancel,
}

/// What the consume loop does, as the laws below see it.
pub enum Act {
    Deliver,
    Wait(nat),
    Exhausted,
    Fault,
    Cancelled,
}

pub open spec fn act_of(a: LoopAction) -> Act {
    match a {
        LoopAction::Deliver(_) => Act::Deliver,
        LoopAction::Wait(secs) => Act::Wait(secs as nat),
        LoopAction::Stop(ClientError::RetriesExhausted) => Act::Exhausted,
        LoopAction::Stop(_) => Act::Fault,
        LoopAction::Cancelled => Act::Cancelled,
    }
}

/// One transition of the loop: from the count of consecutive transport errors
/// and what a receive gave, the next count and the action.
pub open spec fn step(attempts: nat, e: Event) -> (nat, Act) {
    match e {
        Event::Record(decodes) => (0, if decodes { Act::Deliver } else { Act::Fault }),
        Event::Cancel => (attempts, Act::Cancelled),
        Event::TransportError => if attempts + 1 >= MAX_RETRIES {
            ((attempts + 1) as nat, Act::Exhausted)
        } else {
            ((attempts + 1) as nat, Act::Wait(2 * (attempts + 1)))
        },
    }
}

pub open spec fn is_terminal(a: Act) -> bool {
    a is Exhausted || a is Fault || a is Cancelled
}

/// The course of the loop over a sequence of receives.
pub struct Run {
    /// The backoff waits, in order, in seconds.
    pub waits: Seq<nat>,
    /// The count of consecutive transport errors at the end.
    pub attempts: nat,
    /// How many receives were made.
    pub consumed: nat,
    /// The terminal action, where the loop terminated.
    pub stopped: Option<Act>,
}

/// Runs the loop from `attempts` over `events`, one receive per event, until
/// the events run out or the loop terminates.
pub open spec fn run(attempts: nat, events: Seq<Event>) -> Run
    decreases events.len(),
{
    if events.len() == 0 {
        Run { waits: Seq::empty(), attempts, consumed: 0, stopped: None }
    } else {
        let (next, act) = step(attempts, events[0]);
        if is_terminal(act) {
            Run { waits: Seq::empty(), attempts: next, consumed: 1, stopped: Some(act) }
        } else {
            let rest = run(next, events.drop_first());
            Run {
                waits: match act {
                    Act::Wait(d) => seq![d] + rest.waits,
                    _ => rest.waits,
                },
                attempts: rest.attempts,
                consumed: rest.consumed + 1,
                stopped: rest.stopped,
            }
        }
    }
}

/// The retry state of one consume loop.
pub struct RetryState {
    /// Consecutive transport errors since the last record.
    pub attempt_count: u32,
}

impl RetryState {
    pub open spec fn wf(&self) -> bool {
        self.attempt_count < MAX_RETRIES
    }

    pub fn new() -> (r: Self)
        ensures
            r.attempt_count == 0,
            r.wf(),
    {
        RetryState { attempt_count: 0 }
    }

    /// A receive failed at the transport level: count it, and wait
    /// `2 * count` seconds or give up at `MAX_RETRIES`.
    pub fn on_transport_error(&mut self) -> (a: LoopAction)
        requires
            old(self).wf(),
        ensures
            !(a is Stop) ==> final(self).wf(),
            (final(self).attempt_count as nat, act_of(a))
                == step(old(self).attempt_count as nat, Event::TransportError),
            a is Stop ==> a->Stop_0 is RetriesExhausted,
    {
        self.attempt_count = self.attempt_count + 1;
        if self.attempt_count >= MAX_RETRIES {
            LoopAction::Stop(ClientError::RetriesExhausted)
        } else {
            LoopAction::Wait(2 * self.attempt_count as u64)
        }
    }

    /// The loop was cancelled from outside: leave it without an error.
    pub fn on_cancel(&self) -> (a: LoopAction)
        ensures
            (self.attempt_count as nat, act_of(a)) == step(self.attempt_count as nat, Event::Cancel),
            a is Cancelled,
    {
        LoopAction::Cancelled
    }

    /// A record arrived: reset the count and decode it; a record that does not
    /// decode terminates the loop.
    pub fn on_record(&mut self, raw: RawRecord) -> (a: LoopAction)
        requires
            old(self).wf(),
        ensures
            final(self).wf(),
            (final(self).attempt_count as nat, act_of(a))
                == step(old(self).attempt_count as nat, Event::Record(payload_fault(raw.payload) is None)),
            a is Deliver ==> message_of(raw, a->Deliver_0),
            a is Stop ==> a->Stop_0 == ClientError::DecodeFailed(payload_fault(raw.payload)->Some_0),
            !(a is Wait),
    {
        self.attempt_count = 0;
        match process_message(raw) {
            Ok(m) => LoopAction::Deliver(m),
            Err(e) => LoopAction::Stop(e),
        }
    }
}

/// `k` transport errors from `attempts` that stay under the limit wait
/// `2 * (attempts + 1)`, ..., `2 * (attempts + k)` seconds in turn and hand the
/// rest of the events on with the count raised by `k`.
pub proof fn lemma_transient_errors(attempts: nat, k: nat, events: Seq<Event>)
    requires
        attempts + k < MAX_RETRIES,
        k <= events.len(),
        forall|i: int| 0 <= i < k ==> events[i] is TransportError,
    ensures
        ({
            let r = run(attempts, events);
            let rest = run(attempts + k, events.subrange(k as int, events.len() as int));
            &&& r.waits == Seq::new(k, |i: int| (2 * (attempts + i + 1)) as nat) + rest.waits
            &&& r.attempts == rest.attempts
            &&& r.consumed == k + rest.consumed
            &&& r.stopped == rest.stopped
        }),
    decreases k,
{
    if k == 0 {
        assert(events.subrange(0, events.len() as int) =~= events);
        assert(Seq::new(0, |i: int| (2 * (attempts + i + 1)) as nat) + run(attempts, events).waits
            =~= run(attempts, events).waits);
    } else {
        let tail = events.drop_first();
        lemma_transient_errors(attempts + 1, (k - 1) as nat, tail);
        assert(tail.subrange(k - 1, tail.len() as int) =~= events.subrange(k as int, events.len() as int));
        let rest = run(attempts + k, events.subrange(k as int, events.len() as int));
        assert(seq![(2 * (attempts + 1)) as nat] + (Seq::new((k - 1) as nat, |i: int| (2 * (attempts + 1 + i + 1)) as nat) + rest.waits)
            =~= Seq::new(k, |i: int| (2 * (attempts + i + 1)) as nat) + rest.waits);
    }
}

/// Fewer than `MAX_RETRIES` consecutive transport errors followed by a record
/// that decodes: the loop waits 2, 4, ..., 2n seconds in that order, keeps
/// running, and the error count is back to 0 after the record.
pub proof fn law_recovery_after_transient_errors(n: nat)
    requires
        n < MAX_RETRIES,
    ensures
        ({
            let events = Seq::new(n, |i: int| Event::TransportError).push(Event::Record(true));
            let r = run(0, events);
            &&& r.waits == Seq::new(n, |i: int| (2 * (i + 1)) as nat)
            &&& r.attempts == 0
            &&& r.consumed == n + 1
            &&& r.stopped is None
        }),
{
    let events = Seq::new(n, |i: int| Event::TransportError).push(Event::Record(true));
    lemma_transient_errors(0, n, events);
    let tail = events.subrange(n as int, events.len() as int);
    assert(tail =~= seq![Event::Record(true)]);
    assert(tail.drop_first() =~= Seq::<Event>::empty());
    let last = run(0, tail.drop_first());
    assert(last.waits == Seq::<nat>::empty() && last.stopped is None && last.attempts == 0);
    assert(run(n, tail).waits =~= Seq::empty());
    assert(Seq::new(n, |i: int| (2 * (0 + i + 1)) as nat) + run(n, tail).waits
        =~= Seq::new(n, |i: int| (2 * (i + 1)) as nat));
}

/// `MAX_RETRIES` or more consecutive transport errors: the loop terminates with
/// `RetriesExhausted` after exactly `MAX_RETRIES` receives, having waited 2, 4,
/// 6 and 8 seconds, and never makes another receive.
pub proof fn law_retries_exhausted(events: Seq<Event>)
    requires
        events.len() >= MAX_RETRIES,
        forall|i: int| 0 <= i < MAX_RETRIES ==> events[i] is TransportError,
    ensures
        ({
            let r = run(0, events);
            &&& r.stopped == Some(Act::Exhausted)
            &&& r.consumed == MAX_RETRIES
            &&& r.waits == seq![2nat, 4nat, 6nat, 8nat]
        }),
{
    lemma_transient_errors(0, 4, events);
    let tail = events.subrange(4, events.len() as int);
    assert(tail[0] is TransportError);
    assert(Seq::new(4, |i: int| (2 * (0 + i + 1)) as nat) + run(4, tail).waits
        =~= seq![2nat, 4nat, 6nat, 8nat]);
}

/// Cancellation ends the loop at once, and not as an error: neither as a
/// transport error that would be retried nor as a fatal fault.
pub proof fn law_cancellation_is_not_an_error(attempts: nat, events: Seq<Event>)
    requires
        events.len() > 0,
        events[0] == Event::Cancel,
    ensures
        run(attempts, events).stopped == Some(Act::Cancelled),
        run(attempts, events).waits.len() == 0,
        run(attempts, events).attempts == attempts,
{
}

/// A received record that does not decode terminates the loop on that very
/// receive: it is never skipped.
pub proof fn law_decode_fault_terminates(attempts: nat, events: Seq<Event>)
    requires
        events.len() > 0,
        events[0] == Event::Record(false),
    ensures
        run(attempts, events).stopped == Some(Act::Fault),
        run(attempts, events).consumed == 1,
{
}

} // verus!
