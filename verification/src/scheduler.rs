//! A scheduler used by the emulation cores to schedule peripherals.
//!
//! Events are kept in a list sorted by their execution time, latest first,
//! so that the next event to run is always at the end of the list.
//! The scheduler runs on a circular `u32` timer that is rebased before it
//! can overflow.
use vstd::prelude::*;

verus! {

/// Maximum number of events that can be pending at once.
pub const MAX_EVENTS: usize = 16;

/// Time after which the timer and all pending events are moved back.
pub const REBASE_THRESHOLD: u32 = 0xF000_0000;

/// Trait for event kinds.
pub trait Kind: Copy + Sized {
    /// If two event kinds are the same kind.
    fn is_kind(&self, other: &Self) -> (r: bool)
        ensures
            r == (*self == *other),
    ;
}

/// An event awaiting execution.
#[derive(Copy, Clone)]
pub struct ScheduledEvent<E: Kind> {
    /// Kind of event to execute.
    pub kind: E,
    /// Time of the scheduler to execute it at.
    pub execute_at: u32,
}

/// Event that is ready to be handled.
#[derive(Copy, Clone)]
pub struct Event<E: Kind> {
    /// The kind of event to handle.
    pub kind: E,
    /// By how many ticks the event was delayed by. For example:
    /// - Event was scheduled to be executed at tick 1000
    /// - Scheduler ran until 1010 before the event got handled
    /// - `late_by` will be 1010 - 1000 = 10.
    pub late_by: u32,
}

/// A list of events is sorted when later events come first.
pub open spec fn sorted<E: Kind>(s: Seq<ScheduledEvent<E>>) -> bool {
    forall|i: int, j: int| 0 <= i < j < s.len() ==> s[i].execute_at >= s[j].execute_at
}

/// Insert an event into a sorted list, after all events that run at the
/// same time or later.
pub open spec fn inserted<E: Kind>(s: Seq<ScheduledEvent<E>>, ev: ScheduledEvent<E>) -> Seq<
    ScheduledEvent<E>,
>
    decreases s.len(),
{
    if s.len() == 0 {
        seq![ev]
    } else if s.last().execute_at >= ev.execute_at {
        s.push(ev)
    } else {
        inserted(s.drop_last(), ev).push(s.last())
    }
}

/// If an event at time `t` is inserted at the front of `s`: it runs after
/// all events already in `s`.
pub open spec fn goes_first<E: Kind>(s: Seq<ScheduledEvent<E>>, t: u32) -> bool {
    forall|i: int| 0 <= i < s.len() ==> s[i].execute_at < t
}

/// Move all events back by the rebase amount.
pub open spec fn rebased<E: Kind>(s: Seq<ScheduledEvent<E>>) -> Seq<ScheduledEvent<E>> {
    s.map_values(
        |e: ScheduledEvent<E>|
            ScheduledEvent { kind: e.kind, execute_at: (e.execute_at - REBASE_THRESHOLD) as u32 },
    )
}

/// If an event is not of the given kind.
pub open spec fn not_of_kind<E: Kind>(kind: E) -> spec_fn(ScheduledEvent<E>) -> bool {
    |e: ScheduledEvent<E>| e.kind != kind
}

/// Events that remain after cancelling all of the given kind.
pub open spec fn without_kind<E: Kind>(s: Seq<ScheduledEvent<E>>, kind: E) -> Seq<
    ScheduledEvent<E>,
> {
    s.filter(not_of_kind(kind))
}

/// Time and pending events after scheduling an event of the given kind
/// `after` ticks from `time`: the event is inserted in order, and if it runs
/// after all others and the timer is past the rebase threshold, everything
/// is moved back.
pub open spec fn schedule_result<E: Kind>(
    time: u32,
    pending: Seq<ScheduledEvent<E>>,
    kind: E,
    after: u32,
) -> (u32, Seq<ScheduledEvent<E>>) {
    let t = (time + after) as u32;
    let ins = inserted(pending, ScheduledEvent { kind, execute_at: t });
    if goes_first(pending, t) && time > REBASE_THRESHOLD {
        ((time - REBASE_THRESHOLD) as u32, rebased(ins))
    } else {
        (time, ins)
    }
}

/// If an event can be scheduled `after` ticks from `time` next to the
/// given pending events.
pub open spec fn can_schedule_at<E: Kind>(
    time: u32,
    pending: Seq<ScheduledEvent<E>>,
    after: u32,
) -> bool {
    let t = time + after;
    &&& t <= u32::MAX
    &&& pending.len() < MAX_EVENTS
    &&& (goes_first(pending, t as u32) && time > REBASE_THRESHOLD) ==> (forall|i: int|
        0 <= i < pending.len() ==> pending[i].execute_at >= REBASE_THRESHOLD)
}

/// A scheduler used by the emulation cores to schedule peripherals.
/// It is generic over the possible events and uses a sorted list
/// in combination with a circular u32 timer.
pub struct Scheduler<E: Kind> {
    /// Current time of the scheduler.
    time: u32,
    /// Events currently awaiting execution.
    events: Vec<ScheduledEvent<E>>,
}

impl<E: Kind> Scheduler<E> {
    /// Current time of the scheduler.
    pub closed spec fn time(&self) -> u32 {
        self.time
    }

    /// Events currently awaiting execution, latest first.
    pub closed spec fn pending(&self) -> Seq<ScheduledEvent<E>> {
        self.events@
    }

    /// The scheduler's invariant: not more than the maximum amount of
    /// events, sorted by execution time.
    pub open spec fn wf(&self) -> bool {
        &&& self.pending().len() <= MAX_EVENTS
        &&& sorted(self.pending())
    }

    /// The state after scheduling an event, as `schedule` produces it.
    pub open spec fn after_schedule(&self, kind: E, after: u32) -> (u32, Seq<ScheduledEvent<E>>) {
        schedule_result(self.time(), self.pending(), kind, after)
    }

    /// If scheduling an event of this delay is possible: the time does not
    /// overflow, there is room, and a rebase would not move an event before
    /// time 0.
    pub open spec fn can_schedule(&self, after: u32) -> bool {
        can_schedule_at(self.time(), self.pending(), after)
    }

    /// Create a scheduler at time 0 with no events.
    pub fn new() -> (s: Self)
        ensures
            s.time() == 0,
            s.pending() == Seq::<ScheduledEvent<E>>::empty(),
            s.wf(),
    {
        Scheduler { time: 0, events: Vec::new() }
    }

    /// Schedule an event of the given kind after the given amount
    /// of cycles have elapsed from now.
    pub fn schedule(&mut self, kind: E, after: u32)
        requires
            old(self).wf(),
            old(self).can_schedule(after),
        ensures
            final(self).wf(),
            (final(self).time(), final(self).pending()) == old(self).after_schedule(kind, after),
    {
        let time = self.time + after;
        let event = ScheduledEvent { kind, execute_at: time };
        let ghost old_events = self.events@;
        proof {
            lemma_inserted_sorted(old_events, event);
        }
        self.events.push(event);

        // Ensure the event list is still sorted
        // (Swap the new element further back until it is in the right spot)
        let mut idx = self.events.len() - 1;
        while idx > 0
            invariant
                0 <= idx <= old_events.len(),
                self.events@.len() == old_events.len() + 1,
                self.time == old(self).time,
                time == self.time + after,
                event == (ScheduledEvent { kind, execute_at: time }),
                sorted(old_events),
                old_events == old(self).events@,
                old_events.len() < MAX_EVENTS,
                sorted(inserted(old_events, event)),
                forall|i: int| 0 <= i < idx ==> self.events@[i] == old_events[i],
                forall|i: int|
                    idx < i < self.events@.len() ==> self.events@[i] == old_events[i - 1],
                forall|i: int| idx <= i < old_events.len() ==> old_events[i].execute_at < time,
            decreases idx,
        {
            let other = self.events[idx - 1];
            if time > other.execute_at {
                self.events.set(idx, other);
                idx = idx - 1;
            } else {
                self.events.set(idx, event);
                proof {
                    lemma_inserted_at(old_events, event, idx as int);
                    assert(self.events@ =~= inserted(old_events, event));
                    assert(old_events[idx - 1].execute_at >= time);
                    assert(!goes_first(old_events, time));
                }
                return;
            }
        }
        // The loop exited without finding a bigger element, this new one is the biggest
        self.events.set(0, event);
        proof {
            lemma_inserted_at(old_events, event, 0);
            assert(self.events@ =~= inserted(old_events, event));
            assert(goes_first(old_events, time));
        }

        // We run this here since it is probably the least-run function.
        // We want to check the time as little as possible to save perf.
        self.check_time();
    }

    /// Advance the timer by the given amount of ticks.
    pub fn advance(&mut self, by: u32)
        requires
            old(self).time() + by <= u32::MAX,
        ensures
            final(self).time() == old(self).time() + by,
            final(self).pending() == old(self).pending(),
    {
        self.time = self.time + by;
    }

    /// Get the next pending event, if it is due.
    /// Note that this implementation assumes there is always at least one
    /// event scheduled.
    pub fn get_next_pending(&mut self) -> (r: Option<Event<E>>)
        requires
            old(self).wf(),
            old(self).pending().len() > 0,
        ensures
            final(self).wf(),
            final(self).time() == old(self).time(),
            ({
                let last = old(self).pending().last();
                if last.execute_at <= old(self).time() {
                    &&& r == Some(
                        Event { kind: last.kind, late_by: (old(self).time() - last.execute_at) as u32 },
                    )
                    &&& final(self).pending() == old(self).pending().drop_last()
                } else {
                    &&& r.is_none()
                    &&& final(self).pending() == old(self).pending()
                }
            }),
    {
        let idx = self.events.len() - 1;
        let event = self.events[idx];
        if event.execute_at <= self.time {
            self.events.truncate(idx);
            proof {
                assert(self.events@ =~= old(self).events@.drop_last());
            }
            Some(Event { kind: event.kind, late_by: self.time - event.execute_at })
        } else {
            None
        }
    }

    /// Return the next event immediately, and set the current time to
    /// the event's execution time. This is useful during HALT or similar
    /// states.
    pub fn pop(&mut self) -> (r: Event<E>)
        requires
            old(self).wf(),
            old(self).pending().len() > 0,
        ensures
            final(self).wf(),
            r == (Event { kind: old(self).pending().last().kind, late_by: 0 }),
            final(self).time() == old(self).pending().last().execute_at,
            final(self).pending() == old(self).pending().drop_last(),
    {
        let event = self.events.pop().unwrap();
        self.time = event.execute_at;
        Event { kind: event.kind, late_by: 0 }
    }

    /// Cancel all events of a given type.
    /// Somewhat expensive.
    pub fn cancel(&mut self, evt: E)
        requires
            old(self).wf(),
        ensures
            final(self).wf(),
            final(self).time() == old(self).time(),
            final(self).pending() == without_kind(old(self).pending(), evt),
    {
        let ghost pred = not_of_kind(evt);
        let mut kept: Vec<ScheduledEvent<E>> = Vec::new();
        let mut i: usize = 0;
        while i < self.events.len()
            invariant
                0 <= i <= self.events@.len(),
                self.events@ == old(self).events@,
                sorted(self.events@),
                self.events@.len() <= MAX_EVENTS,
                pred == not_of_kind(evt),
                kept@ == self.events@.subrange(0, i as int).filter(pred),
                kept@.len() <= i,
                sorted(kept@),
                forall|k: int, j: int|
                    0 <= k < kept@.len() && i <= j < self.events@.len() ==> kept@[k].execute_at
                        >= self.events@[j].execute_at,
            decreases self.events@.len() - i,
        {
            let e = self.events[i];
            proof {
                reveal(Seq::filter);
                assert(self.events@.subrange(0, i + 1).drop_last() =~= self.events@.subrange(
                    0,
                    i as int,
                ));
            }
            if !e.kind.is_kind(&evt) {
                kept.push(e);
            }
            i = i + 1;
        }
        proof {
            assert(self.events@.subrange(0, self.events@.len() as int) =~= self.events@);
        }
        self.events = kept;
    }

    /// Current time of the scheduler.
    pub fn now(&self) -> (r: u32)
        ensures
            r == self.time(),
    {
        self.time
    }

    /// Checks to make sure the timer will not overflow by
    /// decrementing all times before that happens.
    fn check_time(&mut self)
        requires
            old(self).wf(),
            old(self).time > REBASE_THRESHOLD ==> forall|i: int|
                0 <= i < old(self).events@.len() ==> old(self).events@[i].execute_at
                    >= REBASE_THRESHOLD,
        ensures
            final(self).wf(),
            old(self).time > REBASE_THRESHOLD ==> final(self).time == old(self).time
                - REBASE_THRESHOLD && final(self).events@ == rebased(old(self).events@),
            old(self).time <= REBASE_THRESHOLD ==> *final(self) == *old(self),
    {
        if self.time > REBASE_THRESHOLD {
            self.time = self.time - REBASE_THRESHOLD;
            let mut i: usize = 0;
            while i < self.events.len()
                invariant
                    0 <= i <= self.events@.len(),
                    self.time == old(self).time - REBASE_THRESHOLD,
                    self.events@.len() == old(self).events@.len(),
                    forall|j: int|
                        0 <= j < old(self).events@.len() ==> old(self).events@[j].execute_at
                            >= REBASE_THRESHOLD,
                    forall|j: int| 0 <= j < i ==> self.events@[j] == rebased(old(self).events@)[j],
                    forall|j: int|
                        i <= j < self.events@.len() ==> self.events@[j] == old(self).events@[j],
                decreases self.events@.len() - i,
            {
                let e = self.events[i];
                self.events.set(
                    i,
                    ScheduledEvent { kind: e.kind, execute_at: e.execute_at - REBASE_THRESHOLD },
                );
                i = i + 1;
            }
            proof {
                assert(self.events@ =~= rebased(old(self).events@));
                lemma_rebased_sorted(old(self).events@);
            }
        }
    }
}

impl<E: Kind> Default for Scheduler<E> {
    fn default() -> (s: Self)
        ensures
            s.time() == 0,
            s.pending() == Seq::<ScheduledEvent<E>>::empty(),
    {
        Self::new()
    }
}

/// Inserting at a position `idx` that splits the list into events not
/// earlier and events strictly earlier is what `inserted` describes.
proof fn lemma_inserted_at<E: Kind>(s: Seq<ScheduledEvent<E>>, ev: ScheduledEvent<E>, idx: int)
    requires
        0 <= idx <= s.len(),
        idx > 0 ==> s[idx - 1].execute_at >= ev.execute_at,
        forall|i: int| idx <= i < s.len() ==> s[i].execute_at < ev.execute_at,
    ensures
        inserted(s, ev) =~= s.subrange(0, idx).push(ev) + s.subrange(idx, s.len() as int),
    decreases s.len(),
{
    if s.len() == 0 {
    } else if s.last().execute_at >= ev.execute_at {
        assert(idx == s.len());
    } else {
        lemma_inserted_at(s.drop_last(), ev, idx);
    }
}

/// Inserting into a sorted list keeps it sorted.
pub proof fn lemma_inserted_sorted<E: Kind>(s: Seq<ScheduledEvent<E>>, ev: ScheduledEvent<E>)
    requires
        sorted(s),
    ensures
        sorted(inserted(s, ev)),
        inserted(s, ev).len() == s.len() + 1,
        inserted(s, ev).to_multiset() =~= s.to_multiset().insert(ev),
    decreases s.len(),
{
    broadcast use vstd::seq_lib::group_to_multiset_ensures;

    if s.len() == 0 {
        assert(seq![ev] =~= Seq::<ScheduledEvent<E>>::empty().push(ev));
    } else if s.last().execute_at >= ev.execute_at {
    } else {
        lemma_inserted_sorted(s.drop_last(), ev);
        let r = inserted(s.drop_last(), ev);
        assert(s =~= s.drop_last().push(s.last()));
        assert forall|i: int| 0 <= i < r.len() implies r[i].execute_at >= s.last().execute_at by {
            assert(r.to_multiset().count(r[i]) > 0);
            assert(s.drop_last().to_multiset().insert(ev).count(r[i]) > 0);
            if r[i] != ev {
                assert(s.drop_last().to_multiset().count(r[i]) > 0);
                assert(s.drop_last().contains(r[i]));
                let k = choose|k: int| 0 <= k < s.drop_last().len() && s.drop_last()[k] == r[i];
                assert(s[k] == r[i]);
            }
        }
    }
}

/// Moving all events back by the same amount keeps them sorted.
proof fn lemma_rebased_sorted<E: Kind>(s: Seq<ScheduledEvent<E>>)
    requires
        sorted(s),
        forall|i: int| 0 <= i < s.len() ==> s[i].execute_at >= REBASE_THRESHOLD,
    ensures
        sorted(rebased(s)),
{
}

/// The event handed out next (by `get_next_pending` or `pop`) runs no later
/// than any other pending event.
pub proof fn lemma_next_is_earliest<E: Kind>(s: Scheduler<E>)
    requires
        s.wf(),
        s.pending().len() > 0,
    ensures
        forall|i: int|
            0 <= i < s.pending().len() ==> s.pending().last().execute_at
                <= #[trigger] s.pending()[i].execute_at,
{
}

/// Events are handed out in order of their execution time: after the next
/// event is taken, the one following it does not run earlier.
pub proof fn lemma_handed_out_in_order<E: Kind>(s: Scheduler<E>)
    requires
        s.wf(),
        s.pending().len() > 1,
    ensures
        sorted(s.pending().drop_last()),
        s.pending().drop_last().last().execute_at >= s.pending().last().execute_at,
{
}

/// Scheduling keeps every pending event and adds exactly the new one,
/// to run `after` ticks from now.
pub proof fn lemma_schedule_adds_one<E: Kind>(s: Scheduler<E>, kind: E, after: u32)
    requires
        s.wf(),
        s.can_schedule(after),
    ensures
        ({
            let t = (s.time() + after) as u32;
            let ev = ScheduledEvent { kind, execute_at: t };
            let (t2, p2) = s.after_schedule(kind, after);
            &&& p2.len() == s.pending().len() + 1
            &&& !(goes_first(s.pending(), t) && s.time() > REBASE_THRESHOLD) ==> p2.to_multiset()
                =~= s.pending().to_multiset().insert(ev)
            &&& goes_first(s.pending(), t) && s.time() > REBASE_THRESHOLD ==> {
                &&& t2 == s.time() - REBASE_THRESHOLD
                &&& p2.to_multiset() =~= rebased(s.pending()).to_multiset().insert(
                    ScheduledEvent { kind, execute_at: (t - REBASE_THRESHOLD) as u32 },
                )
            }
        }),
{
    let t = (s.time() + after) as u32;
    let ev = ScheduledEvent { kind, execute_at: t };
    lemma_inserted_sorted(s.pending(), ev);
    lemma_rebased_inserted(s.pending(), ev);
}

/// Moving events back and inserting one commute, as multisets.
proof fn lemma_rebased_inserted<E: Kind>(s: Seq<ScheduledEvent<E>>, ev: ScheduledEvent<E>)
    ensures
        rebased(inserted(s, ev)).to_multiset() =~= rebased(s).to_multiset().insert(
            ScheduledEvent { kind: ev.kind, execute_at: (ev.execute_at - REBASE_THRESHOLD) as u32 },
        ),
    decreases s.len(),
{
    broadcast use vstd::seq_lib::group_to_multiset_ensures;

    let rev = ScheduledEvent { kind: ev.kind, execute_at: (ev.execute_at - REBASE_THRESHOLD) as u32 };
    if s.len() == 0 {
        assert(rebased(seq![ev]) =~= Seq::<ScheduledEvent<E>>::empty().push(rev));
        assert(rebased(s) =~= Seq::<ScheduledEvent<E>>::empty());
    } else if s.last().execute_at >= ev.execute_at {
        assert(rebased(s.push(ev)) =~= rebased(s).push(rev));
    } else {
        let dl = s.drop_last();
        let l = s.last();
        let rl = ScheduledEvent { kind: l.kind, execute_at: (l.execute_at - REBASE_THRESHOLD) as u32 };
        lemma_rebased_inserted(dl, ev);
        assert(rebased(inserted(dl, ev).push(l)) =~= rebased(inserted(dl, ev)).push(rl));
        assert(s =~= dl.push(l));
        assert(rebased(dl.push(l)) =~= rebased(dl).push(rl));
    }
}

/// An event scheduled with no delay is due right away: the next event is
/// then due at the current time.
pub proof fn lemma_zero_delay_is_due<E: Kind>(s: Scheduler<E>, kind: E)
    requires
        s.wf(),
        s.can_schedule(0),
    ensures
        ({
            let (t2, p2) = s.after_schedule(kind, 0);
            p2.len() > 0 && p2.last().execute_at <= t2
        }),
{
    let ev = ScheduledEvent { kind, execute_at: s.time() };
    lemma_inserted_last(s.pending(), ev);
}

/// After cancelling a kind, exactly the events of other kinds remain.
pub proof fn lemma_cancel_removes_kind<E: Kind>(s: Scheduler<E>, kind: E)
    requires
        s.wf(),
    ensures
        forall|e: ScheduledEvent<E>|
            #[trigger] without_kind(s.pending(), kind).contains(e) <==> (s.pending().contains(e)
                && e.kind != kind),
{
    broadcast use vstd::seq_lib::group_filter_ensures;

    assert forall|e: ScheduledEvent<E>|
        #[trigger] without_kind(s.pending(), kind).contains(e) implies s.pending().contains(
        e) && e.kind != kind by {
        let r = without_kind(s.pending(), kind);
        let k = choose|k: int| 0 <= k < r.len() && r[k] == e;
        s.pending().lemma_filter_pred(not_of_kind(kind), k);
        lemma_filter_subset(s.pending(), not_of_kind(kind), e);
    }
}

/// Everything a filter keeps comes from the filtered list.
proof fn lemma_filter_subset<A>(s: Seq<A>, pred: spec_fn(A) -> bool, e: A)
    requires
        s.filter(pred).contains(e),
    ensures
        s.contains(e),
    decreases s.len(),
{
    reveal(Seq::filter);
    if s.len() > 0 {
        let sub = s.drop_last().filter(pred);
        if pred(s.last()) && e == s.last() {
            assert(s[s.len() - 1] == e);
        } else {
            if pred(s.last()) {
                let k = choose|k: int| 0 <= k < s.filter(pred).len() && s.filter(pred)[k] == e;
                assert(sub.push(s.last())[k] == e);
                assert(k < sub.len());
                assert(sub[k] == e);
            }
            lemma_filter_subset(s.drop_last(), pred, e);
            let k = choose|k: int| 0 <= k < s.drop_last().len() && s.drop_last()[k] == e;
            assert(s[k] == e);
        }
    }
}

/// The last event of an insertion into a sorted list runs no later than
/// the inserted event.
proof fn lemma_inserted_last<E: Kind>(s: Seq<ScheduledEvent<E>>, ev: ScheduledEvent<E>)
    requires
        sorted(s),
    ensures
        inserted(s, ev).len() > 0,
        inserted(s, ev).last().execute_at <= ev.execute_at,
    decreases s.len(),
{
    if s.len() > 0 && s.last().execute_at < ev.execute_at {
        lemma_inserted_sorted(s.drop_last(), ev);
    }
}

} // verus!
