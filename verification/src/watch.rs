//! The change watcher's debounce policy. The window is measured from the
//! time the last completed rebuild finished, not from the last event: an
//! event arriving while that window is still open is dropped, and the next
//! rebuild reflects whatever state exists when an event arrives after the
//! window has elapsed. At most one rebuild happens per window.

use vstd::prelude::*;

verus! {

/// What the watcher does with one filesystem event.
#[derive(PartialEq, Eq, Structural, Debug)]
pub enum WatchAction {
    Rebuild,
    Ignore,
}

/// The debounce state: the window length and when the last completed
/// rebuild finished, in milliseconds of a monotonic clock.
#[derive(Debug)]
pub struct Debouncer {
    pub window_ms: u64,
    pub last_build_end_ms: u64,
}

impl Debouncer {
    /// Whether an event at `now_ms` starts a rebuild.
    pub open spec fn triggers(self, now_ms: u64) -> bool {
        now_ms as int >= self.last_build_end_ms as int + self.window_ms as int
    }

    /// A debouncer whose window starts at `now_ms`.
    pub fn new(window_ms: u64, now_ms: u64) -> (d: Debouncer)
        ensures
            d.window_ms == window_ms,
            d.last_build_end_ms == now_ms,
    {
        Debouncer { window_ms, last_build_end_ms: now_ms }
    }

    /// The decision for an event at `now_ms`: rebuild exactly when the
    /// window since the last completed rebuild has elapsed.
    pub fn on_event(&self, now_ms: u64) -> (r: WatchAction)
        ensures
            r == WatchAction::Rebuild <==> self.triggers(now_ms),
    {
        if now_ms >= self.last_build_end_ms && now_ms - self.last_build_end_ms >= self.window_ms {
            WatchAction::Rebuild
        } else {
            WatchAction::Ignore
        }
    }

    /// Records that a rebuild finished at `end_ms`; the next window is
    /// measured from here.
    pub fn rebuild_finished(&mut self, end_ms: u64)
        ensures
            final(self).window_ms == old(self).window_ms,
            final(self).last_build_end_ms == end_ms,
    {
        self.last_build_end_ms = end_ms;
    }
}

/// How many rebuilds a sequence of events causes. Each event is a pair of
/// its arrival time and the time the rebuild it would start finishes.
pub open spec fn spec_rebuild_count(d: Debouncer, events: Seq<(u64, u64)>) -> nat
    decreases events.len(),
{
    if events.len() == 0 {
        0
    } else if d.triggers(events[0].0) {
        1 + spec_rebuild_count(
            Debouncer { window_ms: d.window_ms, last_build_end_ms: events[0].1 },
            events.drop_first(),
        )
    } else {
        spec_rebuild_count(d, events.drop_first())
    }
}

/// Runs a sequence of events through the debouncer, rebuilding (here:
/// recording the given end time) whenever the policy says to.
#[verifier::loop_isolation(false)]
pub fn process_events(d: &mut Debouncer, events: &Vec<(u64, u64)>) -> (n: usize)
    ensures
        n == spec_rebuild_count(*old(d), events@),
        final(d).window_ms == old(d).window_ms,
{
    let mut n: usize = 0;
    let mut i: usize = 0;
    proof {
        assert(events@.subrange(0, events@.len() as int) =~= events@);
    }
    while i < events.len()
        invariant
            i <= events@.len(),
            n <= i,
            d.window_ms == old(d).window_ms,
            spec_rebuild_count(*old(d), events@) == n + spec_rebuild_count(
                *d,
                events@.subrange(i as int, events@.len() as int),
            ),
        decreases events@.len() - i,
    {
        let ghost tail = events@.subrange(i as int, events@.len() as int);
        proof {
            assert(tail.drop_first() =~= events@.subrange(i + 1, events@.len() as int));
            assert(tail[0] == events@[i as int]);
        }
        let (t, end) = events[i];
        match d.on_event(t) {
            WatchAction::Rebuild => {
                d.rebuild_finished(end);
                n = n + 1;
            },
            WatchAction::Ignore => {},
        }
        i = i + 1;
    }
    proof {
        assert(events@.subrange(i as int, events@.len() as int) =~= Seq::<(u64, u64)>::empty());
    }
    n
}

proof fn lemma_no_rebuild(d: Debouncer, events: Seq<(u64, u64)>)
    requires
        forall|i: int| 0 <= i < events.len() ==> !d.triggers((#[trigger] events[i]).0),
    ensures
        spec_rebuild_count(d, events) == 0,
    decreases events.len(),
{
    if events.len() > 0 {
        lemma_no_rebuild(d, events.drop_first());
    }
}

/// A burst of events within one debounce window triggers exactly one
/// rebuild: the first event, arriving after the window since the previous
/// rebuild has elapsed, starts one; every later event of the burst arrives
/// before the window measured from that rebuild's end has elapsed, and is
/// dropped.
pub proof fn lemma_burst_single_rebuild(d: Debouncer, events: Seq<(u64, u64)>)
    requires
        events.len() >= 1,
        d.triggers(events[0].0),
        forall|i: int|
            1 <= i < events.len() ==> ((#[trigger] events[i]).0 as int) < events[0].1
                + d.window_ms,
    ensures
        spec_rebuild_count(d, events) == 1,
{
    let d1 = Debouncer { window_ms: d.window_ms, last_build_end_ms: events[0].1 };
    assert forall|i: int| 0 <= i < events.drop_first().len() implies !d1.triggers(
        (#[trigger] events.drop_first()[i]).0,
    ) by {
        assert(events.drop_first()[i] == events[i + 1]);
    }
    lemma_no_rebuild(d1, events.drop_first());
}

} // verus!
