use vstd::prelude::*;
use crate::ids::{IdCounter, TimerId};

verus! {

/// A point in time, in milliseconds since a fixed origin.
#[derive(Debug, Clone, Copy, PartialEq, Eq, Structural, PartialOrd, Ord, Hash)]
pub struct Instant {
    pub millis: u64,
}

/// A span of time, in milliseconds.
#[derive(Debug, Clone, Copy, PartialEq, Eq, Structural, PartialOrd, Ord, Hash)]
pub struct Duration {
    pub millis: u64,
}

impl Instant {
    pub fn from_millis(millis: u64) -> (r: Instant)
        ensures
            r.millis == millis,
    {
        Instant { millis }
    }

    /// The current wall-clock time, in milliseconds since the Unix epoch.
    ///
    /// Relies on `std::time::SystemTime::now` (with `duration_since`): the
    /// clock is read, so nothing is promised of the result.
    #[verifier::external_body]
    pub fn now() -> (r: Instant) {
        match std::time::SystemTime::now().duration_since(std::time::UNIX_EPOCH) {
            Ok(d) => Instant { millis: d.as_millis() as u64 },
            Err(_) => Instant { millis: 0 },
        }
    }
}

impl Duration {
    pub fn from_millis(millis: u64) -> (r: Duration)
        ensures
            r.millis == millis,
    {
        Duration { millis }
    }
}

/// Time that passed from `since` to `now`; zero when `now` lies before `since`.
pub open spec fn elapsed(now: int, since: int) -> int {
    if now >= since {
        now - since
    } else {
        0
    }
}

/// Whether the next frame has to run the layout pipeline again.
#[derive(Debug, Clone, Copy, PartialEq, Eq, Structural)]
pub enum UpdateScreen {
    Redraw,
    DontRedraw,
}

/// Should a timer terminate or not - used to remove active timers
#[derive(Debug, Clone, Copy, PartialEq, Eq, Structural)]
pub enum TerminateTimer {
    /// Remove the timer from the list of active timers
    Terminate,
    /// Do nothing and let the timers continue to run
    Continue,
}

/// What a timer callback hands back: its redraw vote, and whether the timer stays.
pub type TimerCallbackReturn = (UpdateScreen, TerminateTimer);

/// What the firing rule decides for one timer at one instant.
#[derive(Debug, Clone, Copy, PartialEq, Eq, Structural)]
pub enum TimerDecision {
    /// The timeout has passed: remove the timer without calling it.
    Expire,
    /// The interval since the last run has not passed yet.
    Wait,
    /// Call the callback now.
    Fire,
}

/// A `Timer` is a function that is run on every frame, on the main thread.
///
/// The callback is a handle of type `C` (a function pointer in practice);
/// whoever runs the timer knows how to call it.
#[derive(Debug, Clone, Copy, PartialEq, Eq, Hash)]
pub struct Timer<C> {
    /// When the timer was created
    pub created: Instant,
    /// When the timer was last called (`None` only when it has not been called yet)
    pub last_run: Option<Instant>,
    /// If the timer shouldn't start instantly, but rather be delayed by a certain timeframe
    pub delay: Option<Duration>,
    /// How much time has to pass between two runs; `None` runs it on every frame
    pub interval: Option<Duration>,
    /// When to stop the timer, counted from its creation
    pub timeout: Option<Duration>,
    /// Callback to be called for this timer
    pub callback: C,
}

/// The delay of a timer, zero when it has none.
pub open spec fn delay_of<C>(t: Timer<C>) -> int {
    match t.delay {
        Some(d) => d.millis as int,
        None => 0,
    }
}

/// The instant from which the interval of a timer is measured: its last run,
/// or, before the first run, its creation plus its delay.
pub open spec fn interval_anchor<C>(t: Timer<C>) -> int {
    match t.last_run {
        Some(s) => s.millis as int,
        None => t.created.millis + delay_of(t),
    }
}

/// The firing rule of a timer evaluated at `now`.
pub open spec fn timer_decision<C>(t: Timer<C>, now: Instant) -> TimerDecision {
    if t.timeout is Some && elapsed(now.millis as int, t.created.millis as int)
        > t.timeout->0.millis {
        TimerDecision::Expire
    } else if t.interval is Some && (now.millis < interval_anchor(t) || now.millis
        - interval_anchor(t) < t.interval->0.millis) {
        TimerDecision::Wait
    } else {
        TimerDecision::Fire
    }
}

/// The timer after it was called at `now`.
pub open spec fn after_run<C>(t: Timer<C>, now: Instant) -> Timer<C> {
    Timer { last_run: Some(now), ..t }
}

impl<C> Timer<C> {
    /// Creates a timer that was created at `created` and has not run yet.
    pub fn created_at(callback: C, created: Instant) -> (r: Timer<C>)
        ensures
            r.created == created,
            r.last_run is None,
            r.delay is None,
            r.interval is None,
            r.timeout is None,
            r.callback == callback,
    {
        Timer { created, last_run: None, delay: None, interval: None, timeout: None, callback }
    }

    /// Creates a new timer, created now.
    pub fn new(callback: C) -> (r: Timer<C>)
        ensures
            r.last_run is None,
            r.delay is None,
            r.interval is None,
            r.timeout is None,
            r.callback == callback,
    {
        Self::created_at(callback, Instant::now())
    }

    /// Delays the timer to not start immediately but rather
    /// start after a certain time frame has elapsed.
    pub fn with_delay(self, delay: Duration) -> (r: Timer<C>)
        ensures
            r == (Timer { delay: Some(delay), ..self }),
    {
        Timer { delay: Some(delay), ..self }
    }

    /// Runs the function only if the given `Duration` has elapsed since the last run.
    pub fn with_interval(self, interval: Duration) -> (r: Timer<C>)
        ensures
            r == (Timer { interval: Some(interval), ..self }),
    {
        Timer { interval: Some(interval), ..self }
    }

    /// Converts the timer into a countdown, by giving it a maximum duration
    /// (counted from the creation of the Timer, not the first use).
    pub fn with_timeout(self, timeout: Duration) -> (r: Timer<C>)
        ensures
            r == (Timer { timeout: Some(timeout), ..self }),
    {
        Timer { timeout: Some(timeout), ..self }
    }

    /// Evaluates the firing rule at `now`.
    pub fn decide(&self, now: Instant) -> (r: TimerDecision)
        ensures
            r == timer_decision(*self, now),
    {
        let since_created: u64 = if now.millis >= self.created.millis {
            now.millis - self.created.millis
        } else {
            0
        };
        if let Some(timeout) = self.timeout {
            if since_created > timeout.millis {
                return TimerDecision::Expire;
            }
        }
        if let Some(interval) = self.interval {
            // the anchor lies after `now` (or the clock went back): not yet
            let since_anchor: Option<u64> = match self.last_run {
                Some(s) => if now.millis >= s.millis {
                    Some(now.millis - s.millis)
                } else {
                    None
                },
                None => {
                    let delay: u64 = match self.delay {
                        Some(d) => d.millis,
                        None => 0,
                    };
                    if now.millis >= self.created.millis && since_created >= delay {
                        Some(since_created - delay)
                    } else {
                        None
                    }
                },
            };
            match since_anchor {
                None => {
                    return TimerDecision::Wait;
                },
                Some(gap) => {
                    if gap < interval.millis {
                        return TimerDecision::Wait;
                    }
                },
            }
        }
        TimerDecision::Fire
    }
}

impl<C: Copy> Timer<C> {
    /// Invokes the timer at `now` if its timeout and interval allow it.
    ///
    /// `call` runs the callback handle. An expired timer answers
    /// `(DontRedraw, Terminate)` and a waiting one `(DontRedraw, Continue)`,
    /// both without calling it; a timer that fires records `now` as its last run.
    pub fn invoke_at<F: FnOnce(C) -> TimerCallbackReturn>(&mut self, now: Instant, call: F) -> (r:
        TimerCallbackReturn)
        requires
            call.requires((old(self).callback,)),
        ensures
            timer_decision(*old(self), now) == TimerDecision::Expire ==> r == (
            UpdateScreen::DontRedraw,
            TerminateTimer::Terminate,
            ) && *final(self) == *old(self),
            timer_decision(*old(self), now) == TimerDecision::Wait ==> r == (
            UpdateScreen::DontRedraw,
            TerminateTimer::Continue,
            ) && *final(self) == *old(self),
            timer_decision(*old(self), now) == TimerDecision::Fire ==> call.ensures(
                (old(self).callback,),
                r,
            ) && *final(self) == after_run(*old(self), now),
    {
        match self.decide(now) {
            TimerDecision::Expire => (UpdateScreen::DontRedraw, TerminateTimer::Terminate),
            TimerDecision::Wait => (UpdateScreen::DontRedraw, TerminateTimer::Continue),
            TimerDecision::Fire => {
                let res = call(self.callback);
                self.last_run = Some(now);
                res
            },
        }
    }

    /// Invokes the timer at the current time (see `invoke_at`).
    pub fn invoke<F: FnOnce(C) -> TimerCallbackReturn>(&mut self, call: F) -> (r:
        TimerCallbackReturn)
        requires
            call.requires((old(self).callback,)),
        ensures
            exists|now: Instant|
                {
                    &&& timer_decision(*old(self), now) == TimerDecision::Expire ==> r == (
                    UpdateScreen::DontRedraw,
                    TerminateTimer::Terminate,
                    ) && *final(self) == *old(self)
                    &&& timer_decision(*old(self), now) == TimerDecision::Wait ==> r == (
                    UpdateScreen::DontRedraw,
                    TerminateTimer::Continue,
                    ) && *final(self) == *old(self)
                    &&& timer_decision(*old(self), now) == TimerDecision::Fire ==> call.ensures(
                        (old(self).callback,),
                        r,
                    ) && *final(self) == after_run(*old(self), now)
                },
    {
        let now = Instant::now();
        self.invoke_at(now, call)
    }
}


/// Timer entries whose identifiers strictly ascend (hence are unique).
pub open spec fn ids_ascending<C>(s: Seq<(TimerId, Timer<C>)>) -> bool {
    forall|i: int, j: int| 0 <= i < j < s.len() ==> s[i].0.id < s[j].0.id
}

/// The entries as a map from identifier to timer.
pub open spec fn entries_map<C>(s: Seq<(TimerId, Timer<C>)>) -> Map<TimerId, Timer<C>> {
    Map::new(
        |id: TimerId| exists|i: int| 0 <= i < s.len() && s[i].0 == id,
        |id: TimerId| s[choose|i: int| 0 <= i < s.len() && s[i].0 == id].1,
    )
}

/// The timer after one evaluation at `now`: a timer that fired records the run.
pub open spec fn evaluated<C>(t: Timer<C>, now: Instant) -> Timer<C> {
    if timer_decision(t, now) == TimerDecision::Fire {
        after_run(t, now)
    } else {
        t
    }
}

/// The entries among the first `n` that stay after a timer pass at `now`
/// whose outcomes are `outcomes`: those whose outcome says `Continue`,
/// evaluated at `now`.
pub open spec fn survivors<C>(
    s: Seq<(TimerId, Timer<C>)>,
    outcomes: Seq<(TimerId, TimerCallbackReturn)>,
    now: Instant,
    n: int,
) -> Seq<(TimerId, Timer<C>)>
    decreases n,
{
    if n <= 0 {
        Seq::empty()
    } else {
        let prev = survivors(s, outcomes, now, n - 1);
        if outcomes[n - 1].1.1 == TerminateTimer::Continue {
            prev.push((s[n - 1].0, evaluated(s[n - 1].1, now)))
        } else {
            prev
        }
    }
}

/// Whether the outcome of one timer agrees with the firing rule: an expired
/// timer terminates, a waiting one continues, both without a redraw; a fired
/// one answers whatever its callback answered.
pub open spec fn outcome_agrees<C, F: FnOnce(C) -> TimerCallbackReturn>(
    t: Timer<C>,
    now: Instant,
    call: F,
    r: TimerCallbackReturn,
) -> bool {
    &&& timer_decision(t, now) == TimerDecision::Expire ==> r == (
    UpdateScreen::DontRedraw,
    TerminateTimer::Terminate,
    )
    &&& timer_decision(t, now) == TimerDecision::Wait ==> r == (
    UpdateScreen::DontRedraw,
    TerminateTimer::Continue,
    )
    &&& timer_decision(t, now) == TimerDecision::Fire ==> call.ensures((t.callback,), r)
}

/// Whether any of the outcomes votes for a redraw.
pub open spec fn any_redraw(outcomes: Seq<(TimerId, TimerCallbackReturn)>) -> bool {
    exists|i: int| 0 <= i < outcomes.len() && outcomes[i].1.0 == UpdateScreen::Redraw
}

/// The running timers of an application, kept in ascending `TimerId` order.
#[derive(Debug)]
pub struct Timers<C> {
    pub entries: Vec<(TimerId, Timer<C>)>,
}

impl<C> Timers<C> {
    pub open spec fn wf(&self) -> bool {
        ids_ascending(self.entries@)
    }

    pub open spec fn view(&self) -> Map<TimerId, Timer<C>> {
        entries_map(self.entries@)
    }

    pub fn new() -> (r: Timers<C>)
        ensures
            r.wf(),
            r.entries@.len() == 0,
            r@ == Map::<TimerId, Timer<C>>::empty(),
    {
        let r = Timers { entries: Vec::new() };
        assert(r@ =~= Map::<TimerId, Timer<C>>::empty());
        r
    }

    /// The position of `id` among the entries, if it is there.
    fn position(&self, id: TimerId) -> (r: Option<usize>)
        requires
            self.wf(),
        ensures
            r is Some ==> r->0 < self.entries@.len() && self.entries@[r->0 as int].0 == id,
            r is None ==> !self@.contains_key(id),
    {
        let mut i: usize = 0;
        while i < self.entries.len()
            invariant
                i <= self.entries@.len(),
                forall|j: int| 0 <= j < i ==> self.entries@[j].0 != id,
            decreases self.entries@.len() - i,
        {
            if self.entries[i].0.id == id.id {
                return Some(i);
            }
            i = i + 1;
        }
        None
    }

    /// Whether a timer with this identifier is running.
    pub fn has_timer(&self, timer_id: &TimerId) -> (r: bool)
        requires
            self.wf(),
        ensures
            r == self@.contains_key(*timer_id),
    {
        match self.position(*timer_id) {
            Some(_) => true,
            None => false,
        }
    }

    /// Inserts a timer into the running timers; a timer with the same
    /// identifier is replaced.
    pub fn add_timer(&mut self, id: TimerId, timer: Timer<C>)
        requires
            old(self).wf(),
        ensures
            final(self).wf(),
            final(self)@ == old(self)@.insert(id, timer),
    {
        let ghost s0 = self.entries@;
        match self.position(id) {
            Some(k) => {
                self.entries.set(k, (id, timer));
                proof {
                    lemma_replace_entry(s0, k as int, id, timer);
                }
            },
            None => {
                let mut p: usize = 0;
                while p < self.entries.len() && self.entries[p].0.id < id.id
                    invariant
                        self.entries@ == s0,
                        ids_ascending(s0),
                        p <= s0.len(),
                        forall|j: int| 0 <= j < p ==> s0[j].0.id < id.id,
                    decreases s0.len() - p,
                {
                    p = p + 1;
                }
                proof {
                    assert forall|j: int| p <= j < s0.len() implies s0[j].0.id > id.id by {
                        if s0[j].0.id == id.id {
                            assert(s0[j].0 == id);
                            assert(entries_map(s0).contains_key(id));
                        }
                        if j > p {
                            assert(s0[p as int].0.id < s0[j].0.id);
                        }
                    }
                    lemma_insert_entry(s0, p as int, id, timer);
                }
                self.entries.insert(p, (id, timer));
            },
        }
    }
}

impl<C> Timers<C> {
    /// Removes the timer with this identifier and hands it back.
    pub fn delete_timer(&mut self, timer_id: &TimerId) -> (r: Option<Timer<C>>)
        requires
            old(self).wf(),
        ensures
            final(self).wf(),
            final(self)@ == old(self)@.remove(*timer_id),
            r == (if old(self)@.contains_key(*timer_id) {
                Some(old(self)@[*timer_id])
            } else {
                None::<Timer<C>>
            }),
    {
        let ghost s0 = self.entries@;
        match self.position(*timer_id) {
            Some(k) => {
                proof {
                    lemma_lookup_at(s0, k as int);
                    lemma_remove_entry(s0, k as int);
                }
                let (_, t) = self.entries.remove(k);
                Some(t)
            },
            None => {
                assert(self@ =~= entries_map(s0).remove(*timer_id));
                None
            },
        }
    }

    /// Adds a timer under a fresh identifier drawn from `counter`, as happens
    /// to the continuation of a finished task.
    pub fn add_continuation(&mut self, counter: &mut IdCounter, timer: Timer<C>) -> (r: TimerId)
        requires
            old(self).wf(),
            old(counter).next < usize::MAX,
        ensures
            final(self).wf(),
            r.id == old(counter).next,
            final(counter).next == old(counter).next + 1,
            final(self)@ == old(self)@.insert(r, timer),
    {
        let id = TimerId::new(counter);
        self.add_timer(id, timer);
        id
    }

    /// Runs one timer pass at `now`, in ascending `TimerId` order.
    ///
    /// Each timer is evaluated by the firing rule and `call` runs the
    /// callbacks of those that fire. The outcome of every timer is handed
    /// back, in order; timers whose outcome says `Terminate` (expired ones
    /// included) are removed, and those that fired record `now` as their last run.
    pub fn run_timers_at<F: Fn(C) -> TimerCallbackReturn>(&mut self, now: Instant, call: F) -> (r:
        Vec<(TimerId, TimerCallbackReturn)>)
        where C: Copy
        requires
            old(self).wf(),
            forall|c: C| call.requires((c,)),
        ensures
            final(self).wf(),
            r@.len() == old(self).entries@.len(),
            forall|i: int|
                0 <= i < r@.len() ==> #[trigger] r@[i].0 == old(self).entries@[i].0
                    && outcome_agrees(old(self).entries@[i].1, now, call, r@[i].1),
            final(self).entries@ == survivors(old(self).entries@, r@, now, r@.len() as int),
    {
        let ghost s0 = self.entries@;
        let mut kept: Vec<(TimerId, Timer<C>)> = Vec::new();
        let mut outcomes: Vec<(TimerId, TimerCallbackReturn)> = Vec::new();
        let mut i: usize = 0;
        while i < self.entries.len()
            invariant
                self.entries@ == s0,
                ids_ascending(s0),
                forall|c: C| call.requires((c,)),
                i <= s0.len(),
                outcomes@.len() == i,
                forall|j: int|
                    0 <= j < i ==> #[trigger] outcomes@[j].0 == s0[j].0 && outcome_agrees(
                        s0[j].1,
                        now,
                        call,
                        outcomes@[j].1,
                    ),
                kept@ == survivors(s0, outcomes@, now, i as int),
                ids_ascending(kept@),
                forall|k: int, j: int|
                    0 <= k < kept@.len() && i <= j < s0.len() ==> kept@[k].0.id < s0[j].0.id,
            decreases s0.len() - i,
        {
            let (id, t) = self.entries[i];
            let res: TimerCallbackReturn = match t.decide(now) {
                TimerDecision::Expire => (UpdateScreen::DontRedraw, TerminateTimer::Terminate),
                TimerDecision::Wait => (UpdateScreen::DontRedraw, TerminateTimer::Continue),
                TimerDecision::Fire => call(t.callback),
            };
            let ghost out_prev = outcomes@;
            outcomes.push((id, res));
            proof {
                assert forall|n: int| 0 <= n <= i implies survivors(s0, outcomes@, now, n)
                    == survivors(s0, out_prev, now, n) by {
                    lemma_survivors_prefix(s0, outcomes@, out_prev, now, n);
                }
            }
            let stays = match res.1 {
                TerminateTimer::Continue => true,
                TerminateTimer::Terminate => false,
            };
            if stays {
                let t2 = match t.decide(now) {
                    TimerDecision::Fire => Timer { last_run: Some(now), ..t },
                    _ => t,
                };
                kept.push((id, t2));
            }
            i = i + 1;
        }
        self.entries = kept;
        outcomes
    }

    /// Runs one timer pass at the current time (see `run_timers_at`).
    pub fn run_timers<F: Fn(C) -> TimerCallbackReturn>(&mut self, call: F) -> (r: Vec<
        (TimerId, TimerCallbackReturn),
    >)
        where C: Copy
        requires
            old(self).wf(),
            forall|c: C| call.requires((c,)),
        ensures
            final(self).wf(),
            exists|now: Instant|
                {
                    &&& r@.len() == old(self).entries@.len()
                    &&& forall|i: int|
                        0 <= i < r@.len() ==> #[trigger] r@[i].0 == old(self).entries@[i].0
                            && outcome_agrees(old(self).entries@[i].1, now, call, r@[i].1)
                    &&& final(self).entries@ == survivors(
                        old(self).entries@,
                        r@,
                        now,
                        r@.len() as int,
                    )
                },
    {
        let now = Instant::now();
        self.run_timers_at(now, call)
    }
}

/// The timers `m` after `ts[0..n]` were added under the identifiers
/// `first, first + 1, ...`.
pub open spec fn adopted<C>(m: Map<TimerId, Timer<C>>, first: int, ts: Seq<Timer<C>>, n: int) -> Map<
    TimerId,
    Timer<C>,
>
    decreases n,
{
    if n <= 0 {
        m
    } else {
        adopted(m, first, ts, n - 1).insert(TimerId { id: (first + n - 1) as usize }, ts[n - 1])
    }
}

impl<C: Copy> Timers<C> {
    /// Moves the continuation timers of finished tasks into the running
    /// timers, in order, each under a fresh identifier from `counter`; they
    /// run in the next timer pass.
    pub fn adopt_continuations(&mut self, counter: &mut IdCounter, continuations: &Vec<Timer<C>>) -> (r:
        Vec<TimerId>)
        requires
            old(self).wf(),
            old(counter).next + continuations@.len() <= usize::MAX,
        ensures
            final(self).wf(),
            r@.len() == continuations@.len(),
            forall|i: int| 0 <= i < r@.len() ==> (#[trigger] r@[i]).id == old(counter).next + i,
            final(counter).next == old(counter).next + continuations@.len(),
            final(self)@ == adopted(
                old(self)@,
                old(counter).next as int,
                continuations@,
                continuations@.len() as int,
            ),
    {
        let ghost m0 = self@;
        let ghost first = counter.next as int;
        let mut ids: Vec<TimerId> = Vec::new();
        let mut i: usize = 0;
        while i < continuations.len()
            invariant
                self.wf(),
                i <= continuations@.len(),
                counter.next == first + i,
                first + continuations@.len() <= usize::MAX,
                ids@.len() == i,
                forall|k: int| 0 <= k < i ==> (#[trigger] ids@[k]).id == first + k,
                self@ == adopted(m0, first, continuations@, i as int),
            decreases continuations@.len() - i,
        {
            let id = self.add_continuation(counter, continuations[i]);
            ids.push(id);
            i = i + 1;
        }
        ids
    }
    /// A copy of the timer with this identifier, if it is running.
    pub fn get_timer(&self, timer_id: &TimerId) -> (r: Option<Timer<C>>)
        requires
            self.wf(),
        ensures
            r == (if self@.contains_key(*timer_id) {
                Some(self@[*timer_id])
            } else {
                None::<Timer<C>>
            }),
    {
        match self.position(*timer_id) {
            Some(k) => {
                proof {
                    lemma_lookup_at(self.entries@, k as int);
                }
                Some(self.entries[k].1)
            },
            None => None,
        }
    }
}

/// The redraw vote of a timer pass: `Redraw` as soon as one timer voted for it.
pub fn aggregate_redraw(outcomes: &Vec<(TimerId, TimerCallbackReturn)>) -> (r: UpdateScreen)
    ensures
        r == UpdateScreen::Redraw <==> any_redraw(outcomes@),
{
    let mut i: usize = 0;
    while i < outcomes.len()
        invariant
            i <= outcomes@.len(),
            forall|j: int| 0 <= j < i ==> outcomes@[j].1.0 != UpdateScreen::Redraw,
        decreases outcomes@.len() - i,
    {
        match outcomes[i].1.0 {
            UpdateScreen::Redraw => {
                return UpdateScreen::Redraw;
            },
            UpdateScreen::DontRedraw => {},
        }
        i = i + 1;
    }
    UpdateScreen::DontRedraw
}

/// The survivors of a prefix depend only on the outcomes of that prefix.
proof fn lemma_survivors_prefix<C>(
    s: Seq<(TimerId, Timer<C>)>,
    o1: Seq<(TimerId, TimerCallbackReturn)>,
    o2: Seq<(TimerId, TimerCallbackReturn)>,
    now: Instant,
    n: int,
)
    requires
        n <= o1.len(),
        n <= o2.len(),
        forall|j: int| 0 <= j < n ==> o1[j] == o2[j],
    ensures
        survivors(s, o1, now, n) == survivors(s, o2, now, n),
    decreases n,
{
    if n > 0 {
        lemma_survivors_prefix(s, o1, o2, now, n - 1);
    }
}

proof fn lemma_remove_entry<C>(s0: Seq<(TimerId, Timer<C>)>, k: int)
    requires
        ids_ascending(s0),
        0 <= k < s0.len(),
    ensures
        ids_ascending(s0.remove(k)),
        entries_map(s0.remove(k)) == entries_map(s0).remove(s0[k].0),
{
    let s1 = s0.remove(k);
    let id = s0[k].0;
    assert(ids_ascending(s1)) by {
        assert forall|i: int, j: int| 0 <= i < j < s1.len() implies s1[i].0.id < s1[j].0.id by {
            if j < k {
            } else if i < k {
                assert(s1[j] == s0[j + 1]);
            } else {
                assert(s1[j] == s0[j + 1]);
                assert(s1[i] == s0[i + 1]);
            }
        }
    }
    let m0 = entries_map(s0);
    let m1 = entries_map(s1);
    assert forall|key: TimerId| #[trigger] m1.contains_key(key) == m0.remove(id).contains_key(key) by {
        if m1.contains_key(key) {
            let i = choose|i: int| 0 <= i < s1.len() && s1[i].0 == key;
            if i < k {
                assert(s0[i].0 == key);
                if key == id {
                    lemma_unique_index(s0, i, k);
                }
            } else {
                assert(s0[i + 1].0 == key);
                if key == id {
                    lemma_unique_index(s0, i + 1, k);
                }
            }
        }
        if m0.contains_key(key) && key != id {
            let i = choose|i: int| 0 <= i < s0.len() && s0[i].0 == key;
            if i < k {
                assert(s1[i].0 == key);
            } else {
                assert(i != k);
                assert(s1[i - 1].0 == key);
            }
        }
    }
    assert forall|key: TimerId| #[trigger] m1.contains_key(key) implies m1[key] == m0.remove(id)[key] by {
        let i = choose|i: int| 0 <= i < s1.len() && s1[i].0 == key;
        lemma_lookup_at(s1, i);
        if i < k {
            lemma_lookup_at(s0, i);
        } else {
            lemma_lookup_at(s0, i + 1);
        }
    }
    assert(m1 =~= m0.remove(id));
}

/// The index of an identifier among ascending entries is unique.
proof fn lemma_unique_index<C>(s: Seq<(TimerId, Timer<C>)>, i: int, j: int)
    requires
        ids_ascending(s),
        0 <= i < s.len(),
        0 <= j < s.len(),
        s[i].0 == s[j].0,
    ensures
        i == j,
{
    if i < j {
        assert(s[i].0.id < s[j].0.id);
    }
    if j < i {
        assert(s[j].0.id < s[i].0.id);
    }
}

/// Looking up the key of the entry at `i` yields that entry's timer.
proof fn lemma_lookup_at<C>(s: Seq<(TimerId, Timer<C>)>, i: int)
    requires
        ids_ascending(s),
        0 <= i < s.len(),
    ensures
        entries_map(s).contains_key(s[i].0),
        entries_map(s)[s[i].0] == s[i].1,
{
    let key = s[i].0;
    assert(exists|j: int| 0 <= j < s.len() && s[j].0 == key);
    let c = choose|j: int| 0 <= j < s.len() && s[j].0 == key;
    lemma_unique_index(s, c, i);
}

proof fn lemma_replace_entry<C>(s0: Seq<(TimerId, Timer<C>)>, k: int, id: TimerId, t: Timer<C>)
    requires
        ids_ascending(s0),
        0 <= k < s0.len(),
        s0[k].0 == id,
    ensures
        ids_ascending(s0.update(k, (id, t))),
        entries_map(s0.update(k, (id, t))) == entries_map(s0).insert(id, t),
{
    let s1 = s0.update(k, (id, t));
    assert(ids_ascending(s1));
    let m0 = entries_map(s0);
    let m1 = entries_map(s1);
    assert forall|key: TimerId| #[trigger] m1.contains_key(key) == m0.insert(id, t).contains_key(key) by {
        if m1.contains_key(key) {
            let i = choose|i: int| 0 <= i < s1.len() && s1[i].0 == key;
            if i != k {
                assert(s0[i].0 == key);
            }
        }
        if m0.contains_key(key) {
            let i = choose|i: int| 0 <= i < s0.len() && s0[i].0 == key;
            assert(s1[i].0 == key);
        }
        if key == id {
            assert(s1[k].0 == key);
        }
    }
    assert forall|key: TimerId| #[trigger] m1.contains_key(key) implies m1[key] == m0.insert(id, t)[key] by {
        let i = choose|i: int| 0 <= i < s1.len() && s1[i].0 == key;
        lemma_lookup_at(s1, i);
        if i != k {
            lemma_lookup_at(s0, i);
        }
    }
    assert(m1 =~= m0.insert(id, t));
}

proof fn lemma_insert_entry<C>(s0: Seq<(TimerId, Timer<C>)>, p: int, id: TimerId, t: Timer<C>)
    requires
        ids_ascending(s0),
        0 <= p <= s0.len(),
        forall|j: int| 0 <= j < p ==> s0[j].0.id < id.id,
        forall|j: int| p <= j < s0.len() ==> s0[j].0.id > id.id,
    ensures
        ids_ascending(s0.insert(p, (id, t))),
        entries_map(s0.insert(p, (id, t))) == entries_map(s0).insert(id, t),
{
    let s1 = s0.insert(p, (id, t));
    assert(ids_ascending(s1)) by {
        assert forall|i: int, j: int| 0 <= i < j < s1.len() implies s1[i].0.id < s1[j].0.id by {
            if j < p {
            } else if j == p {
            } else if i < p {
                assert(s1[j] == s0[j - 1]);
            } else if i == p {
                assert(s1[j] == s0[j - 1]);
            } else {
                assert(s1[j] == s0[j - 1]);
                assert(s1[i] == s0[i - 1]);
            }
        }
    }
    let m0 = entries_map(s0);
    let m1 = entries_map(s1);
    assert forall|key: TimerId| #[trigger] m1.contains_key(key) == m0.insert(id, t).contains_key(key) by {
        if m1.contains_key(key) {
            let i = choose|i: int| 0 <= i < s1.len() && s1[i].0 == key;
            if i < p {
                assert(s0[i].0 == key);
            } else if i > p {
                assert(s0[i - 1].0 == key);
            }
        }
        if m0.contains_key(key) {
            let i = choose|i: int| 0 <= i < s0.len() && s0[i].0 == key;
            if i < p {
                assert(s1[i].0 == key);
            } else {
                assert(s1[i + 1].0 == key);
            }
        }
        if key == id {
            assert(s1[p].0 == key);
        }
    }
    assert forall|key: TimerId| #[trigger] m1.contains_key(key) implies m1[key] == m0.insert(id, t)[key] by {
        let i = choose|i: int| 0 <= i < s1.len() && s1[i].0 == key;
        lemma_lookup_at(s1, i);
        if i < p {
            lemma_lookup_at(s0, i);
        } else if i > p {
            lemma_lookup_at(s0, i - 1);
        }
    }
    assert(m1 =~= m0.insert(id, t));
}

/// A timer with an interval `I` and a delay `D` fires for the first time no
/// earlier than `D + I` after its creation, and every later firing comes at
/// least `I` after the previous one, also when `I` is zero.
pub proof fn lemma_interval_spacing<C>(t: Timer<C>, now: Instant, later: Instant)
    requires
        t.interval is Some,
    ensures
        t.last_run is None && timer_decision(t, now) == TimerDecision::Fire ==> now.millis
            >= t.created.millis + delay_of(t) + t.interval->0.millis,
        t.last_run is Some && timer_decision(t, now) == TimerDecision::Fire ==> now.millis
            >= t.last_run->0.millis + t.interval->0.millis,
        timer_decision(after_run(t, now), later) == TimerDecision::Fire ==> later.millis
            >= now.millis + t.interval->0.millis,
{
}

/// A timer whose timeout `X` has passed is removed at the first evaluation
/// after its creation plus `X`, without its callback being called: the
/// firing rule says it expired, and a timer pass drops it.
pub proof fn lemma_timeout_removes<C, F: FnOnce(C) -> TimerCallbackReturn>(
    s: Seq<(TimerId, Timer<C>)>,
    outcomes: Seq<(TimerId, TimerCallbackReturn)>,
    now: Instant,
    call: F,
    i: int,
)
    requires
        ids_ascending(s),
        outcomes.len() == s.len(),
        forall|j: int|
            0 <= j < s.len() ==> #[trigger] outcomes[j].0 == s[j].0 && outcome_agrees(
                s[j].1,
                now,
                call,
                outcomes[j].1,
            ),
        0 <= i < s.len(),
        s[i].1.timeout is Some,
        now.millis > s[i].1.created.millis + s[i].1.timeout->0.millis,
    ensures
        timer_decision(s[i].1, now) == TimerDecision::Expire,
        outcomes[i].1 == (UpdateScreen::DontRedraw, TerminateTimer::Terminate),
        !entries_map(survivors(s, outcomes, now, s.len() as int)).contains_key(s[i].0),
{
    assert(outcomes[i].0 == s[i].0);
    lemma_survivors_from(s, outcomes, now, s.len() as int);
    let sv = survivors(s, outcomes, now, s.len() as int);
    if entries_map(sv).contains_key(s[i].0) {
        let k = choose|k: int| 0 <= k < sv.len() && sv[k].0 == s[i].0;
        assert(sv[k].0 == s[i].0);
        assert(continued_id(s, outcomes, s.len() as int, sv[k].0));
        let j = choose|j: int|
            0 <= j < s.len() && outcomes[j].1.1 == TerminateTimer::Continue && s[j].0 == sv[k].0;
        lemma_unique_index(s, i, j);
    }
}

/// Whether one of the first `n` entries has identifier `id` and an outcome that says `Continue`.
pub open spec fn continued_id<C>(
    s: Seq<(TimerId, Timer<C>)>,
    outcomes: Seq<(TimerId, TimerCallbackReturn)>,
    n: int,
    id: TimerId,
) -> bool {
    exists|j: int| 0 <= j < n && outcomes[j].1.1 == TerminateTimer::Continue && s[j].0 == id
}

/// Every survivor of a pass comes from an entry whose outcome says `Continue`.
proof fn lemma_survivors_from<C>(
    s: Seq<(TimerId, Timer<C>)>,
    outcomes: Seq<(TimerId, TimerCallbackReturn)>,
    now: Instant,
    n: int,
)
    requires
        0 <= n <= s.len(),
        n <= outcomes.len(),
    ensures
        forall|k: int|
            0 <= k < survivors(s, outcomes, now, n).len() ==> continued_id(
                s,
                outcomes,
                n,
                #[trigger] survivors(s, outcomes, now, n)[k].0,
            ),
    decreases n,
{
    if n > 0 {
        lemma_survivors_from(s, outcomes, now, n - 1);
        let prev = survivors(s, outcomes, now, n - 1);
        let cur = survivors(s, outcomes, now, n);
        assert forall|k: int| 0 <= k < cur.len() implies continued_id(s, outcomes, n, cur[k].0) by {
            if k < prev.len() {
                assert(cur[k] == prev[k]);
                assert(continued_id(s, outcomes, n - 1, prev[k].0));
                let j = choose|j: int|
                    0 <= j < n - 1 && outcomes[j].1.1 == TerminateTimer::Continue && s[j].0
                        == prev[k].0;
                assert(0 <= j < n);
            } else {
                assert(cur[k].0 == s[n - 1].0);
            }
        }
    }
}

} // verus!
