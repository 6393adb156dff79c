//! The booking store: at most one booking per applicant, at most
//! `max_enrollee` bookings per (date, time) bucket, kept in registration order.

use crate::calendar::{slot_before, Date, Moment};
use crate::slots::{is_label, Schedule};
use vstd::prelude::*;

verus! {

/// One applicant's booking of a (date, time) bucket.
#[derive(Clone, Copy, Debug, PartialEq, Eq, Structural)]
pub struct Booking {
    pub applicant: i64,
    pub date: Date,
    pub time: u32,
}

/// Why a registration was refused.
#[derive(Clone, Copy, Debug, PartialEq, Eq, Structural)]
pub enum BookingError {
    /// The bucket already holds `max_enrollee` bookings.
    SlotFull,
    /// The bucket lies in the past or is not a time of the day's schedule.
    InvalidSlot,
}

/// Why no queue position could be given.
#[derive(Clone, Copy, Debug, PartialEq, Eq, Structural)]
pub enum QueueError {
    NotBooked,
}

/// Number of bookings of the bucket (`d`, `t`).
pub open spec fn count_at(s: Seq<Booking>, d: Date, t: u32) -> nat
    decreases s.len(),
{
    if s.len() == 0 {
        0
    } else {
        count_at(s.drop_last(), d, t) + if s.last().date == d && s.last().time == t {
            1nat
        } else {
            0nat
        }
    }
}

/// Number of bookings held by applicant `a`.
pub open spec fn holds(s: Seq<Booking>, a: i64) -> nat
    decreases s.len(),
{
    if s.len() == 0 {
        0
    } else {
        holds(s.drop_last(), a) + if s.last().applicant == a {
            1nat
        } else {
            0nat
        }
    }
}

/// `s` with the bookings of applicant `a` taken out, the others in order.
pub open spec fn without(s: Seq<Booking>, a: i64) -> Seq<Booking>
    decreases s.len(),
{
    if s.len() == 0 {
        s
    } else if s.last().applicant == a {
        without(s.drop_last(), a)
    } else {
        without(s.drop_last(), a).push(s.last())
    }
}

/// No applicant holds two bookings.
pub open spec fn one_per_applicant(s: Seq<Booking>) -> bool {
    forall|a: i64| #[trigger] holds(s, a) <= 1
}

/// The bucket (`d`, `t`) is at capacity.
pub open spec fn occupied(s: Seq<Booking>, max_enrollee: u16, d: Date, t: u32) -> bool {
    count_at(s, d, t) >= max_enrollee
}

/// What registering `a` at (`d`, `t`) answers.
pub open spec fn register_outcome(
    s: Seq<Booking>,
    sched: Schedule,
    a: i64,
    d: Date,
    t: u32,
    now: Moment,
) -> Result<bool, BookingError> {
    if slot_before(d, t, now) || !is_label(sched, t) {
        Err(BookingError::InvalidSlot)
    } else if occupied(s, sched.max_enrollee, d, t) {
        Err(BookingError::SlotFull)
    } else {
        Ok(holds(s, a) > 0)
    }
}

/// The bookings after `a` registered at (`d`, `t`): any earlier booking of
/// `a` is gone and the new one comes last.
pub open spec fn registered(s: Seq<Booking>, a: i64, d: Date, t: u32) -> Seq<Booking> {
    without(s, a).push(Booking { applicant: a, date: d, time: t })
}

/// Booking `x` comes before booking `y` in the day-of order: earlier date,
/// then earlier time.
pub open spec fn slot_lt(x: Booking, y: Booking) -> bool {
    crate::calendar::date_lt(x.date, y.date) || (x.date == y.date && x.time < y.time)
}

/// Number of bookings among the first `n` of `s` that stand ahead of the
/// booking at index `i`: an earlier bucket, or the same bucket registered
/// earlier.
pub open spec fn ahead_of(s: Seq<Booking>, i: int, n: int) -> nat
    decreases n,
{
    if n <= 0 {
        0
    } else {
        ahead_of(s, i, n - 1) + if slot_lt(s[n - 1], s[i]) || (s[n - 1].date == s[i].date && s[n
            - 1].time == s[i].time && n - 1 < i) {
            1nat
        } else {
            0nat
        }
    }
}

/// Index of the booking of applicant `a`, if any.
pub open spec fn index_of(s: Seq<Booking>, a: i64) -> Option<int>
    decreases s.len(),
{
    if s.len() == 0 {
        None
    } else if s.last().applicant == a {
        Some(s.len() - 1)
    } else {
        index_of(s.drop_last(), a)
    }
}

/// Queue position of applicant `a`: how many bookings stand ahead of theirs.
pub open spec fn position(s: Seq<Booking>, a: i64) -> Result<nat, QueueError> {
    match index_of(s, a) {
        Some(i) => Ok(ahead_of(s, i, s.len() as int)),
        None => Err(QueueError::NotBooked),
    }
}

pub proof fn lemma_without_holds(s: Seq<Booking>, a: i64, b: i64)
    ensures
        holds(without(s, a), b) == if a == b {
            0
        } else {
            holds(s, b)
        },
    decreases s.len(),
{
    if s.len() > 0 {
        lemma_without_holds(s.drop_last(), a, b);
        if s.last().applicant != a {
            let w = without(s.drop_last(), a);
            assert(w.push(s.last()).drop_last() =~= w);
        }
    }
}

pub proof fn lemma_without_absent(s: Seq<Booking>, a: i64)
    requires
        holds(s, a) == 0,
    ensures
        without(s, a) == s,
    decreases s.len(),
{
    if s.len() > 0 {
        lemma_without_absent(s.drop_last(), a);
        assert(s.drop_last().push(s.last()) =~= s);
    }
}

pub proof fn lemma_index_of(s: Seq<Booking>, a: i64)
    ensures
        index_of(s, a) matches Some(i) ==> 0 <= i < s.len() && s[i].applicant == a,
        index_of(s, a) is None <==> holds(s, a) == 0,
    decreases s.len(),
{
    if s.len() > 0 {
        lemma_index_of(s.drop_last(), a);
    }
}

proof fn lemma_ahead_bound(s: Seq<Booking>, i: int, n: int)
    ensures
        ahead_of(s, i, n) <= if n < 0 {
            0
        } else {
            n
        },
    decreases n,
{
    if n > 0 {
        lemma_ahead_bound(s, i, n - 1);
    }
}

/// The bookings after each applicant of `apps` in turn tried to register
/// at (`d`, `t`).
pub open spec fn replay(
    s: Seq<Booking>,
    sched: Schedule,
    apps: Seq<i64>,
    d: Date,
    t: u32,
    now: Moment,
) -> Seq<Booking>
    decreases apps.len(),
{
    if apps.len() == 0 {
        s
    } else {
        let prev = replay(s, sched, apps.drop_last(), d, t, now);
        match register_outcome(prev, sched, apps.last(), d, t, now) {
            Ok(_) => registered(prev, apps.last(), d, t),
            Err(_) => prev,
        }
    }
}

/// Every registration of `apps` in turn at (`d`, `t`) succeeded.
pub open spec fn all_succeed(
    s: Seq<Booking>,
    sched: Schedule,
    apps: Seq<i64>,
    d: Date,
    t: u32,
    now: Moment,
) -> bool
    decreases apps.len(),
{
    apps.len() == 0 || (all_succeed(s, sched, apps.drop_last(), d, t, now) && register_outcome(
        replay(s, sched, apps.drop_last(), d, t, now),
        sched,
        apps.last(),
        d,
        t,
        now,
    ) is Ok)
}

proof fn lemma_registered_counts(s: Seq<Booking>, a: i64, d: Date, t: u32, b: i64)
    requires
        holds(s, a) == 0,
    ensures
        count_at(registered(s, a, d, t), d, t) == count_at(s, d, t) + 1,
        b != a ==> holds(registered(s, a, d, t), b) == holds(s, b),
        holds(registered(s, a, d, t), a) == 1,
{
    lemma_without_absent(s, a);
    assert(registered(s, a, d, t).drop_last() =~= s);
}

proof fn lemma_replay_fresh(
    s: Seq<Booking>,
    sched: Schedule,
    apps: Seq<i64>,
    d: Date,
    t: u32,
    now: Moment,
)
    requires
        forall|i: int, j: int| 0 <= i < j < apps.len() ==> apps[i] != apps[j],
        forall|i: int| 0 <= i < apps.len() ==> holds(s, #[trigger] apps[i]) == 0,
        all_succeed(s, sched, apps, d, t, now),
    ensures
        count_at(replay(s, sched, apps, d, t, now), d, t) == count_at(s, d, t) + apps.len(),
        forall|b: i64| !apps.contains(b) ==> #[trigger] holds(replay(s, sched, apps, d, t, now), b)
            == holds(s, b),
    decreases apps.len(),
{
    if apps.len() > 0 {
        let init = apps.drop_last();
        let a = apps.last();
        assert forall|i: int, j: int| 0 <= i < j < init.len() implies init[i] != init[j] by {
            assert(init[i] == apps[i] && init[j] == apps[j]);
        }
        assert forall|i: int| 0 <= i < init.len() implies holds(s, #[trigger] init[i]) == 0 by {
            assert(init[i] == apps[i]);
        }
        lemma_replay_fresh(s, sched, init, d, t, now);
        let prev = replay(s, sched, init, d, t, now);
        assert(!init.contains(a)) by {
            if init.contains(a) {
                let k = choose|k: int| 0 <= k < init.len() && init[k] == a;
                assert(apps[k] == apps[apps.len() - 1]);
            }
        }
        assert(holds(s, apps[apps.len() - 1]) == 0);
        assert(holds(prev, a) == 0);
        assert forall|b: i64| !apps.contains(b) implies #[trigger] holds(
            replay(s, sched, apps, d, t, now),
            b,
        ) == holds(s, b) by {
            assert(b != a) by {
                if b == a {
                    assert(apps[apps.len() - 1] == b);
                }
            }
            assert(!init.contains(b)) by {
                if init.contains(b) {
                    let k = choose|k: int| 0 <= k < init.len() && init[k] == b;
                    assert(apps[k] == b);
                }
            }
            lemma_registered_counts(prev, a, d, t, b);
        }
        lemma_registered_counts(prev, a, d, t, a);
    }
}

/// Capacity: once `max_enrollee` distinct applicants, none of whom held a
/// booking, have each registered successfully at one valid bucket, the next
/// registration there, by anyone, fails with `SlotFull`.
pub proof fn lemma_capacity_reached(
    s: Seq<Booking>,
    sched: Schedule,
    apps: Seq<i64>,
    d: Date,
    t: u32,
    now: Moment,
    z: i64,
)
    requires
        apps.len() == sched.max_enrollee,
        forall|i: int, j: int| 0 <= i < j < apps.len() ==> apps[i] != apps[j],
        forall|i: int| 0 <= i < apps.len() ==> holds(s, #[trigger] apps[i]) == 0,
        all_succeed(s, sched, apps, d, t, now),
        is_label(sched, t),
        !slot_before(d, t, now),
    ensures
        register_outcome(replay(s, sched, apps, d, t, now), sched, z, d, t, now) == Err::<
            bool,
            BookingError,
        >(BookingError::SlotFull),
{
    lemma_replay_fresh(s, sched, apps, d, t, now);
}

/// Rebooking: after `a` registered at (`d`, `t1`), a successful registration
/// at (`d`, `t2`) reports a replacement and leaves `a` exactly one booking,
/// the one at (`d`, `t2`).
pub proof fn lemma_rebooking_replaces(
    s: Seq<Booking>,
    sched: Schedule,
    a: i64,
    d: Date,
    t1: u32,
    t2: u32,
    now: Moment,
)
    requires
        one_per_applicant(s),
        register_outcome(s, sched, a, d, t1, now) is Ok,
        register_outcome(registered(s, a, d, t1), sched, a, d, t2, now) is Ok,
    ensures
        register_outcome(registered(s, a, d, t1), sched, a, d, t2, now) == Ok::<bool, BookingError>(
            true,
        ),
        holds(registered(registered(s, a, d, t1), a, d, t2), a) == 1,
        registered(registered(s, a, d, t1), a, d, t2).last() == (Booking {
            applicant: a,
            date: d,
            time: t2,
        }),
{
    let s1 = registered(s, a, d, t1);
    lemma_without_holds(s, a, a);
    assert(s1.drop_last() =~= without(s, a));
    let s2 = registered(s1, a, d, t2);
    lemma_without_holds(s1, a, a);
    assert(s2.drop_last() =~= without(s1, a));
}

/// Occupancy depends on the bookings alone: with no registration in
/// between, two checks of one bucket agree.
pub proof fn lemma_check_occupied_stable(
    s1: Seq<Booking>,
    s2: Seq<Booking>,
    max_enrollee: u16,
    d: Date,
    t: u32,
)
    requires
        s1 == s2,
    ensures
        occupied(s1, max_enrollee, d, t) == occupied(s2, max_enrollee, d, t),
{
}

/// A refused registration leaves the bookings, and so every bucket's
/// occupancy, as they were.
pub proof fn lemma_refusal_keeps_occupancy(
    s: Seq<Booking>,
    sched: Schedule,
    a: i64,
    d: Date,
    t: u32,
    now: Moment,
    d2: Date,
    t2: u32,
)
    requires
        register_outcome(s, sched, a, d, t, now) is Err,
    ensures
        occupied(s, sched.max_enrollee, d2, t2) == occupied(
            replay(s, sched, seq![a], d, t, now),
            sched.max_enrollee,
            d2,
            t2,
        ),
{
    assert(seq![a].drop_last() =~= Seq::<i64>::empty());
    assert(seq![a].last() == a);
    assert(replay(s, sched, Seq::<i64>::empty(), d, t, now) == s);
    assert(replay(s, sched, seq![a], d, t, now) == s);
}

/// The booking store.
pub struct BookingStore {
    bookings: Vec<Booking>,
}

impl View for BookingStore {
    type V = Seq<Booking>;

    closed spec fn view(&self) -> Seq<Booking> {
        self.bookings@
    }
}

impl BookingStore {
    /// The store's invariant: each applicant holds at most one booking.
    pub open spec fn wf(&self) -> bool {
        one_per_applicant(self@)
    }

    /// An empty store.
    pub fn new() -> (r: BookingStore)
        ensures
            r@ == Seq::<Booking>::empty(),
            r.wf(),
    {
        let r = BookingStore { bookings: Vec::new() };
        assert forall|a: i64| #[trigger] holds(r@, a) <= 1 by {}
        r
    }

    /// The bookings, oldest registration first.
    pub fn bookings(&self) -> (r: &Vec<Booking>)
        ensures
            r@ == self@,
    {
        &self.bookings
    }

    /// Number of bookings of the bucket (`date`, `time`).
    pub fn occupied_count(&self, date: Date, time: u32) -> (r: usize)
        ensures
            r == count_at(self@, date, time),
    {
        let mut k: usize = 0;
        let mut i: usize = 0;
        while i < self.bookings.len()
            invariant
                i <= self.bookings.len(),
                k == count_at(self.bookings@.subrange(0, i as int), date, time),
                k <= i,
            decreases self.bookings.len() - i,
        {
            let b = self.bookings[i];
            assert(self.bookings@.subrange(0, i + 1).drop_last() =~= self.bookings@.subrange(
                0,
                i as int,
            ));
            if b.date == date && b.time == time {
                k = k + 1;
            }
            i = i + 1;
        }
        assert(self.bookings@.subrange(0, i as int) =~= self.bookings@);
        k
    }

    /// Whether the bucket (`date`, `time`) has reached the schedule's capacity.
    pub fn check_occupied(&self, schedule: &Schedule, date: Date, time: u32) -> (r: bool)
        ensures
            r == occupied(self@, schedule.max_enrollee, date, time),
    {
        self.occupied_count(date, time) >= schedule.max_enrollee as usize
    }

    /// Registers `applicant` at (`date`, `time`) of the day that `schedule`
    /// describes, replacing any booking they held. `Ok(true)` tells that an
    /// earlier booking was replaced.
    pub fn register_booking(
        &mut self,
        schedule: &Schedule,
        applicant: i64,
        date: Date,
        time: u32,
        now: Moment,
    ) -> (r: Result<bool, BookingError>)
        requires
            old(self).wf(),
            schedule.wf(),
        ensures
            final(self).wf(),
            r == register_outcome(old(self)@, *schedule, applicant, date, time, now),
            r is Ok ==> final(self)@ == registered(old(self)@, applicant, date, time),
            r is Err ==> final(self)@ == old(self)@,
    {
        if now.is_after_slot(&date, time) || !schedule.is_label(time) {
            return Err(BookingError::InvalidSlot);
        }
        if self.check_occupied(schedule, date, time) {
            return Err(BookingError::SlotFull);
        }
        let mut kept: Vec<Booking> = Vec::new();
        let mut replaced = false;
        let mut i: usize = 0;
        while i < self.bookings.len()
            invariant
                i <= self.bookings.len(),
                kept@ == without(self.bookings@.subrange(0, i as int), applicant),
                replaced == (holds(self.bookings@.subrange(0, i as int), applicant) > 0),
            decreases self.bookings.len() - i,
        {
            let b = self.bookings[i];
            assert(self.bookings@.subrange(0, i + 1).drop_last() =~= self.bookings@.subrange(
                0,
                i as int,
            ));
            if b.applicant == applicant {
                replaced = true;
            } else {
                kept.push(b);
            }
            i = i + 1;
        }
        assert(self.bookings@.subrange(0, i as int) =~= self.bookings@);
        let ghost before = self@;
        kept.push(Booking { applicant, date, time });
        self.bookings = kept;
        proof {
            assert forall|a: i64| #[trigger] holds(self@, a) <= 1 by {
                lemma_without_holds(before, applicant, a);
                assert(self@.drop_last() =~= without(before, applicant));
                assert(holds(before, a) <= 1);
            }
        }
        Ok(replaced)
    }

    /// How many bookings stand ahead of `applicant`'s in the day-of order.
    pub fn queue_position(&self, applicant: i64) -> (r: Result<usize, QueueError>)
        ensures
            r matches Ok(n) ==> position(self@, applicant) == Ok::<nat, QueueError>(n as nat),
            r is Err ==> position(self@, applicant) == Err::<nat, QueueError>(QueueError::NotBooked),
    {
        let n = self.bookings.len();
        let mut found: Option<usize> = None;
        let mut i: usize = n;
        assert(self@.subrange(0, n as int) =~= self@);
        while i > 0 && found.is_none()
            invariant
                i <= n,
                n == self@.len(),
                found is None ==> index_of(self@, applicant) == index_of(
                    self@.subrange(0, i as int),
                    applicant,
                ),
                found matches Some(j) ==> index_of(self@, applicant) == Some(j as int),
            decreases i,
        {
            let b = self.bookings[i - 1];
            assert(self@.subrange(0, i as int).drop_last() =~= self@.subrange(0, i - 1));
            if b.applicant == applicant {
                found = Some(i - 1);
            }
            i = i - 1;
        }
        proof {
            if found is None {
                assert(self@.subrange(0, i as int) =~= Seq::<Booking>::empty());
            }
        }
        match found {
            None => Err(QueueError::NotBooked),
            Some(idx) => {
                proof {
                    lemma_index_of(self@, applicant);
                }
                let me = self.bookings[idx];
                let mut k: usize = 0;
                let mut j: usize = 0;
                while j < n
                    invariant
                        j <= n,
                        n == self@.len(),
                        idx < n,
                        me == self@[idx as int],
                        k == ahead_of(self@, idx as int, j as int),
                    decreases n - j,
                {
                    proof {
                        lemma_ahead_bound(self@, idx as int, j as int);
                    }
                    let b = self.bookings[j];
                    if b.date.is_before(&me.date) || (b.date == me.date && b.time < me.time) || (
                    b.date == me.date && b.time == me.time && j < idx) {
                        k = k + 1;
                    }
                    j = j + 1;
                }
                Ok(k)
            },
        }
    }
}

} // verus!
