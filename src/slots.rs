//! Slot allocation: the time labels of a day's schedule, which of them are
//! still bookable, and the schedule table keyed by date.

use crate::calendar::{date_lt, Date, MINUTES_PER_DAY};
use crate::store::{count_at, Booking, BookingStore};
use vstd::prelude::*;

verus! {

/// A day's schedule: the first slot (minutes since midnight), the slot
/// length in minutes, and how many applicants a slot admits.
#[derive(Clone, Copy, Debug, PartialEq, Eq, Structural)]
pub struct Schedule {
    pub start_time: u32,
    pub interval: u16,
    pub max_enrollee: u16,
}

/// `t` is one of the labels `start_time + k * interval` within the day.
pub open spec fn is_label(s: Schedule, t: u32) -> bool {
    s.start_time <= t < MINUTES_PER_DAY && s.interval > 0 && (t - s.start_time) % (
    s.interval as int) == 0
}

/// The labels from `t` on, in steps of the interval, that have room left.
pub open spec fn free_from(s: Schedule, b: Seq<Booking>, d: Date, t: int) -> Seq<u32>
    decreases (if t < MINUTES_PER_DAY { MINUTES_PER_DAY - t } else { 0 }),
{
    if t >= MINUTES_PER_DAY || s.interval == 0 || t < 0 {
        Seq::empty()
    } else {
        let rest = free_from(s, b, d, t + s.interval);
        if count_at(b, d, t as u32) < s.max_enrollee {
            seq![t as u32] + rest
        } else {
            rest
        }
    }
}

/// The bookable times of day `d`, ascending.
pub open spec fn available(s: Schedule, b: Seq<Booking>, d: Date) -> Seq<u32> {
    free_from(s, b, d, s.start_time as int)
}

/// The elements of `xs` that lie in `[lo, hi]`, in order.
pub open spec fn within(xs: Seq<u32>, lo: u32, hi: u32) -> Seq<u32>
    decreases xs.len(),
{
    if xs.len() == 0 {
        xs
    } else if lo <= xs.last() <= hi {
        within(xs.drop_last(), lo, hi).push(xs.last())
    } else {
        within(xs.drop_last(), lo, hi)
    }
}

/// One range per clock hour that holds an element of `xs`, as
/// (first minute, last minute) of that hour, for `xs` ascending.
pub open spec fn hour_ranges(xs: Seq<u32>) -> Seq<(u32, u32)>
    decreases xs.len(),
{
    if xs.len() == 0 {
        Seq::empty()
    } else {
        let r = hour_ranges(xs.drop_last());
        let h = (xs.last() / 60) as int;
        if r.len() > 0 && r.last().0 == h * 60 {
            r
        } else {
            r.push(((h * 60) as u32, (h * 60 + 59) as u32))
        }
    }
}

impl Schedule {
    /// A usable schedule: it starts within the day and advances.
    pub open spec fn wf(&self) -> bool {
        self.start_time < MINUTES_PER_DAY && self.interval > 0
    }

    pub fn is_label(&self, t: u32) -> (r: bool)
        requires
            self.wf(),
        ensures
            r == is_label(*self, t),
    {
        self.start_time <= t && t < MINUTES_PER_DAY && (t - self.start_time) % (
        self.interval as u32) == 0
    }
}

pub proof fn lemma_free_from_room(s: Schedule, b: Seq<Booking>, d: Date, t: int, k: int)
    requires
        0 <= k < free_from(s, b, d, t).len(),
    ensures
        count_at(b, d, free_from(s, b, d, t)[k]) < s.max_enrollee,
        t <= free_from(s, b, d, t)[k] < MINUTES_PER_DAY,
    decreases (if t < MINUTES_PER_DAY { MINUTES_PER_DAY - t } else { 0 }),
{
    if !(t >= MINUTES_PER_DAY || s.interval == 0 || t < 0) {
        let rest = free_from(s, b, d, t + s.interval);
        if count_at(b, d, t as u32) < s.max_enrollee {
            if k > 0 {
                lemma_free_from_room(s, b, d, t + s.interval, k - 1);
            }
        } else {
            lemma_free_from_room(s, b, d, t + s.interval, k);
        }
    }
}

/// Every time that `available` lists has room left: fewer than
/// `max_enrollee` bookings.
pub proof fn lemma_available_has_room(s: Schedule, b: Seq<Booking>, d: Date)
    ensures
        forall|k: int|
            0 <= k < available(s, b, d).len() ==> count_at(b, d, #[trigger] available(s, b, d)[k])
                < s.max_enrollee,
{
    assert forall|k: int| 0 <= k < available(s, b, d).len() implies count_at(
        b,
        d,
        #[trigger] available(s, b, d)[k],
    ) < s.max_enrollee by {
        lemma_free_from_room(s, b, d, s.start_time as int, k);
    }
}

/// The times of `date` under `schedule` that still have room, ascending.
pub fn available_times(schedule: &Schedule, store: &BookingStore, date: Date) -> (r: Vec<u32>)
    requires
        schedule.wf(),
    ensures
        r@ == available(*schedule, store@, date),
{
    let mut out: Vec<u32> = Vec::new();
    let mut t: u32 = schedule.start_time;
    let step = schedule.interval as u32;
    while t < MINUTES_PER_DAY
        invariant
            schedule.wf(),
            step == schedule.interval,
            out@ + free_from(*schedule, store@, date, t as int) == available(
                *schedule,
                store@,
                date,
            ),
        decreases (if t < MINUTES_PER_DAY { MINUTES_PER_DAY - t } else { 0 }),
    {
        let ghost prev = out@;
        if store.occupied_count(date, t) < schedule.max_enrollee as usize {
            out.push(t);
            assert(prev + free_from(*schedule, store@, date, t as int) =~= out@ + free_from(
                *schedule,
                store@,
                date,
                t + step,
            ));
        }
        t = t + step;
    }
    assert(out@ + free_from(*schedule, store@, date, t as int) =~= out@);
    out
}

/// The elements of `xs` that lie in `[lo, hi]`, in order.
pub fn select_within(xs: &Vec<u32>, lo: u32, hi: u32) -> (r: Vec<u32>)
    ensures
        r@ == within(xs@, lo, hi),
{
    let mut out: Vec<u32> = Vec::new();
    let mut i: usize = 0;
    while i < xs.len()
        invariant
            i <= xs.len(),
            out@ == within(xs@.subrange(0, i as int), lo, hi),
        decreases xs.len() - i,
    {
        assert(xs@.subrange(0, i + 1).drop_last() =~= xs@.subrange(0, i as int));
        if lo <= xs[i] && xs[i] <= hi {
            out.push(xs[i]);
        }
        i = i + 1;
    }
    assert(xs@.subrange(0, i as int) =~= xs@);
    out
}

/// The bookable times of `date` that lie in `[lo, hi]`, ascending.
pub fn times_between(schedule: &Schedule, store: &BookingStore, date: Date, lo: u32, hi: u32) -> (r:
    Vec<u32>)
    requires
        schedule.wf(),
    ensures
        r@ == within(available(*schedule, store@, date), lo, hi),
{
    let all = available_times(schedule, store, date);
    select_within(&all, lo, hi)
}

/// The clock hours of `times` as (first minute, last minute) ranges, for
/// ascending `times`.
pub fn hour_choices(times: &Vec<u32>) -> (r: Vec<(u32, u32)>)
    requires
        forall|k: int| 0 <= k < times@.len() ==> times@[k] < MINUTES_PER_DAY,
    ensures
        r@ == hour_ranges(times@),
{
    let mut out: Vec<(u32, u32)> = Vec::new();
    let mut i: usize = 0;
    while i < times.len()
        invariant
            i <= times.len(),
            out@ == hour_ranges(times@.subrange(0, i as int)),
            forall|k: int| 0 <= k < times@.len() ==> times@[k] < MINUTES_PER_DAY,
        decreases times.len() - i,
    {
        assert(times@.subrange(0, i + 1).drop_last() =~= times@.subrange(0, i as int));
        let x = times[i];
        let h = x / 60;
        assert(x as int == h as int * 60 + (x % 60) as int);
        let first = h * 60;
        let n = out.len();
        if !(n > 0 && out[n - 1].0 == first) {
            out.push((first, first + 59));
        }
        i = i + 1;
    }
    assert(times@.subrange(0, i as int) =~= times@);
    out
}

/// The schedule entry of `d` in `entries`, if any.
pub open spec fn entry_for(entries: Seq<(Date, Schedule)>, d: Date) -> Option<Schedule>
    decreases entries.len(),
{
    if entries.len() == 0 {
        None
    } else if entries.last().0 == d {
        Some(entries.last().1)
    } else {
        entry_for(entries.drop_last(), d)
    }
}

/// The dates of `entries` that are not before `today`, in order.
pub open spec fn days_from(entries: Seq<(Date, Schedule)>, today: Date) -> Seq<Date>
    decreases entries.len(),
{
    if entries.len() == 0 {
        Seq::empty()
    } else if date_lt(entries.last().0, today) {
        days_from(entries.drop_last(), today)
    } else {
        days_from(entries.drop_last(), today).push(entries.last().0)
    }
}

/// A schedule table: strictly ascending dates, each with a usable schedule.
pub open spec fn table_wf(entries: Seq<(Date, Schedule)>) -> bool {
    &&& forall|i: int, j: int|
        0 <= i < j < entries.len() ==> date_lt(#[trigger] entries[i].0, #[trigger] entries[j].0)
    &&& forall|i: int| 0 <= i < entries.len() ==> (#[trigger] entries[i]).1.wf()
}

pub proof fn lemma_entry_wf(entries: Seq<(Date, Schedule)>, d: Date)
    requires
        forall|i: int| 0 <= i < entries.len() ==> (#[trigger] entries[i]).1.wf(),
    ensures
        entry_for(entries, d) matches Some(s) ==> s.wf(),
    decreases entries.len(),
{
    if entries.len() > 0 {
        assert(entries.last() == entries[entries.len() - 1]);
        lemma_entry_wf(entries.drop_last(), d);
    }
}

/// Why the table cannot answer for a date.
#[derive(Clone, Copy, Debug, PartialEq, Eq, Structural)]
pub enum ScheduleError {
    /// The table holds no schedule for the date.
    DateNotFound,
}

/// The schedule table, read-only once built.
pub struct Queue {
    schedule: Vec<(Date, Schedule)>,
}

impl View for Queue {
    type V = Seq<(Date, Schedule)>;

    closed spec fn view(&self) -> Seq<(Date, Schedule)> {
        self.schedule@
    }
}

impl Queue {
    pub open spec fn wf(&self) -> bool {
        table_wf(self@)
    }

    /// Builds the table from entries given in ascending date order; `None`
    /// where two dates are out of order or equal, or a schedule is unusable.
    pub fn new(entries: Vec<(Date, Schedule)>) -> (r: Option<Queue>)
        ensures
            r matches Some(q) ==> q@ == entries@ && q.wf(),
            r is None <==> !table_wf(entries@),
    {
        let mut i: usize = 0;
        while i < entries.len()
            invariant
                i <= entries.len(),
                forall|a: int, b: int|
                    0 <= a < b < i ==> date_lt(#[trigger] entries@[a].0, #[trigger] entries@[b].0),
                forall|a: int| 0 <= a < i ==> (#[trigger] entries@[a]).1.wf(),
            decreases entries.len() - i,
        {
            let (d, s) = entries[i];
            if !(s.start_time < MINUTES_PER_DAY && s.interval > 0) {
                return None;
            }
            if i > 0 && !entries[i - 1].0.is_before(&d) {
                return None;
            }
            proof {
                assert forall|a: int, b: int|
                    0 <= a < b < i + 1 implies date_lt(
                    #[trigger] entries@[a].0,
                    #[trigger] entries@[b].0,
                ) by {
                    if b == i && a < i - 1 {
                        assert(date_lt(entries@[a].0, entries@[i - 1].0));
                    }
                }
            }
            i = i + 1;
        }
        Some(Queue { schedule: entries })
    }

    /// The schedule of `date`, if the table has one.
    pub fn schedule_for(&self, date: &Date) -> (r: Option<Schedule>)
        requires
            self.wf(),
        ensures
            r == entry_for(self@, *date),
            r matches Some(s) ==> s.wf(),
    {
        proof {
            lemma_entry_wf(self@, *date);
        }
        let mut i: usize = self.schedule.len();
        assert(self@.subrange(0, i as int) =~= self@);
        while i > 0
            invariant
                i <= self@.len(),
                self.wf(),
                entry_for(self@, *date) == entry_for(self@.subrange(0, i as int), *date),
            decreases i,
        {
            assert(self@.subrange(0, i as int).drop_last() =~= self@.subrange(0, i - 1));
            if self.schedule[i - 1].0 == *date {
                assert(self@[i - 1].1.wf());
                return Some(self.schedule[i - 1].1);
            }
            i = i - 1;
        }
        None
    }

    /// The dates of the table from `today` on, ascending.
    pub fn bookable_days(&self, today: &Date) -> (r: Vec<Date>)
        ensures
            r@ == days_from(self@, *today),
    {
        let mut out: Vec<Date> = Vec::new();
        let mut i: usize = 0;
        while i < self.schedule.len()
            invariant
                i <= self@.len(),
                out@ == days_from(self@.subrange(0, i as int), *today),
            decreases self@.len() - i,
        {
            assert(self@.subrange(0, i + 1).drop_last() =~= self@.subrange(0, i as int));
            let d = self.schedule[i].0;
            if !d.is_before(today) {
                out.push(d);
            }
            i = i + 1;
        }
        assert(self@.subrange(0, i as int) =~= self@);
        out
    }

    /// The bookable times of `date`, ascending; an error where the table
    /// has no schedule for it.
    pub fn available_times(&self, store: &BookingStore, date: Date) -> (r: Result<Vec<u32>, ScheduleError>)
        requires
            self.wf(),
        ensures
            match entry_for(self@, date) {
                None => r == Err::<Vec<u32>, ScheduleError>(ScheduleError::DateNotFound),
                Some(s) => r matches Ok(v) && v@ == available(s, store@, date),
            },
    {
        match self.schedule_for(&date) {
            None => Err(ScheduleError::DateNotFound),
            Some(s) => Ok(available_times(&s, store, date)),
        }
    }

    /// The bookable times of `date` within [`lo`, `hi`], ascending; an error
    /// where the table has no schedule for it.
    pub fn times_between(&self, store: &BookingStore, date: Date, lo: u32, hi: u32) -> (r: Result<
        Vec<u32>,
        ScheduleError,
    >)
        requires
            self.wf(),
        ensures
            match entry_for(self@, date) {
                None => r == Err::<Vec<u32>, ScheduleError>(ScheduleError::DateNotFound),
                Some(s) => r matches Ok(v) && v@ == within(available(s, store@, date), lo, hi),
            },
    {
        match self.schedule_for(&date) {
            None => Err(ScheduleError::DateNotFound),
            Some(s) => Ok(times_between(&s, store, date, lo, hi)),
        }
    }
}

} // verus!
