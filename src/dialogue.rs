//! The per-applicant conversation: one state per applicant, and for each
//! inbound event exactly one next state, one reply, and at most one piece of
//! outside work (a puzzle, a roster check, saving the applicant) whose result
//! comes back as a later event.

use crate::calendar::{clock_minutes, date_lt, day_in_year, parse_day, parse_time, Date, Moment};
use crate::captcha::{bumped, check_outcome, CheckState, ReceiveCaptchaState};
use crate::slots::{
    available, available_times, entry_for, hour_choices, hour_ranges, times_between, within,
    Queue, Schedule,
};
use crate::store::{occupied, register_outcome, registered, Booking, BookingStore};
use crate::text::{text_eq, words};
use crate::validate::{interval_of, is_phone, parse_full_name, parse_interval, phone_match, FullName};
use vstd::prelude::*;

verus! {

/// The consent button.
pub const ACCEPT: &'static str = "✅";

/// The button that goes one step back.
pub const BACK: &'static str = "Повернутись назад 🔙";

/// The button that goes back to choosing a date.
pub const OTHER_DATE: &'static str = "Вибір іншої дати 🔙";

/// The command that starts the conversation over.
pub const RESTART: &'static str = "/start";

/// The command that switches queue notifications on or off.
pub const TOGGLE_NOTIFICATION: &'static str = "/toggle_notification";

#[derive(Clone, Copy, Debug, PartialEq, Eq, Structural)]
pub struct BannedState;

#[derive(Clone, Copy, Debug, PartialEq, Eq, Structural)]
pub struct StartState;

#[derive(Clone, Copy, Debug, PartialEq, Eq, Structural)]
pub struct ReceiveFullNameState;

#[derive(Clone, Copy, Debug, PartialEq, Eq, Structural)]
pub struct ReceiveDayState;

/// Waiting for a phone number; the verified name is kept.
#[derive(Clone, Debug)]
pub struct ReceivePhoneState {
    pub name: String,
    pub patronymic: String,
    pub last_name: String,
}

/// Waiting for a time range on `date`.
#[derive(Clone, Copy, Debug, PartialEq, Eq, Structural)]
pub struct ReceiveIntervalState {
    pub date: Date,
}

/// Waiting for a time on `date` within [`first_time`, `second_time`].
#[derive(Clone, Copy, Debug, PartialEq, Eq, Structural)]
pub struct ReceiveTimeState {
    pub date: Date,
    pub first_time: u32,
    pub second_time: u32,
}

/// Where an applicant's conversation stands.
#[derive(Clone, Debug)]
pub enum Dialogue {
    Banned(BannedState),
    Start(StartState),
    ReceiveCaptcha(ReceiveCaptchaState),
    ReceiveFullName(ReceiveFullNameState),
    ReceivePhone(ReceivePhoneState),
    ReceiveDay(ReceiveDayState),
    ReceiveInterval(ReceiveIntervalState),
    ReceiveTime(ReceiveTimeState),
}

impl ReceivePhoneState {
    pub fn new(name: String, patronymic: String, last_name: String) -> (r: ReceivePhoneState)
        ensures
            r.name@ == name@,
            r.patronymic@ == patronymic@,
            r.last_name@ == last_name@,
    {
        ReceivePhoneState { name, patronymic, last_name }
    }
}

impl Dialogue {
    pub fn is_start(&self) -> (r: bool)
        ensures
            r == (*self is Start),
    {
        match self {
            Dialogue::Start(_) => true,
            _ => false,
        }
    }
}

impl Default for Dialogue {
    fn default() -> (r: Dialogue)
        ensures
            r is Start,
    {
        Dialogue::Start(StartState)
    }
}

/// What the applicant is told.
#[derive(Clone, Debug)]
pub enum Reply {
    /// Nothing to say yet; outside work is under way.
    Silent,
    AskConsent,
    AskPuzzle,
    PuzzleFailed,
    PuzzleSolved,
    PuzzleWrong,
    PuzzleRefresh,
    Blocked,
    NameMalformed,
    NameUnknown,
    NameCheckFailed,
    AskPhone,
    PhoneMalformed,
    SaveFailed,
    /// The dates that can be booked.
    ChooseDay(Vec<Date>),
    DayMalformed,
    DayUnknown,
    /// Hour ranges that still hold a free time.
    ChooseInterval(Vec<(u32, u32)>),
    IntervalMalformed,
    /// Free times of the chosen range.
    ChooseTime(Vec<u32>),
    TimeMalformed,
    /// The day has passed; the dates that can be booked.
    DayPassed(Vec<Date>),
    /// The time was taken; the free times of the range.
    TimeTaken(Vec<u32>),
    /// The slot cannot be booked; the dates that can be booked.
    SlotInvalid(Vec<Date>),
    /// Booked at `time` on `date`; `replaced` tells that an earlier booking
    /// was given up; `times` are the free times of the range now.
    Booked { date: Date, time: u32, replaced: bool, times: Vec<u32> },
}

/// Outside work that the conversation asks for.
#[derive(Clone, Debug)]
pub enum Command {
    /// Make a puzzle, show it, and report its answer.
    GeneratePuzzle,
    /// Check the name against the admissions roster.
    CheckRoster(FullName),
    /// Store the applicant with this name and phone number.
    SaveApplicant(FullName, String),
    /// Flip the applicant's notification subscription.
    ToggleNotification,
}

/// An inbound event for one applicant.
#[derive(Clone, Debug)]
pub enum Event {
    Text(String),
    /// A puzzle was shown; its answer, or `None` where making it failed.
    Puzzle(Option<String>),
    /// The roster's verdict on a name, or `None` where the check failed.
    Roster(FullName, Option<bool>),
    /// Whether the applicant was stored.
    Saved(bool),
}

/// The outcome of one event.
#[derive(Clone, Debug)]
pub struct Transition {
    pub next: Dialogue,
    pub reply: Reply,
    pub command: Option<Command>,
}

pub open spec fn same_name(n: FullName, last: Seq<char>, first: Seq<char>, patronymic: Seq<char>) -> bool {
    n.last_name@ == last && n.name@ == first && n.patronymic@ == patronymic
}

pub open spec fn start_rel(text: Seq<char>, t: Transition) -> bool {
    &&& t.next is Start
    &&& if text == ACCEPT@ {
        t.reply is AskPuzzle && t.command == Some(Command::GeneratePuzzle)
    } else {
        t.reply is AskConsent && t.command is None
    }
}

pub open spec fn captcha_rel(s: ReceiveCaptchaState, text: Seq<char>, t: Transition) -> bool {
    let kept = t.next matches Dialogue::ReceiveCaptcha(n) && n.answer@ == s.answer@
        && n.attempt_count == bumped(s.attempt_count);
    match check_outcome(s.answer@, s.attempt_count, text) {
        CheckState::Correct => t.next is ReceiveFullName && t.reply is PuzzleSolved
            && t.command is None,
        CheckState::Incorrect => kept && t.reply is PuzzleWrong && t.command is None,
        CheckState::Update => kept && t.reply is PuzzleRefresh && t.command == Some(
            Command::GeneratePuzzle,
        ),
        CheckState::Block => t.next is Banned && t.reply is Blocked && t.command is None,
    }
}

pub open spec fn full_name_rel(text: Seq<char>, t: Transition) -> bool {
    &&& t.next is ReceiveFullName
    &&& if words(text).len() == 3 {
        t.reply is Silent && (t.command matches Some(Command::CheckRoster(n)) && same_name(
            n,
            words(text)[0],
            words(text)[1],
            words(text)[2],
        ))
    } else {
        t.reply is NameMalformed && t.command is None
    }
}

pub open spec fn phone_rel(p: ReceivePhoneState, text: Seq<char>, t: Transition) -> bool {
    &&& t.next matches Dialogue::ReceivePhone(q) && q.name@ == p.name@ && q.patronymic@
        == p.patronymic@ && q.last_name@ == p.last_name@
    &&& if phone_match(text) {
        t.reply is Silent && (t.command matches Some(Command::SaveApplicant(n, phone)) && same_name(
            n,
            p.last_name@,
            p.name@,
            p.patronymic@,
        ) && phone@ == text)
    } else {
        t.reply is PhoneMalformed && t.command is None
    }
}

/// The reply lists exactly the bookable dates from `today` on.
pub open spec fn lists_days(r: Reply, q: Queue, today: Date) -> bool {
    r matches Reply::ChooseDay(v) && v@ == crate::slots::days_from(q@, today)
}

pub open spec fn day_rel(q: Queue, b: Seq<Booking>, today: Date, text: Seq<char>, t: Transition) -> bool {
    &&& t.command is None
    &&& match day_in_year(text, today.year as int) {
        None => t.next is ReceiveDay && t.reply is DayMalformed,
        Some(d) => match entry_for(q@, d) {
            None => t.next is ReceiveDay && t.reply is DayUnknown,
            Some(s) => t.next == Dialogue::ReceiveInterval(ReceiveIntervalState { date: d })
                && (t.reply matches Reply::ChooseInterval(v) && v@ == hour_ranges(
                available(s, b, d),
            )),
        },
    }
}

pub open spec fn interval_rel(
    st: ReceiveIntervalState,
    q: Queue,
    b: Seq<Booking>,
    today: Date,
    text: Seq<char>,
    t: Transition,
) -> bool {
    &&& t.command is None
    &&& if text == BACK@ {
        t.next is ReceiveDay && lists_days(t.reply, q, today)
    } else {
        match interval_of(text) {
            None => t.next == Dialogue::ReceiveInterval(st) && t.reply is IntervalMalformed,
            Some((lo, hi)) => match entry_for(q@, st.date) {
                None => t.next == Dialogue::ReceiveInterval(st) && t.reply is DayUnknown,
                Some(s) => t.next == Dialogue::ReceiveTime(
                    ReceiveTimeState { date: st.date, first_time: lo, second_time: hi },
                ) && (t.reply matches Reply::ChooseTime(v) && v@ == within(
                    available(s, b, st.date),
                    lo,
                    hi,
                )),
            },
        }
    }
}

pub open spec fn time_rel(
    st: ReceiveTimeState,
    q: Queue,
    before: Seq<Booking>,
    after: Seq<Booking>,
    applicant: i64,
    now: Moment,
    text: Seq<char>,
    t: Transition,
) -> bool {
    let stay = t.next == Dialogue::ReceiveTime(st);
    &&& t.command is None
    &&& if text == BACK@ {
        after == before && match entry_for(q@, st.date) {
            None => stay && t.reply is DayUnknown,
            Some(s) => t.next == Dialogue::ReceiveInterval(ReceiveIntervalState { date: st.date })
                && (t.reply matches Reply::ChooseInterval(v) && v@ == hour_ranges(
                available(s, before, st.date),
            )),
        }
    } else if text == OTHER_DATE@ {
        after == before && t.next is ReceiveDay && lists_days(t.reply, q, now.date)
    } else {
        match clock_minutes(text) {
            None => after == before && stay && t.reply is TimeMalformed,
            Some(m) => if date_lt(st.date, now.date) {
                after == before && t.next is ReceiveDay && (t.reply matches Reply::DayPassed(v)
                    && v@ == crate::slots::days_from(q@, now.date))
            } else {
                match entry_for(q@, st.date) {
                    None => after == before && stay && t.reply is DayUnknown,
                    Some(s) => if occupied(before, s.max_enrollee, st.date, m) {
                        after == before && stay && (t.reply matches Reply::TimeTaken(v) && v@
                            == within(available(s, before, st.date), st.first_time, st.second_time))
                    } else {
                        match register_outcome(before, s, applicant, st.date, m, now) {
                            Ok(replaced) => after == registered(before, applicant, st.date, m)
                                && stay && (t.reply matches Reply::Booked {
                                date,
                                time,
                                replaced: rep,
                                times,
                            } && date == st.date && time == m && rep == replaced && times@
                                == within(
                                available(s, after, st.date),
                                st.first_time,
                                st.second_time,
                            )),
                            Err(_) => after == before && t.next is ReceiveDay
                                && (t.reply matches Reply::SlotInvalid(v) && v@
                                == crate::slots::days_from(q@, now.date)),
                        }
                    },
                }
            },
        }
    }
}

/// The applicant is blocked: every message gets the block notice.
pub fn banned(state: BannedState) -> (t: Transition)
    ensures
        t.next is Banned,
        t.reply is Blocked,
        t.command is None,
{
    Transition { next: Dialogue::Banned(state), reply: Reply::Blocked, command: None }
}

/// Consent: the accept button leads on to a puzzle.
pub fn start(state: StartState, text: &str) -> (t: Transition)
    ensures
        start_rel(text@, t),
{
    if text_eq(text, ACCEPT) {
        Transition {
            next: Dialogue::Start(state),
            reply: Reply::AskPuzzle,
            command: Some(Command::GeneratePuzzle),
        }
    } else {
        Transition { next: Dialogue::Start(state), reply: Reply::AskConsent, command: None }
    }
}

/// An answer to the puzzle.
pub fn receive_captcha(state: ReceiveCaptchaState, text: String) -> (t: Transition)
    ensures
        captcha_rel(state, text@, t),
{
    let mut state = state;
    match state.check_answer(text) {
        CheckState::Correct => Transition {
            next: Dialogue::ReceiveFullName(ReceiveFullNameState),
            reply: Reply::PuzzleSolved,
            command: None,
        },
        CheckState::Incorrect => Transition {
            next: Dialogue::ReceiveCaptcha(state),
            reply: Reply::PuzzleWrong,
            command: None,
        },
        CheckState::Update => Transition {
            next: Dialogue::ReceiveCaptcha(state),
            reply: Reply::PuzzleRefresh,
            command: Some(Command::GeneratePuzzle),
        },
        CheckState::Block => Transition {
            next: Dialogue::Banned(BannedState),
            reply: Reply::Blocked,
            command: None,
        },
    }
}

/// A full name: three words go to the roster check.
pub fn receive_full_name(state: ReceiveFullNameState, text: &str) -> (t: Transition)
    ensures
        full_name_rel(text@, t),
{
    match parse_full_name(text) {
        Some(n) => Transition {
            next: Dialogue::ReceiveFullName(state),
            reply: Reply::Silent,
            command: Some(Command::CheckRoster(n)),
        },
        None => Transition {
            next: Dialogue::ReceiveFullName(state),
            reply: Reply::NameMalformed,
            command: None,
        },
    }
}

/// A phone number: a valid one goes to be stored with the name.
pub fn receive_phone(state: ReceivePhoneState, text: String) -> (t: Transition)
    ensures
        phone_rel(state, text@, t),
{
    if is_phone(text.as_str()) {
        let n = FullName {
            last_name: state.last_name.clone(),
            name: state.name.clone(),
            patronymic: state.patronymic.clone(),
        };
        Transition {
            next: Dialogue::ReceivePhone(state),
            reply: Reply::Silent,
            command: Some(Command::SaveApplicant(n, text)),
        }
    } else {
        Transition { next: Dialogue::ReceivePhone(state), reply: Reply::PhoneMalformed, command: None }
    }
}

/// A day "DD.MM" of the current year: with a schedule, its hour ranges.
pub fn receive_day(state: ReceiveDayState, text: &str, queue: &Queue, store: &BookingStore, today: Date) -> (t:
    Transition)
    requires
        queue.wf(),
    ensures
        day_rel(*queue, store@, today, text@, t),
{
    match parse_day(text, today.year) {
        None => Transition { next: Dialogue::ReceiveDay(state), reply: Reply::DayMalformed, command: None },
        Some(date) => match queue.schedule_for(&date) {
            None => Transition {
                next: Dialogue::ReceiveDay(state),
                reply: Reply::DayUnknown,
                command: None,
            },
            Some(s) => {
                let times = available_times(&s, store, date);
                let ranges = hour_choices_of(&s, store, date, &times);
                Transition {
                    next: Dialogue::ReceiveInterval(ReceiveIntervalState { date }),
                    reply: Reply::ChooseInterval(ranges),
                    command: None,
                }
            },
        },
    }
}

fn hour_choices_of(s: &Schedule, store: &BookingStore, date: Date, times: &Vec<u32>) -> (r: Vec<(u32, u32)>)
    requires
        s.wf(),
        times@ == available(*s, store@, date),
    ensures
        r@ == hour_ranges(times@),
{
    proof {
        assert forall|k: int| 0 <= k < times@.len() implies times@[k] < crate::calendar::MINUTES_PER_DAY by {
            crate::slots::lemma_free_from_room(*s, store@, date, s.start_time as int, k);
        }
    }
    hour_choices(times)
}

/// A time range "HH:MM-HH:MM" on the chosen date, or the way back.
pub fn receive_interval(
    state: ReceiveIntervalState,
    text: &str,
    queue: &Queue,
    store: &BookingStore,
    today: Date,
) -> (t: Transition)
    requires
        queue.wf(),
    ensures
        interval_rel(state, *queue, store@, today, text@, t),
{
    if text_eq(text, BACK) {
        return Transition {
            next: Dialogue::ReceiveDay(ReceiveDayState),
            reply: Reply::ChooseDay(queue.bookable_days(&today)),
            command: None,
        };
    }
    match parse_interval(text) {
        None => Transition {
            next: Dialogue::ReceiveInterval(state),
            reply: Reply::IntervalMalformed,
            command: None,
        },
        Some((lo, hi)) => match queue.schedule_for(&state.date) {
            None => Transition {
                next: Dialogue::ReceiveInterval(state),
                reply: Reply::DayUnknown,
                command: None,
            },
            Some(s) => Transition {
                next: Dialogue::ReceiveTime(
                    ReceiveTimeState { date: state.date, first_time: lo, second_time: hi },
                ),
                reply: Reply::ChooseTime(times_between(&s, store, state.date, lo, hi)),
                command: None,
            },
        },
    }
}

/// A time "HH:MM" to book, or one of the ways back.
pub fn receive_time(
    state: ReceiveTimeState,
    text: &str,
    applicant: i64,
    queue: &Queue,
    store: &mut BookingStore,
    now: Moment,
) -> (t: Transition)
    requires
        queue.wf(),
        old(store).wf(),
    ensures
        final(store).wf(),
        time_rel(state, *queue, old(store)@, final(store)@, applicant, now, text@, t),
{
    let date = state.date;
    if text_eq(text, BACK) {
        return match queue.schedule_for(&date) {
            None => Transition {
                next: Dialogue::ReceiveTime(state),
                reply: Reply::DayUnknown,
                command: None,
            },
            Some(s) => {
                let times = available_times(&s, store, date);
                let ranges = hour_choices_of(&s, store, date, &times);
                Transition {
                    next: Dialogue::ReceiveInterval(ReceiveIntervalState { date }),
                    reply: Reply::ChooseInterval(ranges),
                    command: None,
                }
            },
        };
    }
    if text_eq(text, OTHER_DATE) {
        return Transition {
            next: Dialogue::ReceiveDay(ReceiveDayState),
            reply: Reply::ChooseDay(queue.bookable_days(&now.date)),
            command: None,
        };
    }
    let time = match parse_time(text) {
        None => {
            return Transition {
                next: Dialogue::ReceiveTime(state),
                reply: Reply::TimeMalformed,
                command: None,
            };
        },
        Some(m) => m,
    };
    if date.is_before(&now.date) {
        return Transition {
            next: Dialogue::ReceiveDay(ReceiveDayState),
            reply: Reply::DayPassed(queue.bookable_days(&now.date)),
            command: None,
        };
    }
    let s = match queue.schedule_for(&date) {
        None => {
            return Transition {
                next: Dialogue::ReceiveTime(state),
                reply: Reply::DayUnknown,
                command: None,
            };
        },
        Some(s) => s,
    };
    if store.check_occupied(&s, date, time) {
        let times = times_between(&s, store, date, state.first_time, state.second_time);
        return Transition {
            next: Dialogue::ReceiveTime(state),
            reply: Reply::TimeTaken(times),
            command: None,
        };
    }
    match store.register_booking(&s, applicant, date, time, now) {
        Ok(replaced) => {
            let times = times_between(&s, store, date, state.first_time, state.second_time);
            Transition {
                next: Dialogue::ReceiveTime(state),
                reply: Reply::Booked { date, time, replaced, times },
                command: None,
            }
        },
        Err(_) => Transition {
            next: Dialogue::ReceiveDay(ReceiveDayState),
            reply: Reply::SlotInvalid(queue.bookable_days(&now.date)),
            command: None,
        },
    }
}

/// The conversation after a puzzle was made (`Some(answer)`) or could not be.
pub open spec fn puzzle_rel(state: Dialogue, answer: Option<String>, t: Transition) -> bool {
    &&& t.command is None
    &&& if state is Start || state is ReceiveCaptcha {
        match answer {
            None => t.next is Start && t.reply is PuzzleFailed,
            Some(a) => t.reply is Silent && (t.next matches Dialogue::ReceiveCaptcha(n) && n.answer@
                == a@ && n.attempt_count == match state {
                Dialogue::ReceiveCaptcha(c) => c.attempt_count,
                _ => 0u8,
            }),
        }
    } else {
        t.next == state && t.reply is Silent
    }
}

/// The conversation after the roster judged `name`.
pub open spec fn roster_rel(state: Dialogue, name: FullName, verdict: Option<bool>, t: Transition) -> bool {
    &&& t.command is None
    &&& if state is ReceiveFullName {
        match verdict {
            Some(true) => t.reply is AskPhone && (t.next matches Dialogue::ReceivePhone(p) && same_name(
                name,
                p.last_name@,
                p.name@,
                p.patronymic@,
            )),
            Some(false) => t.next is ReceiveFullName && t.reply is NameUnknown,
            None => t.next is ReceiveFullName && t.reply is NameCheckFailed,
        }
    } else {
        t.next == state && t.reply is Silent
    }
}

/// The conversation after storing the applicant succeeded or failed.
pub open spec fn saved_rel(state: Dialogue, ok: bool, q: Queue, today: Date, t: Transition) -> bool {
    &&& t.command is None
    &&& if state is ReceivePhone {
        if ok {
            t.next is ReceiveDay && lists_days(t.reply, q, today)
        } else {
            t.next == state && t.reply is SaveFailed
        }
    } else {
        t.next == state && t.reply is Silent
    }
}

/// The conversation after a text message: the notification toggle in every
/// state, the restart command in every state but the blocked one, and
/// otherwise the handler of the current state.
pub open spec fn message_rel(
    state: Dialogue,
    text: Seq<char>,
    q: Queue,
    before: Seq<Booking>,
    after: Seq<Booking>,
    applicant: i64,
    now: Moment,
    t: Transition,
) -> bool {
    if text == TOGGLE_NOTIFICATION@ {
        after == before && t.next == state && t.reply is Silent && t.command == Some(
            Command::ToggleNotification,
        )
    } else if text == RESTART@ && !(state is Banned) {
        after == before && t.next is Start && t.reply is AskConsent && t.command is None
    } else {
        match state {
            Dialogue::Banned(_) => after == before && t.next is Banned && t.reply is Blocked
                && t.command is None,
            Dialogue::Start(_) => after == before && start_rel(text, t),
            Dialogue::ReceiveCaptcha(c) => after == before && captcha_rel(c, text, t),
            Dialogue::ReceiveFullName(_) => after == before && full_name_rel(text, t),
            Dialogue::ReceivePhone(p) => after == before && phone_rel(p, text, t),
            Dialogue::ReceiveDay(_) => after == before && day_rel(q, before, now.date, text, t),
            Dialogue::ReceiveInterval(st) => after == before && interval_rel(
                st,
                q,
                before,
                now.date,
                text,
                t,
            ),
            Dialogue::ReceiveTime(st) => time_rel(st, q, before, after, applicant, now, text, t),
        }
    }
}

/// The conversation after any event.
pub open spec fn event_rel(
    state: Dialogue,
    event: Event,
    q: Queue,
    before: Seq<Booking>,
    after: Seq<Booking>,
    applicant: i64,
    now: Moment,
    t: Transition,
) -> bool {
    match event {
        Event::Text(text) => message_rel(state, text@, q, before, after, applicant, now, t),
        Event::Puzzle(answer) => after == before && puzzle_rel(state, answer, t),
        Event::Roster(name, verdict) => after == before && roster_rel(state, name, verdict, t),
        Event::Saved(ok) => after == before && saved_rel(state, ok, q, now.date, t),
    }
}

/// A puzzle was made and shown (`Some(answer)`), or making it failed.
pub fn on_puzzle(state: Dialogue, answer: Option<String>) -> (t: Transition)
    ensures
        puzzle_rel(state, answer, t),
{
    match state {
        Dialogue::Start(_) => match answer {
            Some(a) => Transition {
                next: Dialogue::ReceiveCaptcha(ReceiveCaptchaState::new(a)),
                reply: Reply::Silent,
                command: None,
            },
            None => Transition {
                next: Dialogue::Start(StartState),
                reply: Reply::PuzzleFailed,
                command: None,
            },
        },
        Dialogue::ReceiveCaptcha(c) => match answer {
            Some(a) => Transition {
                next: Dialogue::ReceiveCaptcha(c.change_answer(a)),
                reply: Reply::Silent,
                command: None,
            },
            None => Transition {
                next: Dialogue::Start(StartState),
                reply: Reply::PuzzleFailed,
                command: None,
            },
        },
        other => Transition { next: other, reply: Reply::Silent, command: None },
    }
}

/// The roster's verdict on `name`: `Some(found)`, or `None` where the check
/// failed.
pub fn on_roster(state: Dialogue, name: FullName, verdict: Option<bool>) -> (t: Transition)
    ensures
        roster_rel(state, name, verdict, t),
{
    match state {
        Dialogue::ReceiveFullName(s) => match verdict {
            Some(true) => Transition {
                next: Dialogue::ReceivePhone(
                    ReceivePhoneState::new(name.name, name.patronymic, name.last_name),
                ),
                reply: Reply::AskPhone,
                command: None,
            },
            Some(false) => Transition {
                next: Dialogue::ReceiveFullName(s),
                reply: Reply::NameUnknown,
                command: None,
            },
            None => Transition {
                next: Dialogue::ReceiveFullName(s),
                reply: Reply::NameCheckFailed,
                command: None,
            },
        },
        other => Transition { next: other, reply: Reply::Silent, command: None },
    }
}

/// Storing the applicant succeeded (`true`) or failed.
pub fn on_saved(state: Dialogue, ok: bool, queue: &Queue, today: Date) -> (t: Transition)
    ensures
        saved_rel(state, ok, *queue, today, t),
{
    match state {
        Dialogue::ReceivePhone(p) => if ok {
            Transition {
                next: Dialogue::ReceiveDay(ReceiveDayState),
                reply: Reply::ChooseDay(queue.bookable_days(&today)),
                command: None,
            }
        } else {
            Transition { next: Dialogue::ReceivePhone(p), reply: Reply::SaveFailed, command: None }
        },
        other => Transition { next: other, reply: Reply::Silent, command: None },
    }
}

/// A text message from `applicant`.
pub fn handle_message(
    state: Dialogue,
    text: String,
    applicant: i64,
    queue: &Queue,
    store: &mut BookingStore,
    now: Moment,
) -> (t: Transition)
    requires
        queue.wf(),
        old(store).wf(),
    ensures
        final(store).wf(),
        message_rel(state, text@, *queue, old(store)@, final(store)@, applicant, now, t),
{
    if text_eq(text.as_str(), TOGGLE_NOTIFICATION) {
        return Transition {
            next: state,
            reply: Reply::Silent,
            command: Some(Command::ToggleNotification),
        };
    }
    let blocked = match &state {
        Dialogue::Banned(_) => true,
        _ => false,
    };
    if text_eq(text.as_str(), RESTART) && !blocked {
        return Transition { next: Dialogue::default(), reply: Reply::AskConsent, command: None };
    }
    match state {
        Dialogue::Banned(s) => banned(s),
        Dialogue::Start(s) => start(s, text.as_str()),
        Dialogue::ReceiveCaptcha(c) => receive_captcha(c, text),
        Dialogue::ReceiveFullName(s) => receive_full_name(s, text.as_str()),
        Dialogue::ReceivePhone(p) => receive_phone(p, text),
        Dialogue::ReceiveDay(s) => receive_day(s, text.as_str(), queue, store, now.date),
        Dialogue::ReceiveInterval(st) => receive_interval(st, text.as_str(), queue, store, now.date),
        Dialogue::ReceiveTime(st) => receive_time(st, text.as_str(), applicant, queue, store, now),
    }
}

/// One event of `applicant`'s conversation.
pub fn react(
    state: Dialogue,
    event: Event,
    applicant: i64,
    queue: &Queue,
    store: &mut BookingStore,
    now: Moment,
) -> (t: Transition)
    requires
        queue.wf(),
        old(store).wf(),
    ensures
        final(store).wf(),
        event_rel(state, event, *queue, old(store)@, final(store)@, applicant, now, t),
{
    match event {
        Event::Text(text) => handle_message(state, text, applicant, queue, store, now),
        Event::Puzzle(answer) => on_puzzle(state, answer),
        Event::Roster(name, verdict) => on_roster(state, name, verdict),
        Event::Saved(ok) => on_saved(state, ok, queue, now.date),
    }
}

} // verus!
