use queue_bot::calendar::{Date, Moment};
use queue_bot::slots::{available_times, hour_choices, times_between, Queue, Schedule, ScheduleError};
use queue_bot::store::{Booking, BookingError, BookingStore, QueueError};

fn day() -> Date {
    Date::new(2021, 8, 1)
}

fn before_day() -> Moment {
    Moment { date: Date::new(2021, 7, 1), minute: 0 }
}

fn schedule(max_enrollee: u16) -> Schedule {
    Schedule { start_time: 600, interval: 30, max_enrollee }
}

#[test]
fn third_booking_of_a_two_seat_slot_is_refused() {
    let s = schedule(2);
    let mut store = BookingStore::new();
    assert_eq!(store.register_booking(&s, 1, day(), 600, before_day()), Ok(false));
    assert_eq!(store.register_booking(&s, 2, day(), 600, before_day()), Ok(false));
    assert_eq!(store.occupied_count(day(), 600), 2);
    assert_eq!(
        store.register_booking(&s, 3, day(), 600, before_day()),
        Err(BookingError::SlotFull)
    );
    assert_eq!(store.bookings().len(), 2);
}

#[test]
fn capacity_of_three_admits_three() {
    let s = schedule(3);
    let mut store = BookingStore::new();
    for id in 10..13 {
        assert_eq!(store.register_booking(&s, id, day(), 660, before_day()), Ok(false));
    }
    assert!(store.check_occupied(&s, day(), 660));
    assert_eq!(
        store.register_booking(&s, 13, day(), 660, before_day()),
        Err(BookingError::SlotFull)
    );
}

#[test]
fn rebooking_replaces_the_earlier_booking() {
    let s = schedule(2);
    let mut store = BookingStore::new();
    assert_eq!(store.register_booking(&s, 7, day(), 600, before_day()), Ok(false));
    assert_eq!(store.register_booking(&s, 7, day(), 630, before_day()), Ok(true));
    let mine: Vec<&Booking> = store.bookings().iter().filter(|b| b.applicant == 7).collect();
    assert_eq!(mine.len(), 1);
    assert_eq!(mine[0].time, 630);
    assert_eq!(store.occupied_count(day(), 600), 0);
}

#[test]
fn past_or_off_grid_slots_are_invalid() {
    let s = schedule(2);
    let mut store = BookingStore::new();
    let later = Moment { date: Date::new(2021, 8, 2), minute: 0 };
    assert_eq!(
        store.register_booking(&s, 1, day(), 600, later),
        Err(BookingError::InvalidSlot)
    );
    let same_day = Moment { date: day(), minute: 620 };
    assert_eq!(
        store.register_booking(&s, 1, day(), 600, same_day),
        Err(BookingError::InvalidSlot)
    );
    assert_eq!(
        store.register_booking(&s, 1, day(), 615, before_day()),
        Err(BookingError::InvalidSlot)
    );
    assert_eq!(
        store.register_booking(&s, 1, day(), 590, before_day()),
        Err(BookingError::InvalidSlot)
    );
    assert!(store.bookings().is_empty());
}

#[test]
fn check_occupied_is_stable_between_registrations() {
    let s = schedule(1);
    let mut store = BookingStore::new();
    assert!(!store.check_occupied(&s, day(), 600));
    assert!(!store.check_occupied(&s, day(), 600));
    store.register_booking(&s, 1, day(), 600, before_day()).unwrap();
    assert!(store.check_occupied(&s, day(), 600));
    assert!(store.check_occupied(&s, day(), 600));
}

#[test]
fn available_times_skip_full_slots() {
    let s = Schedule { start_time: 1320, interval: 30, max_enrollee: 1 };
    let mut store = BookingStore::new();
    assert_eq!(available_times(&s, &store, day()), vec![1320, 1350, 1380, 1410]);
    store.register_booking(&s, 1, day(), 1350, before_day()).unwrap();
    assert_eq!(available_times(&s, &store, day()), vec![1320, 1380, 1410]);
    assert_eq!(available_times(&s, &store, Date::new(2021, 8, 2)), vec![1320, 1350, 1380, 1410]);
}

#[test]
fn times_between_is_inclusive() {
    let s = schedule(1);
    let mut store = BookingStore::new();
    store.register_booking(&s, 1, day(), 630, before_day()).unwrap();
    assert_eq!(times_between(&s, &store, day(), 600, 660), vec![600, 660]);
    assert_eq!(times_between(&s, &store, day(), 601, 659), Vec::<u32>::new());
}

#[test]
fn hour_choices_group_by_hour() {
    assert_eq!(
        hour_choices(&vec![600, 630, 660, 750]),
        vec![(600, 659), (660, 719), (720, 779)]
    );
    assert_eq!(hour_choices(&Vec::new()), Vec::<(u32, u32)>::new());
}

#[test]
fn queue_position_counts_earlier_bookings() {
    let s = schedule(2);
    let mut store = BookingStore::new();
    store.register_booking(&s, 1, day(), 630, before_day()).unwrap();
    store.register_booking(&s, 2, day(), 600, before_day()).unwrap();
    store.register_booking(&s, 3, day(), 630, before_day()).unwrap();
    assert_eq!(store.queue_position(2), Ok(0));
    assert_eq!(store.queue_position(1), Ok(1));
    assert_eq!(store.queue_position(3), Ok(2));
    assert_eq!(store.queue_position(4), Err(QueueError::NotBooked));
}

#[test]
fn schedule_table_must_ascend() {
    let a = (Date::new(2021, 8, 1), schedule(2));
    let b = (Date::new(2021, 8, 2), schedule(2));
    assert!(Queue::new(vec![b, a]).is_none());
    assert!(Queue::new(vec![a, a]).is_none());
    assert!(Queue::new(vec![(day(), Schedule { start_time: 600, interval: 0, max_enrollee: 1 })]).is_none());
    let q = Queue::new(vec![a, b]).unwrap();
    assert_eq!(q.schedule_for(&Date::new(2021, 8, 2)), Some(schedule(2)));
    assert_eq!(q.schedule_for(&Date::new(2021, 8, 3)), None);
    assert_eq!(q.bookable_days(&Date::new(2021, 8, 2)), vec![Date::new(2021, 8, 2)]);
}

#[test]
fn unknown_date_is_an_error_not_an_empty_list() {
    let s = Schedule { start_time: 600, interval: 30, max_enrollee: 1 };
    let q = Queue::new(vec![(day(), s)]).unwrap();
    let mut store = BookingStore::new();
    for t in (600..1440).step_by(30) {
        store.register_booking(&s, t as i64, day(), t, before_day()).unwrap();
    }
    assert_eq!(q.available_times(&store, day()), Ok(Vec::new()));
    assert_eq!(q.available_times(&store, Date::new(2021, 8, 2)), Err(ScheduleError::DateNotFound));
    assert_eq!(q.times_between(&store, Date::new(2021, 8, 2), 600, 700), Err(ScheduleError::DateNotFound));
    let empty = BookingStore::new();
    assert_eq!(q.times_between(&empty, day(), 600, 660), Ok(vec![600, 630, 660]));
}
