use queue_bot::calendar::{parse_day, parse_time, Date, Moment};
use queue_bot::captcha::{CheckState, ReceiveCaptchaState};
use queue_bot::dialogue::{
    handle_message, on_puzzle, on_roster, on_saved, react, receive_full_name, Command, Dialogue,
    Event, ReceiveFullNameState, ReceiveTimeState, Reply, ACCEPT, OTHER_DATE, RESTART,
    TOGGLE_NOTIFICATION,
};
use queue_bot::slots::{Queue, Schedule};
use queue_bot::store::BookingStore;
use queue_bot::validate::{is_phone, parse_full_name, parse_interval, FullName};

fn day() -> Date {
    Date::new(2021, 8, 1)
}

fn table() -> Queue {
    Queue::new(vec![(day(), Schedule { start_time: 600, interval: 30, max_enrollee: 2 })]).unwrap()
}

fn morning() -> Moment {
    Moment { date: Date::new(2021, 7, 30), minute: 480 }
}

fn name(last: &str, first: &str, patronymic: &str) -> FullName {
    FullName {
        last_name: last.to_string(),
        name: first.to_string(),
        patronymic: patronymic.to_string(),
    }
}

#[test]
fn puzzle_refreshes_at_ten_and_blocks_at_thirty() {
    let mut gate = ReceiveCaptchaState::new("a1b2c3".to_string());
    for attempt in 1..=30u8 {
        let verdict = gate.check_answer("zzzzzz".to_string());
        assert_eq!(gate.attempt_count, attempt);
        let expected = if attempt == 30 {
            CheckState::Block
        } else if attempt % 10 == 0 {
            CheckState::Update
        } else {
            CheckState::Incorrect
        };
        assert_eq!(verdict, expected, "attempt {}", attempt);
    }
}

#[test]
fn correct_answer_passes_even_late() {
    let mut gate = ReceiveCaptchaState::new("a1b2c3".to_string());
    for _ in 0..29 {
        gate.check_answer("nope".to_string());
    }
    assert_eq!(gate.check_answer("a1b2c3".to_string()), CheckState::Correct);
    let gate = gate.change_answer("qqq".to_string());
    assert_eq!(gate.answer, "qqq");
    assert_eq!(gate.attempt_count, 30);
}

#[test]
fn three_word_name_goes_to_roster_check() {
    let t = receive_full_name(ReceiveFullNameState, "Shevchenko Taras Hryhorovych");
    assert!(matches!(t.next, Dialogue::ReceiveFullName(_)));
    match t.command {
        Some(Command::CheckRoster(n)) => {
            assert_eq!(n.last_name, "Shevchenko");
            assert_eq!(n.name, "Taras");
            assert_eq!(n.patronymic, "Hryhorovych");
        }
        other => panic!("unexpected command {:?}", other),
    }
}

#[test]
fn two_word_name_is_rejected() {
    let t = receive_full_name(ReceiveFullNameState, "Shevchenko Taras");
    assert!(matches!(t.next, Dialogue::ReceiveFullName(_)));
    assert!(matches!(t.reply, Reply::NameMalformed));
    assert!(t.command.is_none());
}

#[test]
fn names_split_on_any_whitespace() {
    let n = parse_full_name("  Ivanov\tIvan \u{a0}Ivanovych ").unwrap();
    assert_eq!(n.last_name, "Ivanov");
    assert_eq!(n.name, "Ivan");
    assert_eq!(n.patronymic, "Ivanovych");
    assert!(parse_full_name("").is_none());
    assert!(parse_full_name("a b c d").is_none());
}

#[test]
fn navigation_keeps_the_booking() {
    let queue = table();
    let mut store = BookingStore::new();
    let state = Dialogue::ReceiveTime(ReceiveTimeState { date: day(), first_time: 600, second_time: 659 });
    let t = handle_message(state, "10:00".to_string(), 42, &queue, &mut store, morning());
    match &t.reply {
        Reply::Booked { date, time, replaced, times } => {
            assert_eq!(*date, day());
            assert_eq!(*time, 600);
            assert!(!*replaced);
            assert_eq!(times, &vec![600, 630]);
        }
        other => panic!("unexpected reply {:?}", other),
    }
    assert!(matches!(t.next, Dialogue::ReceiveTime(_)));
    let t = handle_message(t.next, OTHER_DATE.to_string(), 42, &queue, &mut store, morning());
    assert!(matches!(t.next, Dialogue::ReceiveDay(_)));
    match &t.reply {
        Reply::ChooseDay(days) => assert_eq!(days, &vec![day()]),
        other => panic!("unexpected reply {:?}", other),
    }
    assert_eq!(store.queue_position(42), Ok(0));
    assert_eq!(store.bookings().len(), 1);
}

#[test]
fn second_booking_reports_replacement_and_full_slot_is_taken() {
    let queue = table();
    let mut store = BookingStore::new();
    let st = ReceiveTimeState { date: day(), first_time: 600, second_time: 659 };
    handle_message(Dialogue::ReceiveTime(st), "10:00".to_string(), 1, &queue, &mut store, morning());
    let t = handle_message(Dialogue::ReceiveTime(st), "10:30".to_string(), 1, &queue, &mut store, morning());
    assert!(matches!(t.reply, Reply::Booked { replaced: true, time: 630, .. }));
    handle_message(Dialogue::ReceiveTime(st), "10:30".to_string(), 2, &queue, &mut store, morning());
    let t = handle_message(Dialogue::ReceiveTime(st), "10:30".to_string(), 3, &queue, &mut store, morning());
    match &t.reply {
        Reply::TimeTaken(times) => assert_eq!(times, &vec![600]),
        other => panic!("unexpected reply {:?}", other),
    }
    assert_eq!(store.bookings().len(), 2);
}

#[test]
fn past_day_sends_back_to_day_choice() {
    let queue = table();
    let mut store = BookingStore::new();
    let st = ReceiveTimeState { date: day(), first_time: 600, second_time: 659 };
    let later = Moment { date: Date::new(2021, 8, 2), minute: 0 };
    let t = handle_message(Dialogue::ReceiveTime(st), "10:00".to_string(), 1, &queue, &mut store, later);
    assert!(matches!(t.next, Dialogue::ReceiveDay(_)));
    assert!(matches!(t.reply, Reply::DayPassed(ref v) if v.is_empty()));
    assert!(store.bookings().is_empty());
}

#[test]
fn day_and_interval_choices() {
    let queue = table();
    let mut store = BookingStore::new();
    let t = handle_message(Dialogue::ReceiveDay(queue_bot::dialogue::ReceiveDayState), "01.08".to_string(), 1, &queue, &mut store, morning());
    match &t.reply {
        Reply::ChooseInterval(r) => assert_eq!(r[0], (600, 659)),
        other => panic!("unexpected reply {:?}", other),
    }
    let t = handle_message(t.next, "10:00-10:30".to_string(), 1, &queue, &mut store, morning());
    assert!(matches!(t.next, Dialogue::ReceiveTime(ReceiveTimeState { first_time: 600, second_time: 630, .. })));
    match &t.reply {
        Reply::ChooseTime(v) => assert_eq!(v, &vec![600, 630]),
        other => panic!("unexpected reply {:?}", other),
    }
    let t = handle_message(Dialogue::ReceiveDay(queue_bot::dialogue::ReceiveDayState), "02.08".to_string(), 1, &queue, &mut store, morning());
    assert!(matches!(t.reply, Reply::DayUnknown));
    let t = handle_message(t.next, "tomorrow".to_string(), 1, &queue, &mut store, morning());
    assert!(matches!(t.reply, Reply::DayMalformed));
}

#[test]
fn consent_then_puzzle() {
    let queue = table();
    let mut store = BookingStore::new();
    let t = handle_message(Dialogue::default(), "hello".to_string(), 5, &queue, &mut store, morning());
    assert!(matches!(t.reply, Reply::AskConsent));
    let t = handle_message(t.next, ACCEPT.to_string(), 5, &queue, &mut store, morning());
    assert!(matches!(t.command, Some(Command::GeneratePuzzle)));
    let t = react(t.next, Event::Puzzle(Some("xyz".to_string())), 5, &queue, &mut store, morning());
    match &t.next {
        Dialogue::ReceiveCaptcha(g) => {
            assert_eq!(g.answer, "xyz");
            assert_eq!(g.attempt_count, 0);
        }
        other => panic!("unexpected state {:?}", other),
    }
    let t = handle_message(t.next, "xyz".to_string(), 5, &queue, &mut store, morning());
    assert!(matches!(t.next, Dialogue::ReceiveFullName(_)));
    assert!(matches!(t.reply, Reply::PuzzleSolved));
}

#[test]
fn puzzle_failure_resets_to_start() {
    let gate = Dialogue::ReceiveCaptcha(ReceiveCaptchaState::new("abc".to_string()));
    let t = on_puzzle(gate, None);
    assert!(t.next.is_start());
    assert!(matches!(t.reply, Reply::PuzzleFailed));
}

#[test]
fn thirtieth_wrong_answer_bans() {
    let queue = table();
    let mut store = BookingStore::new();
    let mut state = Dialogue::ReceiveCaptcha(ReceiveCaptchaState::new("abc".to_string()));
    for _ in 0..30 {
        state = handle_message(state, "no".to_string(), 9, &queue, &mut store, morning()).next;
    }
    assert!(matches!(state, Dialogue::Banned(_)));
    let t = handle_message(state, RESTART.to_string(), 9, &queue, &mut store, morning());
    assert!(matches!(t.next, Dialogue::Banned(_)));
    assert!(matches!(t.reply, Reply::Blocked));
}

#[test]
fn restart_and_toggle_commands() {
    let queue = table();
    let mut store = BookingStore::new();
    let t = handle_message(Dialogue::ReceiveFullName(ReceiveFullNameState), RESTART.to_string(), 1, &queue, &mut store, morning());
    assert!(t.next.is_start());
    let t = handle_message(Dialogue::ReceiveFullName(ReceiveFullNameState), TOGGLE_NOTIFICATION.to_string(), 1, &queue, &mut store, morning());
    assert!(matches!(t.next, Dialogue::ReceiveFullName(_)));
    assert!(matches!(t.command, Some(Command::ToggleNotification)));
}

#[test]
fn roster_and_saving_results() {
    let queue = table();
    let n = name("Shevchenko", "Taras", "Hryhorovych");
    let t = on_roster(Dialogue::ReceiveFullName(ReceiveFullNameState), n.clone(), Some(false));
    assert!(matches!(t.reply, Reply::NameUnknown));
    let t = on_roster(Dialogue::ReceiveFullName(ReceiveFullNameState), n.clone(), None);
    assert!(matches!(t.reply, Reply::NameCheckFailed));
    let t = on_roster(Dialogue::ReceiveFullName(ReceiveFullNameState), n, Some(true));
    assert!(matches!(t.reply, Reply::AskPhone));
    let phone_state = t.next.clone();
    match &t.next {
        Dialogue::ReceivePhone(p) => assert_eq!(p.last_name, "Shevchenko"),
        other => panic!("unexpected state {:?}", other),
    }
    let mut store = BookingStore::new();
    let t = handle_message(phone_state.clone(), "12345".to_string(), 1, &queue, &mut store, morning());
    assert!(matches!(t.reply, Reply::PhoneMalformed));
    let t = handle_message(phone_state.clone(), "+380931234567".to_string(), 1, &queue, &mut store, morning());
    match &t.command {
        Some(Command::SaveApplicant(n, phone)) => {
            assert_eq!(n.patronymic, "Hryhorovych");
            assert_eq!(phone, "+380931234567");
        }
        other => panic!("unexpected command {:?}", other),
    }
    let t = on_saved(phone_state.clone(), false, &queue, morning().date);
    assert!(matches!(t.reply, Reply::SaveFailed));
    assert!(matches!(t.next, Dialogue::ReceivePhone(_)));
    let t = on_saved(phone_state, true, &queue, morning().date);
    assert!(matches!(t.next, Dialogue::ReceiveDay(_)));
}

#[test]
fn clock_and_day_text() {
    assert_eq!(parse_time("10:30"), Some(630));
    assert_eq!(parse_time("7:05"), Some(425));
    assert_eq!(parse_time("24:00"), None);
    assert_eq!(parse_time("noon"), None);
    assert_eq!(parse_day("01.08", 2021), Some(Date::new(2021, 8, 1)));
    assert_eq!(parse_day("31.02", 2021), None);
    assert_eq!(parse_interval("10:00-11:30"), Some((600, 690)));
    assert_eq!(parse_interval("x-10:00-11:30"), Some((600, 690)));
    assert_eq!(parse_interval("10:00"), None);
}

#[test]
fn phone_forms() {
    assert!(is_phone("+380931234567"));
    assert!(is_phone("0931234567"));
    assert!(!is_phone("931234567"));
    assert!(!is_phone("+38093123456x"));
}
