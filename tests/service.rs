use queue_bot::notifier::{decide, rank_notice, should_retry, Notifier, RankLedger, RankNotice, RankUpdate, Subscriptions};
use queue_bot::parser::{decimal_text, parse_u8, parse_year, Parser};
use queue_bot::web::{AccessToken, AuthInfo, Error, ReCaptcha, Role, Status, User};

#[test]
fn rank_messages() {
    assert_eq!(rank_notice(0), RankNotice::YourTurn);
    assert_eq!(rank_notice(4), RankNotice::Ahead(4));
}

#[test]
fn subscriptions_toggle() {
    let mut subs = Subscriptions::new();
    assert!(!subs.is_subscribed(3));
    assert!(subs.toggle(3));
    assert!(subs.is_subscribed(3));
    assert!(!subs.is_subscribed(4));
    assert!(!subs.toggle(3));
    assert!(!subs.is_subscribed(3));
}

#[test]
fn stale_rank_updates_are_dropped() {
    let mut subs = Subscriptions::new();
    subs.toggle(1);
    let mut ledger = RankLedger::new();
    let u = |rank, stamp| RankUpdate { applicant: 1, rank, stamp };
    assert_eq!(decide(&subs, &mut ledger, u(2, 5)), Some(RankNotice::Ahead(2)));
    assert_eq!(decide(&subs, &mut ledger, u(3, 4)), None);
    assert_eq!(decide(&subs, &mut ledger, u(0, 6)), Some(RankNotice::YourTurn));
    let other = RankUpdate { applicant: 2, rank: 1, stamp: 1 };
    assert_eq!(decide(&subs, &mut ledger, other), None);
}

#[test]
fn delivery_is_retried_a_bounded_number_of_times() {
    assert!(should_retry(1, false));
    assert!(should_retry(2, false));
    assert!(!should_retry(3, false));
    assert!(!should_retry(1, true));
}

#[test]
fn campaign_year() {
    assert_eq!(parse_year("21"), Ok(21));
    assert_eq!(parse_year("+15"), Ok(15));
    assert_eq!(parse_year("14"), Err("no interval from 15 to 21"));
    assert_eq!(parse_year("abc"), Err("not a number"));
    assert_eq!(parse_year("256"), Err("not a number"));
    assert_eq!(parse_year(""), Err("not a number"));
    assert_eq!(parse_u8("255"), Some(255));
    assert_eq!(parse_u8("007"), Some(7));
    assert_eq!(parse_u8("-1"), None);
    assert_eq!(parse_u8("+"), None);
}

#[test]
fn catalogue_address() {
    assert_eq!(Parser::new(21).url, "https://abit-poisk.org.ua/rate2021/direction/");
    assert_eq!(decimal_text(5), "5");
    assert_eq!(decimal_text(200), "200");
}

#[test]
fn status_names() {
    assert_eq!(Status::from_str("processed"), Ok(Status::Processed));
    assert_eq!(Status::from_str("gone"), Err("Failed to determine status from input"));
    assert_eq!(Status::Absent.as_str(), "absent");
    assert_eq!(Status::Wait.as_str(), "wait");
}

#[test]
fn session_records() {
    let user = User {
        id: 3,
        username: "admin".to_string(),
        email: "a@b.c".to_string(),
        password: "hash".to_string(),
        role: Role::Admin,
    };
    let info = AuthInfo::from_user(user);
    assert_eq!(info.id, 3);
    assert_eq!(info.username, "admin");
    let token = AccessToken::for_session(info, 900);
    assert_eq!(token.exp, 900);
    let back = AuthInfo::from_token(token);
    assert_eq!(back.role, Role::Admin);
    let e = Error::from_message("bad");
    assert_eq!((e.message.as_str(), e.status), ("bad", 400));
    let e = Error::with_status("gone", 401);
    assert_eq!(e.status, 401);
    assert_eq!(ReCaptcha::new("k".to_string()).token, "k");
}

#[test]
fn notifier_sends_only_to_subscribers() {
    let mut n = Notifier::new();
    let u = RankUpdate { applicant: 8, rank: 1, stamp: 1 };
    assert_eq!(n.handle(u), None);
    assert!(n.toggle(8));
    let u = RankUpdate { applicant: 8, rank: 0, stamp: 2 };
    assert_eq!(n.handle(u), Some(RankNotice::YourTurn));
    assert_eq!(n.handle(u), None);
}
