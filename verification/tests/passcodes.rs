use fire_alarm_website::service::submit_address;
use fire_alarm_website::workflow::{Query, Step};
use fire_alarm_website::{
    submit_email, unsubscribe, update_subscription, Address, AppState, Error, Mailbox, OneTimePasscode,
    OtpDb, Submission, Subscription, UserAuth,
};
use std::future::pending;
use std::time::Duration;
use tokio::runtime::{Builder, Runtime};
use tokio::sync::oneshot::error::TryRecvError;
use tokio::task::AbortHandle;

fn runtime() -> Runtime {
    Builder::new_current_thread().build().unwrap()
}

/// A timer that never expires.
fn timer(runtime: &Runtime) -> AbortHandle {
    runtime.spawn(pending::<()>()).abort_handle()
}

/// Whether a timer has been stopped, once the runtime had time for it.
fn stopped(runtime: &Runtime, handle: &AbortHandle) -> bool {
    runtime.block_on(tokio::task::yield_now());
    handle.is_finished()
}

fn address(text: &str) -> Address {
    Address::parse(text).unwrap()
}

fn auth(email: &str, code: u16) -> UserAuth {
    UserAuth {
        email: address(email),
        code,
    }
}

fn state() -> AppState<&'static str, &'static str> {
    let mailbox = Mailbox::new(None, address("no-reply@fire-alarm.org")).unwrap();
    AppState::new(mailbox, "transport", "database", Duration::from_secs(300))
}

#[test]
fn a_passcode_can_be_used_once() {
    let runtime = runtime();
    let mut db = OtpDb::new(Duration::from_secs(300));
    let handle = timer(&runtime);
    let kept = handle.clone();
    let old = db
        .insert(address("a@example.com"), 123, move |_, duration| {
            assert_eq!(duration, Duration::from_secs(300));
            handle
        })
        .unwrap();
    assert!(old.is_none());
    assert!(!stopped(&runtime, &kept));

    assert!(auth("a@example.com", 123).auth(&mut db).is_ok());
    assert!(stopped(&runtime, &kept));
    assert!(matches!(
        auth("a@example.com", 123).auth(&mut db),
        Err(Error::EmailNotFound(email)) if email.as_str() == "a@example.com"
    ));
}

#[test]
fn a_wrong_code_spends_the_passcode() {
    let runtime = runtime();
    let mut db = OtpDb::new(Duration::from_secs(300));
    let handle = timer(&runtime);
    let kept = handle.clone();
    db.insert(address("a@example.com"), 123, move |_, _| handle).unwrap();
    assert!(matches!(
        auth("a@example.com", 124).auth(&mut db),
        Err(Error::CodeDoesNotMatch(124))
    ));
    assert!(stopped(&runtime, &kept));
    assert!(matches!(
        auth("a@example.com", 123).auth(&mut db),
        Err(Error::EmailNotFound(_))
    ));
}

#[test]
fn the_latest_passcode_counts() {
    let runtime = runtime();
    let mut db = OtpDb::new(Duration::from_secs(300));
    db.insert(address("a@example.com"), 1, |_, _| timer(&runtime)).unwrap();
    let old = db.insert(address("a@example.com"), 2, |_, _| timer(&runtime)).unwrap();
    assert_eq!(old.unwrap().code, 1);
    assert!(auth("a@example.com", 2).auth(&mut db).is_ok());
}

#[test]
fn addresses_do_not_interfere() {
    let runtime = runtime();
    let mut db = OtpDb::new(Duration::from_secs(300));
    for code in 0..5u16 {
        let email = address(&format!("user{code}@example.com"));
        db.insert(email, code, |_, _| timer(&runtime)).unwrap();
    }
    assert!(auth("user0@example.com", 9).auth(&mut db).is_err());
    assert_eq!(db.remove(&address("user2@example.com")).unwrap().unwrap().code, 2);
    assert!(db.remove(&address("nobody@example.com")).unwrap().is_none());
    for code in [1, 3, 4] {
        assert!(auth(&format!("user{code}@example.com"), code).auth(&mut db).is_ok());
    }
}

#[test]
fn shutdown_without_passcodes_need_not_wait() {
    let mut db = OtpDb::new(Duration::from_secs(300));
    assert!(db.shutdown().is_none());
    assert!(matches!(
        db.insert(address("a@example.com"), 1, |_, _| unreachable!()),
        Err(Error::ServerShutdown)
    ));
    assert!(db.remove(&address("a@example.com")).unwrap().is_none());
}

#[test]
fn nothing_is_submitted_after_a_shutdown_request() {
    let runtime = runtime();
    let mut state = state();
    let code = submit_email(&mut state, "a@example.com".to_string(), |_, _| timer(&runtime))
        .unwrap()
        .code;
    let mut signal = state.shutdown().unwrap();
    assert!(unsubscribe(&mut state, auth("a@example.com", code)).is_ok());
    assert_eq!(signal.try_recv(), Ok(()));
    let result = submit_email(&mut state, "a@example.com".to_string(), |_, _| unreachable!());
    assert!(matches!(result, Err(Error::ServerShutdown)));
    assert!(state.shutdown().is_none());
}

#[test]
fn shutdown_waits_for_the_last_passcode() {
    let runtime = runtime();
    let mut db = OtpDb::new(Duration::from_secs(300));
    db.insert(address("a@example.com"), 1, |_, _| timer(&runtime)).unwrap();
    db.insert(address("b@example.com"), 2, |_, _| timer(&runtime)).unwrap();
    let mut signal = db.shutdown().unwrap();
    assert!(matches!(
        db.insert(address("c@example.com"), 3, |_, _| unreachable!()),
        Err(Error::ServerShutdown)
    ));
    assert!(matches!(
        auth("c@example.com", 3).auth(&mut db),
        Err(Error::EmailNotFound(_))
    ));
    assert!(auth("a@example.com", 1).auth(&mut db).is_ok());
    assert_eq!(signal.try_recv(), Err(TryRecvError::Empty));
    assert!(auth("b@example.com", 7).auth(&mut db).is_err());
    assert_eq!(signal.try_recv(), Ok(()));
}

#[test]
fn shutdown_that_nobody_waits_for_is_an_error() {
    let runtime = runtime();
    let mut db = OtpDb::new(Duration::from_secs(300));
    db.insert(address("a@example.com"), 1, |_, _| timer(&runtime)).unwrap();
    drop(db.shutdown());
    assert!(matches!(
        auth("a@example.com", 1).auth(&mut db),
        Err(Error::ServerShutdown)
    ));
    assert!(matches!(
        db.insert(address("a@example.com"), 1, |_, _| unreachable!()),
        Err(Error::ServerShutdown)
    ));
}

#[test]
fn submission_makes_the_code_count() {
    let runtime = runtime();
    let mut state = state();
    let first = timer(&runtime);
    let kept = first.clone();
    let Submission { address, code } =
        submit_email(&mut state, "a@example.com".to_string(), move |_, _| first).unwrap();
    assert_eq!(address.as_str(), "a@example.com");
    assert!(!stopped(&runtime, &kept));

    let second = submit_address(&mut state, Ok(address), code.wrapping_add(1), |email, _| {
        assert_eq!(email.as_str(), "a@example.com");
        timer(&runtime)
    })
    .unwrap();
    assert!(stopped(&runtime, &kept));
    assert!(auth("a@example.com", second.code).auth(&mut state.otp_db).is_ok());
}

#[test]
fn codes_are_random() {
    let runtime = runtime();
    let mut state = state();
    let mut codes: Vec<u16> = (0..8)
        .map(|_| {
            submit_email(&mut state, "a@example.com".to_string(), |_, _| timer(&runtime))
                .unwrap()
                .code
        })
        .collect();
    codes.dedup();
    assert!(codes.len() > 1);
}

#[test]
fn what_is_no_address_is_refused() {
    let mut state = state();
    for text in ["", "a", "@", "a@", "@example.com", "a b@example.com", "a@exa mple.com"] {
        let result = submit_email(&mut state, text.to_string(), |_, _| unreachable!());
        assert!(matches!(result, Err(Error::AddressError(_))), "{text}");
    }
    assert_eq!(
        Address::parse("a").unwrap_err(),
        lettre::address::AddressError::MissingParts
    );
    assert_eq!(
        Address::parse("a b@example.com").unwrap_err(),
        lettre::address::AddressError::InvalidUser
    );
    assert_eq!(
        Address::parse("a@exa mple.com").unwrap_err(),
        lettre::address::AddressError::InvalidDomain
    );
}

#[test]
fn submissions_are_turned_away_during_shutdown() {
    let runtime = runtime();
    let mut state = state();
    submit_email(&mut state, "a@example.com".to_string(), |_, _| timer(&runtime)).unwrap();
    assert!(state.shutdown().is_some());
    let result = submit_email(&mut state, "b@example.com".to_string(), |_, _| unreachable!());
    assert!(matches!(result, Err(Error::ServerShutdown)));
}

#[test]
fn requests_are_served_after_authentication() {
    let runtime = runtime();
    let mut state = state();
    assert_eq!(state.transport, "transport");
    assert_eq!(state.db, "database");

    assert!(matches!(
        unsubscribe(&mut state, auth("a@example.com", 1)),
        Err(Error::EmailNotFound(_))
    ));
    state.otp_db.insert(address("a@example.com"), 1, |_, _| timer(&runtime)).unwrap();
    let step = unsubscribe(&mut state, auth("a@example.com", 1)).unwrap();
    assert!(
        matches!(step, Step::Ask(_, Query::UserByEmail(email)) if email == "a@example.com")
    );

    let subscription = |code| Subscription {
        user_auth: auth("a@example.com", code),
        stations: vec!["Tysons".to_string()],
    };
    state.otp_db.insert(address("a@example.com"), 1, |_, _| timer(&runtime)).unwrap();
    assert!(matches!(
        update_subscription(&mut state, subscription(2)),
        Err(Error::CodeDoesNotMatch(2))
    ));
    state.otp_db.insert(address("a@example.com"), 3, |_, _| timer(&runtime)).unwrap();
    let step = update_subscription(&mut state, subscription(3)).unwrap();
    assert!(matches!(step, Step::Ask(_, Query::AllStations)));
}

#[test]
fn a_second_shutdown_takes_over_the_signal() {
    let runtime = runtime();
    let mut db = OtpDb::new(Duration::from_secs(300));
    db.insert(address("a@example.com"), 1, |_, _| timer(&runtime)).unwrap();
    let mut first = db.shutdown().unwrap();
    let mut second = db.shutdown().unwrap();
    assert_eq!(first.try_recv(), Err(TryRecvError::Closed));
    assert_eq!(second.try_recv(), Err(TryRecvError::Empty));
    assert_eq!(db.remove(&address("a@example.com")).unwrap().unwrap().code, 1);
    assert_eq!(second.try_recv(), Ok(()));
}

#[test]
fn a_resubmission_leaves_the_new_code_alone() {
    let runtime = runtime();
    let mut state = state();
    let mut handles = Vec::new();
    for code in [1u16, 2] {
        let handle = timer(&runtime);
        handles.push(handle.clone());
        submit_address(&mut state, Ok(address("a@example.com")), code, move |_, duration| {
            assert_eq!(duration, Duration::from_secs(300));
            handle
        })
        .unwrap();
    }
    submit_address(&mut state, Ok(address("b@example.com")), 3, |_, _| timer(&runtime)).unwrap();
    assert!(stopped(&runtime, &handles[0]));
    assert!(!handles[1].is_finished());
    assert!(matches!(
        auth("a@example.com", 1).auth(&mut state.otp_db),
        Err(Error::CodeDoesNotMatch(1))
    ));
    assert!(stopped(&runtime, &handles[1]));
    assert!(auth("b@example.com", 3).auth(&mut state.otp_db).is_ok());
}

#[test]
fn ending_a_passcode_stops_its_timer() {
    let runtime = runtime();
    let handle = timer(&runtime);
    let kept = handle.clone();
    let mut passcode =
        OneTimePasscode::new(address("a@example.com"), 7, Duration::from_secs(1), |_, _| handle);
    assert!(!passcode.end(8));
    assert!(stopped(&runtime, &kept));
    assert!(passcode.end(7));
}
