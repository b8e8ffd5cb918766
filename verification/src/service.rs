//! The requests that the website serves.

use crate::address::Address;
use crate::auth::UserAuth;
use crate::error::Error;
use crate::mail::{Mailbox, MessageTemplate, Submission};
use crate::otp::{OneTimePasscode, OtpDb, OtpState};
use crate::outside::{random_code, request_stop};
use crate::workflow::{
    Listing, ListingProgress, ListingStep, Progress, Question, StationListing, Step,
    Unsubscription, Update, UserStationsUpdate,
};
use lettre::address::AddressError;
use std::time::Duration;
use tokio::sync::oneshot;
use tokio::task::AbortHandle;
use vstd::prelude::*;

verus! {

/// Stores any global state needed by the application: `T` sends its mail and
/// `C` leads to its database.
pub struct AppState<T, C> {
    /// The passcodes that can be used.
    pub otp_db: OtpDb,
    /// What the messages with the passcodes have in common.
    pub message_template: MessageTemplate,
    /// Sends the mail.
    pub transport: T,
    /// Leads to the database.
    pub db: C,
}

impl<T, C> AppState<T, C> {
    /// Pre-builds the message as much as it can and passes the timeout
    /// duration to the internal [`OtpDb`]
    pub fn new(mailbox: Mailbox, transport: T, db: C, duration: Duration) -> (state: Self)
        ensures
            state.otp_db.wf(),
            state.otp_db@ == (OtpState {
                pending: Map::empty(),
                duration,
                closing: false,
                signal: None,
            }),
            state.message_template.from == mailbox,
            state.message_template.subject@ == "Fire-Alarm Verification Code"@,
            state.message_template.content_type == crate::mail::ContentType::TextPlain,
            state.transport == transport,
            state.db == db,
    {
        AppState {
            otp_db: OtpDb::new(duration),
            message_template: MessageTemplate::new(mailbox),
            transport,
            db,
        }
    }

    /// Whether two states differ in their passcodes at most.
    pub open spec fn same_but_passcodes(self, other: Self) -> bool {
        &&& self.message_template == other.message_template
        &&& self.transport == other.transport
        &&& self.db == other.db
    }

    /// Requests a shutdown; where passcodes are pending, it is to wait for the
    /// signal that the last of them is gone.
    pub fn shutdown(&mut self) -> (wait: Option<oneshot::Receiver<()>>)
        requires
            old(self).otp_db.wf(),
        ensures
            final(self).otp_db.wf(),
            final(self).same_but_passcodes(*old(self)),
            crate::otp::shut(old(self).otp_db@, final(self).otp_db@, wait),
    {
        self.otp_db.shutdown()
    }
}

/// What comes of submitting an address with a code, given the passcodes before
/// and after: an objection to the address is passed on and a shutdown turns
/// submissions away, both without any effect; otherwise the code is pending
/// for the address afterwards, in place of any other, whose timer is stopped.
pub open spec fn submitted<F: FnOnce(Address, Duration) -> AbortHandle>(
    before: OtpState,
    address: Result<Address, AddressError>,
    code: u16,
    start_timer: F,
    after: OtpState,
    result: Result<Submission, Error>,
) -> bool {
    match address {
        Err(fault) => {
            &&& result == Err::<Submission, Error>(Error::AddressError(fault))
            &&& after == before
        },
        Ok(address) => if before.closing {
            &&& result == Err::<Submission, Error>(Error::ServerShutdown)
            &&& after == before
        } else {
            &&& result == Ok::<Submission, Error>(Submission { address, code })
            &&& before.entry(address@) matches Some(replaced) ==> crate::outside::stop_requested(
                replaced.handle,
            )
            &&& exists|passcode: OneTimePasscode|
                {
                    &&& passcode.code == code
                    &&& start_timer.ensures((address, before.duration), passcode.handle)
                    &&& after == #[trigger] before.inserted(address@, passcode)
                }
        },
    }
}

/// Makes `code` the passcode of an address that was submitted, and ends the
/// timer of the one that it replaces.
pub fn submit_address<T, C, F: FnOnce(Address, Duration) -> AbortHandle>(
    state: &mut AppState<T, C>,
    address: Result<Address, AddressError>,
    code: u16,
    start_timer: F,
) -> (result: Result<Submission, Error>)
    requires
        old(state).otp_db.wf(),
        address is Ok && !old(state).otp_db@.closing ==> start_timer.requires(
            (address->Ok_0, old(state).otp_db@.duration),
        ),
    ensures
        final(state).otp_db.wf(),
        final(state).same_but_passcodes(*old(state)),
        submitted(
            old(state).otp_db@,
            address,
            code,
            start_timer,
            final(state).otp_db@,
            result,
        ),
{
    let address = match address {
        Ok(address) => address,
        Err(fault) => return Err(Error::AddressError(fault)),
    };
    match state.otp_db.insert(address.clone(), code, start_timer) {
        Ok(old_entry) => {
            if let Some(mut old_entry) = old_entry {
                request_stop(&mut old_entry.handle);
            }
            Ok(Submission { address, code })
        },
        Err(error) => Err(error),
    }
}

/// Starting point for modifying a subscription, will have a random
/// verification code sent to the given email: the submission that comes back
/// is turned into a message by the template of the state.
pub fn submit_email<T, C, F: FnOnce(Address, Duration) -> AbortHandle>(
    state: &mut AppState<T, C>,
    email: String,
    start_timer: F,
) -> (result: Result<Submission, Error>)
    requires
        old(state).otp_db.wf(),
        forall|address: Address|
            address@ == email@ ==> #[trigger] start_timer.requires(
                (address, old(state).otp_db@.duration),
            ),
    ensures
        final(state).otp_db.wf(),
        final(state).same_but_passcodes(*old(state)),
        exists|address: Result<Address, AddressError>, code: u16|
            {
                &&& match address {
                    Ok(address) => address@ == email@,
                    Err(fault) => crate::outside::address_fault(email@) == Some(fault),
                }
                &&& address is Ok <==> crate::outside::address_fault(email@) is None
                &&& #[trigger] submitted(
                    old(state).otp_db@,
                    address,
                    code,
                    start_timer,
                    final(state).otp_db@,
                    result,
                )
            },
{
    let address = Address::parse(email.as_str());
    let code = random_code();
    submit_address(state, address, code, start_timer)
}

/// Removes a user from the service, first authenticates, then checks if they
/// are subscribed
pub fn unsubscribe<T, C>(state: &mut AppState<T, C>, user_auth: UserAuth) -> (result: Result<
    Step<Unsubscription>,
    Error,
>)
    requires
        old(state).otp_db.wf(),
    ensures
        final(state).otp_db.wf(),
        final(state).same_but_passcodes(*old(state)),
        final(state).otp_db@ == old(state).otp_db@.removed(user_auth.email@),
        exists|announced: Option<Result<(), ()>>, verdict: Result<(), Error>|
            {
                &&& #[trigger] crate::auth::attempted(
                    old(state).otp_db@,
                    user_auth,
                    announced,
                    verdict,
                )
                &&& match verdict {
                    Ok(()) => result matches Ok(step) && step@ == Progress::Ask(
                        Unsubscription::AwaitUser,
                        Question::UserByEmail(user_auth.email@),
                    ),
                    Err(error) => result == Err::<Step<Unsubscription>, Error>(error),
                }
            },
{
    match user_auth.auth(&mut state.otp_db) {
        Ok(()) => Ok(Unsubscription::start(user_auth.email.as_str().to_owned())),
        Err(error) => Err(error),
    }
}

/// The User and the list of stations that they want to be subscribed to
#[derive(Debug)]
pub struct Subscription {
    /// Who the user is, with a code that proves it.
    pub user_auth: UserAuth,
    /// The names of the stations.
    pub stations: Vec<String>,
}

/// Brings the stations of a user into line with their subscription, after
/// authentication
pub fn update_subscription<T, C>(
    state: &mut AppState<T, C>,
    subscription: Subscription,
) -> (result: Result<Step<UserStationsUpdate>, Error>)
    requires
        old(state).otp_db.wf(),
    ensures
        final(state).otp_db.wf(),
        final(state).same_but_passcodes(*old(state)),
        final(state).otp_db@ == old(state).otp_db@.removed(subscription.user_auth.email@),
        exists|announced: Option<Result<(), ()>>, verdict: Result<(), Error>|
            {
                &&& #[trigger] crate::auth::attempted(
                    old(state).otp_db@,
                    subscription.user_auth,
                    announced,
                    verdict,
                )
                &&& match verdict {
                    Ok(()) => result matches Ok(step) && step@ == Progress::Ask(
                        Update::AwaitStations {
                            names: subscription.stations@,
                            email: subscription.user_auth.email@,
                        },
                        Question::AllStations,
                    ),
                    Err(error) => result == Err::<Step<UserStationsUpdate>, Error>(error),
                }
            },
{
    match subscription.user_auth.auth(&mut state.otp_db) {
        Ok(()) => {
            let email = subscription.user_auth.email.as_str().to_owned();
            Ok(update_user_stations(subscription.stations, email))
        },
        Err(error) => Err(error),
    }
}

/// Business logic for updating the subscriptions of a user
pub fn update_user_stations(names: Vec<String>, email: String) -> (step: Step<UserStationsUpdate>)
    ensures
        step@ == Progress::Ask(
            Update::AwaitStations { names: names@, email: email@ },
            Question::AllStations,
        ),
{
    UserStationsUpdate::start(names, email)
}

/// Gets the stations and formats them as
/// [`StationInfo`](crate::network::StationInfo)
pub fn get_stations() -> (step: ListingStep)
    ensures
        step@ == ListingProgress::Ask(Listing::AwaitStations, Question::AllStations),
{
    StationListing::start()
}

/// What a refused submission is answered, and that it has no effect: 400 where
/// there is an objection to the address, 503 while the server shuts down.
pub proof fn law_refused_submissions_are_answered<F: FnOnce(Address, Duration) -> AbortHandle>(
    before: OtpState,
    address: Result<Address, AddressError>,
    code: u16,
    start_timer: F,
    after: OtpState,
    result: Result<Submission, Error>,
)
    requires
        submitted(before, address, code, start_timer, after, result),
    ensures
        result is Err <==> address is Err || before.closing,
        result matches Err(error) ==> after == before && error.status() == if address is Err {
            400u16
        } else {
            503u16
        },
{
}

/// A code that was submitted is the one, and the only one, that opens its
/// address next.
pub proof fn law_submitted_code_is_accepted<F: FnOnce(Address, Duration) -> AbortHandle>(
    before: OtpState,
    address: Result<Address, AddressError>,
    code: u16,
    start_timer: F,
    after: OtpState,
    submission: Submission,
    attempt: UserAuth,
)
    requires
        submitted(
            before,
            address,
            code,
            start_timer,
            after,
            Ok::<Submission, Error>(submission),
        ),
        attempt.email@ == submission.address@,
    ensures
        submission.code == code,
        attempt.verdict(after.entry(attempt.email@)) is Ok <==> attempt.code == submission.code,
{
}

/// Once a shutdown was requested nothing is submitted any more: whether or not
/// passcodes were pending at the time, and whatever passcodes are used or time
/// out afterwards, every submission is turned away without any effect.
pub proof fn law_nothing_is_submitted_after_a_shutdown_request<
    F: FnOnce(Address, Duration) -> AbortHandle,
>(
    before: OtpState,
    requested: OtpState,
    wait: Option<oneshot::Receiver<()>>,
    addresses: Seq<Seq<char>>,
    address: Address,
    code: u16,
    start_timer: F,
    after: OtpState,
    result: Result<Submission, Error>,
)
    requires
        crate::otp::shut(before, requested, wait),
        submitted(
            crate::otp::drained(requested, addresses),
            Ok::<Address, AddressError>(address),
            code,
            start_timer,
            after,
            result,
        ),
    ensures
        result == Err::<Submission, Error>(Error::ServerShutdown),
        after == crate::otp::drained(requested, addresses),
{
    crate::otp::law_shutdown_request_stays_on_record(before, requested, wait, addresses);
}

/// Submitting an address again, while its first code is pending, leaves one
/// passcode for it: the new code, with a timer of its own for the whole
/// duration. The first timer is stopped, the first code is accepted only if it
/// happens to be the new one, and other addresses keep what they have.
pub proof fn law_resubmission_replaces_the_code<
    F: FnOnce(Address, Duration) -> AbortHandle,
    G: FnOnce(Address, Duration) -> AbortHandle,
>(
    before: OtpState,
    address: Address,
    code: u16,
    start_timer: F,
    between: OtpState,
    first: Submission,
    later: OtpState,
    again: Address,
    new_code: u16,
    start_new_timer: G,
    after: OtpState,
    second: Submission,
    attempt: UserAuth,
    other: Seq<char>,
)
    requires
        submitted(
            before,
            Ok::<Address, AddressError>(address),
            code,
            start_timer,
            between,
            Ok::<Submission, Error>(first),
        ),
        later.entry(address@) == between.entry(address@),
        submitted(
            later,
            Ok::<Address, AddressError>(again),
            new_code,
            start_new_timer,
            after,
            Ok::<Submission, Error>(second),
        ),
        again@ == address@,
        attempt.email@ == address@,
        other != address@,
    ensures
        between.entry(address@) matches Some(passcode) && passcode.code == code
            && crate::outside::stop_requested(passcode.handle),
        after.entry(address@) matches Some(passcode) && passcode.code == new_code
            && start_new_timer.ensures((again, later.duration), passcode.handle),
        attempt.verdict(after.entry(address@)) is Ok <==> attempt.code == new_code,
        after.entry(other) == later.entry(other),
{
}

/// What a submission comes to: an objection to the address is handed on and a
/// shutdown turns it away, both without any effect. Otherwise the submission has
/// the address and the code, the code is pending for the address under a timer
/// of the whole duration, a timer that it replaces is stopped, and nothing else
/// has changed.
pub proof fn law_submission_makes_its_code_pending<F: FnOnce(Address, Duration) -> AbortHandle>(
    before: OtpState,
    address: Result<Address, AddressError>,
    code: u16,
    start_timer: F,
    after: OtpState,
    result: Result<Submission, Error>,
    other: Seq<char>,
)
    requires
        submitted(before, address, code, start_timer, after, result),
    ensures
        address matches Err(fault) ==> result == Err::<Submission, Error>(
            Error::AddressError(fault),
        ) && after == before,
        address is Ok && before.closing ==> result == Err::<Submission, Error>(
            Error::ServerShutdown,
        ) && after == before,
        address is Ok && !before.closing ==> {
            let to = address->Ok_0;
            &&& result is Ok
            &&& result->Ok_0.address == to
            &&& result->Ok_0.code == code
            &&& after.pending.contains_key(to@)
            &&& after.pending[to@].code == code
            &&& start_timer.ensures((to, before.duration), after.pending[to@].handle)
            &&& before.pending.contains_key(to@) ==> exists|stopped: AbortHandle|
                crate::outside::stop_request(before.pending[to@].handle, stopped)
            &&& other != to@ ==> (after.pending.contains_key(other)
                <==> before.pending.contains_key(other))
            &&& other != to@ && before.pending.contains_key(other) ==> after.pending[other]
                == before.pending[other]
        },
        after.closing == before.closing,
        after.signal == before.signal,
        after.duration == before.duration,
{
}

/// Nobody is turned away for a shutdown that nobody requested: whatever
/// passcodes were sent, used or timed out since the server started, an accepted
/// address is submitted.
pub proof fn law_submissions_are_served_until_a_shutdown_request<
    F: FnOnce(Address, Duration) -> AbortHandle,
>(
    started: OtpState,
    events: Seq<crate::otp::Event>,
    address: Address,
    code: u16,
    start_timer: F,
    after: OtpState,
    result: Result<Submission, Error>,
)
    requires
        !started.closing,
        submitted(
            crate::otp::after_events(started, events),
            Ok::<Address, AddressError>(address),
            code,
            start_timer,
            after,
            result,
        ),
    ensures
        result == Ok::<Submission, Error>(Submission { address, code }),
{
    crate::otp::law_only_a_request_starts_a_shutdown(started, events);
}

/// What a code is submitted for is what it opens: a submission, then whatever
/// happens to other addresses, then an attempt that brings the code, ends with
/// the attempt accepted, unless a shutdown that it completes goes unheard. Any
/// other code is refused.
pub proof fn law_submitted_code_opens_its_address_later<
    F: FnOnce(Address, Duration) -> AbortHandle,
>(
    before: OtpState,
    address: Address,
    code: u16,
    start_timer: F,
    between: OtpState,
    submission: Submission,
    events: Seq<crate::otp::Event>,
    attempt: UserAuth,
    announced: Option<Result<(), ()>>,
    verdict: Result<(), Error>,
)
    requires
        submitted(
            before,
            Ok::<Address, AddressError>(address),
            code,
            start_timer,
            between,
            Ok::<Submission, Error>(submission),
        ),
        forall|i: int|
            0 <= i < events.len() ==> match #[trigger] events[i] {
                crate::otp::Event::Sent(other, _) => other != address@,
                crate::otp::Event::Gone(other) => other != address@,
            },
        attempt.email@ == submission.address@,
        crate::auth::attempted(
            crate::otp::after_events(between, events),
            attempt,
            announced,
            verdict,
        ),
        announced is None || announced->Some_0 is Ok,
    ensures
        verdict is Ok <==> attempt.code == submission.code,
        attempt.code != submission.code ==> verdict == Err::<(), Error>(
            Error::CodeDoesNotMatch(attempt.code),
        ),
{
    crate::otp::law_passcode_stays_pending(between, events, address@);
    crate::auth::law_attempt_is_judged_by_the_pending_code(
        crate::otp::after_events(between, events),
        attempt,
        announced,
        verdict,
    );
}

/// A request that works on passcodes touches nothing else in the state.
pub proof fn law_requests_keep_the_rest_of_the_state<T, C>(
    before: AppState<T, C>,
    after: AppState<T, C>,
)
    requires
        after.same_but_passcodes(before),
    ensures
        after.message_template == before.message_template,
        after.transport == before.transport,
        after.db == before.db,
{
}

/// A new state has no passcode and no shutdown on record, keeps what it is
/// given, and writes under the one subject, as plain text.
pub proof fn law_new_state_is_open_and_empty<T, C>(
    mailbox: Mailbox,
    transport: T,
    db: C,
    duration: Duration,
    state: AppState<T, C>,
    address: Seq<char>,
)
    requires
        call_ensures(AppState::<T, C>::new, (mailbox, transport, db, duration), state),
    ensures
        !state.otp_db@.pending.contains_key(address),
        !state.otp_db@.closing,
        state.otp_db@.signal is None,
        state.otp_db@.duration == duration,
        state.message_template.from == mailbox,
        state.message_template.subject@ == "Fire-Alarm Verification Code"@,
        state.message_template.content_type == crate::mail::ContentType::TextPlain,
        state.transport == transport,
        state.db == db,
{
}

/// A request for a shutdown of the state is one of its passcodes, and touches
/// nothing else.
pub proof fn law_state_is_shut_with_its_passcodes<T, C>(
    state: &mut AppState<T, C>,
    wait: Option<oneshot::Receiver<()>>,
)
    requires
        call_ensures(AppState::<T, C>::shutdown, (state,), wait),
    ensures
        final(state).otp_db@.closing,
        final(state).otp_db@.pending == old(state).otp_db@.pending,
        final(state).otp_db@.duration == old(state).otp_db@.duration,
        wait is Some <==> exists|address: Seq<char>| #[trigger]
            old(state).otp_db@.pending.contains_key(address),
        wait is Some ==> final(state).otp_db@.signal is Some && crate::outside::paired(
            final(state).otp_db@.signal->Some_0,
            wait->Some_0,
        ),
        final(state).message_template == old(state).message_template,
        final(state).transport == old(state).transport,
        final(state).db == old(state).db,
{
    crate::otp::law_shutdown_request_takes_nothing_away(
        old(state).otp_db@,
        final(state).otp_db@,
        wait,
    );
}

/// An email that is submitted is accepted exactly if it is an address and no
/// shutdown is on record. Then the code that is to be sent there is the one that
/// is pending for it, and nobody else is concerned; a refusal has no effect.
pub proof fn law_submitted_email_gets_a_code<T, C, F: FnOnce(Address, Duration) -> AbortHandle>(
    state: &mut AppState<T, C>,
    email: String,
    start_timer: F,
    result: Result<Submission, Error>,
    other: Seq<char>,
)
    requires
        call_ensures(submit_email::<T, C, F>, (state, email, start_timer), result),
    ensures
        ({
            let before = old(state).otp_db@;
            let after = final(state).otp_db@;
            let fault = crate::outside::address_fault(email@);
            &&& result is Ok <==> fault is None && !before.closing
            &&& fault is Some ==> result == Err::<Submission, Error>(
                Error::AddressError(fault->Some_0),
            )
            &&& fault is None && before.closing ==> result == Err::<Submission, Error>(
                Error::ServerShutdown,
            )
            &&& result is Err ==> after == before
            &&& result is Ok ==> {
                &&& result->Ok_0.address@ == email@
                &&& after.pending.contains_key(email@)
                &&& after.pending[email@].code == result->Ok_0.code
                &&& start_timer.ensures(
                    (result->Ok_0.address, before.duration),
                    after.pending[email@].handle,
                )
                &&& before.pending.contains_key(email@) ==> exists|stopped: AbortHandle|
                    crate::outside::stop_request(before.pending[email@].handle, stopped)
                &&& other != email@ ==> (after.pending.contains_key(other)
                    <==> before.pending.contains_key(other))
                &&& other != email@ && before.pending.contains_key(other) ==> after.pending[other]
                    == before.pending[other]
            }
            &&& after.closing == before.closing
            &&& after.signal == before.signal
            &&& after.duration == before.duration
        }),
        final(state).message_template == old(state).message_template,
        final(state).transport == old(state).transport,
        final(state).db == old(state).db,
{
    let before = old(state).otp_db@;
    let after = final(state).otp_db@;
    let (address, code) = choose|address: Result<Address, AddressError>, code: u16|
        {
            &&& match address {
                Ok(address) => address@ == email@,
                Err(fault) => crate::outside::address_fault(email@) == Some(fault),
            }
            &&& address is Ok <==> crate::outside::address_fault(email@) is None
            &&& #[trigger] submitted(before, address, code, start_timer, after, result)
        };
    law_submission_makes_its_code_pending(
        before,
        address,
        code,
        start_timer,
        after,
        result,
        other,
    );
}

/// A request to unsubscribe is served exactly if its code was pending for its
/// address, unless a shutdown that it completes goes unheard: the database is
/// then asked for the user with just that address. The code is spent either way.
pub proof fn law_unsubscription_is_served_for_the_pending_code<T, C>(
    state: &mut AppState<T, C>,
    user_auth: UserAuth,
    result: Result<Step<Unsubscription>, Error>,
)
    requires
        call_ensures(unsubscribe::<T, C>, (state, user_auth), result),
    ensures
        ({
            let before = old(state).otp_db@;
            let waiting = before.pending.contains_key(user_auth.email@);
            let code = before.pending[user_auth.email@].code;
            let unheard = result == Err::<Step<Unsubscription>, Error>(Error::ServerShutdown);
            &&& result is Ok ==> waiting && code == user_auth.code && result->Ok_0@
                == Progress::Ask(
                Unsubscription::AwaitUser,
                Question::UserByEmail(user_auth.email@),
            )
            &&& !unheard && waiting && code == user_auth.code ==> result is Ok
            &&& !unheard && waiting && code != user_auth.code ==> result == Err::<
                Step<Unsubscription>,
                Error,
            >(Error::CodeDoesNotMatch(user_auth.code))
            &&& !unheard && !waiting ==> result == Err::<Step<Unsubscription>, Error>(
                Error::EmailNotFound(user_auth.email),
            )
            &&& unheard ==> before.signal is Some && forall|other: Seq<char>| #[trigger]
                before.pending.contains_key(other) ==> other == user_auth.email@
            &&& final(state).otp_db@.pending == before.pending.remove(user_auth.email@)
            &&& final(state).otp_db@.closing == before.closing
            &&& final(state).otp_db@.duration == before.duration
        }),
        final(state).message_template == old(state).message_template,
        final(state).transport == old(state).transport,
        final(state).db == old(state).db,
{
    let before = old(state).otp_db@;
    let (announced, verdict) = choose|
        announced: Option<Result<(), ()>>,
        verdict: Result<(), Error>,
    |
        {
            &&& #[trigger] crate::auth::attempted(before, user_auth, announced, verdict)
            &&& match verdict {
                Ok(()) => result matches Ok(step) && step@ == Progress::Ask(
                    Unsubscription::AwaitUser,
                    Question::UserByEmail(user_auth.email@),
                ),
                Err(error) => result == Err::<Step<Unsubscription>, Error>(error),
            }
        };
    crate::auth::law_attempt_is_judged_by_the_pending_code(before, user_auth, announced, verdict);
    crate::otp::law_removal_changes_one_passcode(before, user_auth.email@);
}

/// A request to change a subscription is served exactly if its code was pending
/// for its address, unless a shutdown that it completes goes unheard: the update
/// then starts with all of its names and just that address. The code is spent
/// either way.
pub proof fn law_subscription_is_served_for_the_pending_code<T, C>(
    state: &mut AppState<T, C>,
    subscription: Subscription,
    result: Result<Step<UserStationsUpdate>, Error>,
)
    requires
        call_ensures(update_subscription::<T, C>, (state, subscription), result),
    ensures
        ({
            let before = old(state).otp_db@;
            let user_auth = subscription.user_auth;
            let waiting = before.pending.contains_key(user_auth.email@);
            let code = before.pending[user_auth.email@].code;
            let unheard = result == Err::<Step<UserStationsUpdate>, Error>(Error::ServerShutdown);
            &&& result is Ok ==> waiting && code == user_auth.code && result->Ok_0@
                == Progress::Ask(
                Update::AwaitStations {
                    names: subscription.stations@,
                    email: user_auth.email@,
                },
                Question::AllStations,
            )
            &&& !unheard && waiting && code == user_auth.code ==> result is Ok
            &&& !unheard && waiting && code != user_auth.code ==> result == Err::<
                Step<UserStationsUpdate>,
                Error,
            >(Error::CodeDoesNotMatch(user_auth.code))
            &&& !unheard && !waiting ==> result == Err::<Step<UserStationsUpdate>, Error>(
                Error::EmailNotFound(user_auth.email),
            )
            &&& unheard ==> before.signal is Some && forall|other: Seq<char>| #[trigger]
                before.pending.contains_key(other) ==> other == user_auth.email@
            &&& final(state).otp_db@.pending == before.pending.remove(user_auth.email@)
            &&& final(state).otp_db@.closing == before.closing
            &&& final(state).otp_db@.duration == before.duration
        }),
        final(state).message_template == old(state).message_template,
        final(state).transport == old(state).transport,
        final(state).db == old(state).db,
{
    let before = old(state).otp_db@;
    let user_auth = subscription.user_auth;
    let (announced, verdict) = choose|
        announced: Option<Result<(), ()>>,
        verdict: Result<(), Error>,
    |
        {
            &&& #[trigger] crate::auth::attempted(before, user_auth, announced, verdict)
            &&& match verdict {
                Ok(()) => result matches Ok(step) && step@ == Progress::Ask(
                    Update::AwaitStations {
                        names: subscription.stations@,
                        email: user_auth.email@,
                    },
                    Question::AllStations,
                ),
                Err(error) => result == Err::<Step<UserStationsUpdate>, Error>(error),
            }
        };
    crate::auth::law_attempt_is_judged_by_the_pending_code(before, user_auth, announced, verdict);
    crate::otp::law_removal_changes_one_passcode(before, user_auth.email@);
}

/// An address that is submitted with a code is accepted exactly if there is no
/// objection to it and no shutdown is on record. Then it has just that code, and
/// nobody else is concerned; a refusal has no effect.
pub proof fn law_submitted_address_gets_its_code<
    T,
    C,
    F: FnOnce(Address, Duration) -> AbortHandle,
>(
    state: &mut AppState<T, C>,
    address: Result<Address, AddressError>,
    code: u16,
    start_timer: F,
    result: Result<Submission, Error>,
    other: Seq<char>,
)
    requires
        call_ensures(submit_address::<T, C, F>, (state, address, code, start_timer), result),
    ensures
        ({
            let before = old(state).otp_db@;
            let after = final(state).otp_db@;
            &&& result is Ok <==> address is Ok && !before.closing
            &&& address is Err ==> result == Err::<Submission, Error>(
                Error::AddressError(address->Err_0),
            )
            &&& address is Ok && before.closing ==> result == Err::<Submission, Error>(
                Error::ServerShutdown,
            )
            &&& result is Err ==> after == before
            &&& result is Ok ==> {
                &&& result->Ok_0.address == address->Ok_0
                &&& result->Ok_0.code == code
                &&& after.pending.contains_key(address->Ok_0@)
                &&& after.pending[address->Ok_0@].code == code
                &&& other != address->Ok_0@ ==> (after.pending.contains_key(other)
                    <==> before.pending.contains_key(other))
                &&& other != address->Ok_0@ && before.pending.contains_key(other)
                    ==> after.pending[other] == before.pending[other]
            }
            &&& after.closing == before.closing
            &&& after.signal == before.signal
            &&& after.duration == before.duration
        }),
        final(state).message_template == old(state).message_template,
        final(state).transport == old(state).transport,
        final(state).db == old(state).db,
{
    law_submission_makes_its_code_pending(
        old(state).otp_db@,
        address,
        code,
        start_timer,
        final(state).otp_db@,
        result,
        other,
    );
}

} // verus!
