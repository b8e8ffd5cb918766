//! Checking that a request comes from the owner of an email address.

use crate::address::Address;
use crate::error::Error;
use crate::otp::{OneTimePasscode, OtpDb, OtpState};
use vstd::prelude::*;

verus! {

/// Email address of the user and a code to verify access
#[derive(Debug)]
pub struct UserAuth {
    /// Who the user says they are.
    pub email: Address,
    /// The code that proves it.
    pub code: u16,
}

impl UserAuth {
    /// The verdict, given the passcode that was pending for the address.
    pub open spec fn verdict(self, pending: Option<OneTimePasscode>) -> Result<(), Error> {
        match pending {
            None => Err(Error::EmailNotFound(self.email)),
            Some(passcode) => if passcode.code == self.code {
                Ok(())
            } else {
                Err(Error::CodeDoesNotMatch(self.code))
            },
        }
    }

    /// The verdict, given what came of taking out the passcode that was
    /// pending for the address.
    pub open spec fn judged(self, removed: Result<Option<OneTimePasscode>, Error>) -> Result<
        (),
        Error,
    > {
        match removed {
            Ok(pending) => self.verdict(pending),
            Err(error) => Err(error),
        }
    }

    /// Judges by what came of taking out the passcode that was pending for the
    /// address, and ends its timer.
    pub fn judge(&self, removed: Result<Option<OneTimePasscode>, Error>) -> (verdict: Result<
        (),
        Error,
    >)
        ensures
            verdict == self.judged(removed),
            removed matches Ok(Some(passcode)) ==> crate::outside::stop_requested(passcode.handle),
    {
        match removed {
            Ok(Some(mut otp_data)) => if otp_data.end(self.code) {
                Ok(())
            } else {
                Err(Error::CodeDoesNotMatch(self.code))
            },
            Ok(None) => Err(Error::EmailNotFound(self.email.clone())),
            Err(error) => Err(error),
        }
    }

    /// Checks the code against the OTP database, where it counts only once:
    /// right or wrong, the passcode of the address is gone afterwards.
    pub fn auth(&self, otp_db: &mut OtpDb) -> (verdict: Result<(), Error>)
        requires
            old(otp_db).wf(),
        ensures
            final(otp_db).wf(),
            final(otp_db)@ == old(otp_db)@.removed(self.email@),
            exists|announced: Option<Result<(), ()>>| #[trigger]
                attempted(old(otp_db)@, *self, announced, verdict),
    {
        let removed = otp_db.remove(&self.email);
        let ghost announced = choose|announced: Option<Result<(), ()>>|
            {
                &&& crate::otp::announcement(old(otp_db)@, self.email@, announced)
                &&& removed == #[trigger] crate::otp::removal(
                    old(otp_db)@.entry(self.email@),
                    announced,
                )
            };
        let verdict = self.judge(removed);
        assert(attempted(old(otp_db)@, *self, announced, verdict));
        verdict
    }
}

/// What comes of an attempt to authenticate, given the passcodes before:
/// `announced` is what came of removing the passcode of the address, and the
/// timer of a passcode that came out is stopped.
pub open spec fn attempted(
    before: OtpState,
    attempt: UserAuth,
    announced: Option<Result<(), ()>>,
    verdict: Result<(), Error>,
) -> bool {
    let removed = crate::otp::removal(before.entry(attempt.email@), announced);
    &&& crate::otp::announcement(before, attempt.email@, announced)
    &&& verdict == attempt.judged(removed)
    &&& removed matches Ok(Some(passcode)) ==> crate::outside::stop_requested(passcode.handle)
}

/// Whether nobody was there to hear the announcement, where one was made.
pub open spec fn unheard(announced: Option<Result<(), ()>>) -> bool {
    announced matches Some(outcome) && outcome is Err
}

/// The code that was last sent to an address opens the door once: the first
/// attempt with it is accepted, unless a shutdown that it completes goes
/// unheard, and every attempt after that is told that no code is waiting.
pub proof fn law_right_code_is_accepted_once(
    state: OtpState,
    passcode: OneTimePasscode,
    attempt: UserAuth,
    announced: Option<Result<(), ()>>,
    later: UserAuth,
)
    requires
        attempt.code == passcode.code,
        later.email@ == attempt.email@,
    ensures
        ({
            let sent = state.inserted(attempt.email@, passcode);
            let spent = sent.removed(attempt.email@);
            &&& !unheard(announced) ==> attempt.judged(
                crate::otp::removal(sent.entry(attempt.email@), announced),
            ) == Ok::<(), Error>(())
            &&& later.verdict(spent.entry(later.email@)) == Err::<(), Error>(
                Error::EmailNotFound(later.email),
            )
        }),
{
}

/// A wrong code is refused, and costs the right one: after it even the code
/// that was sent finds nothing waiting.
pub proof fn law_wrong_code_is_refused_and_spends_the_right_one(
    state: OtpState,
    passcode: OneTimePasscode,
    attempt: UserAuth,
    announced: Option<Result<(), ()>>,
    later: UserAuth,
)
    requires
        attempt.code != passcode.code,
        later.email@ == attempt.email@,
    ensures
        ({
            let sent = state.inserted(attempt.email@, passcode);
            let spent = sent.removed(attempt.email@);
            &&& !unheard(announced) ==> attempt.judged(
                crate::otp::removal(sent.entry(attempt.email@), announced),
            ) == Err::<(), Error>(Error::CodeDoesNotMatch(attempt.code))
            &&& later.verdict(spent.entry(later.email@)) == Err::<(), Error>(
                Error::EmailNotFound(later.email),
            )
        }),
{
}

/// An attempt is accepted only with the code that is pending for its address.
pub proof fn law_only_the_pending_code_is_accepted(
    state: OtpState,
    attempt: UserAuth,
    announced: Option<Result<(), ()>>,
)
    requires
        attempt.judged(crate::otp::removal(state.entry(attempt.email@), announced)) is Ok,
    ensures
        state.pending.contains_key(attempt.email@),
        state.pending[attempt.email@].code == attempt.code,
{
}

/// What a refused attempt is answered: 410 where no code is waiting, 401 where
/// the code is wrong, 503 where a shutdown went unheard.
pub proof fn law_refused_attempts_are_answered(
    state: OtpState,
    attempt: UserAuth,
    announced: Option<Result<(), ()>>,
)
    ensures
        attempt.judged(
            crate::otp::removal(state.entry(attempt.email@), announced),
        ) matches Err(error) ==> error.status() == if unheard(announced) {
            503u16
        } else if state.entry(attempt.email@) is None {
            410u16
        } else {
            401u16
        },
{
}

/// What an attempt comes to: unless a shutdown that it completes goes unheard,
/// it is accepted exactly if the code that is pending for its address is the one
/// it brings, it is told of a wrong code exactly if another one is pending, and
/// of an unknown address exactly if none is. A passcode that was pending is
/// stopped.
pub proof fn law_attempt_is_judged_by_the_pending_code(
    before: OtpState,
    attempt: UserAuth,
    announced: Option<Result<(), ()>>,
    verdict: Result<(), Error>,
)
    requires
        attempted(before, attempt, announced, verdict),
    ensures
        ({
            let waiting = before.pending.contains_key(attempt.email@);
            let code = before.pending[attempt.email@].code;
            let unheard = announced is Some && announced->Some_0 is Err;
            &&& unheard <==> verdict == Err::<(), Error>(Error::ServerShutdown)
            &&& !unheard && waiting && code == attempt.code <==> verdict is Ok
            &&& !unheard && waiting && code != attempt.code <==> verdict == Err::<(), Error>(
                Error::CodeDoesNotMatch(attempt.code),
            )
            &&& !unheard && !waiting <==> verdict == Err::<(), Error>(
                Error::EmailNotFound(attempt.email),
            )
            &&& unheard ==> before.signal is Some && crate::outside::came_of(
                before.signal->Some_0,
                announced->Some_0,
            )
            &&& announced is Some ==> before.signal is Some && forall|other: Seq<char>| #[trigger]
                before.pending.contains_key(other) ==> other == attempt.email@
            &&& !unheard && waiting ==> exists|after: tokio::task::AbortHandle|
                crate::outside::stop_request(before.pending[attempt.email@].handle, after)
        }),
{
    crate::otp::law_announcement_is_made_for_the_last_passcode(
        before,
        attempt.email@,
        announced,
    );
}

/// Authentication takes the passcode of the address out, whatever the verdict,
/// touches no other, and accepts just the code that was pending, unless a
/// shutdown that it completes goes unheard.
pub proof fn law_authentication_accepts_just_the_pending_code(
    attempt: UserAuth,
    otp_db: &mut crate::otp::OtpDb,
    verdict: Result<(), Error>,
)
    requires
        call_ensures(UserAuth::auth, (&attempt, otp_db), verdict),
    ensures
        final(otp_db)@.pending == old(otp_db)@.pending.remove(attempt.email@),
        final(otp_db)@.closing == old(otp_db)@.closing,
        final(otp_db)@.duration == old(otp_db)@.duration,
        verdict is Ok ==> old(otp_db)@.pending.contains_key(attempt.email@)
            && old(otp_db)@.pending[attempt.email@].code == attempt.code,
        verdict is Err ==> verdict == Err::<(), Error>(Error::ServerShutdown) || verdict == Err::<
            (),
            Error,
        >(Error::CodeDoesNotMatch(attempt.code)) || verdict == Err::<(), Error>(
            Error::EmailNotFound(attempt.email),
        ),
        verdict == Err::<(), Error>(Error::CodeDoesNotMatch(attempt.code))
            ==> old(otp_db)@.pending.contains_key(attempt.email@)
            && old(otp_db)@.pending[attempt.email@].code != attempt.code,
        verdict == Err::<(), Error>(Error::EmailNotFound(attempt.email))
            ==> !old(otp_db)@.pending.contains_key(attempt.email@),
        verdict == Err::<(), Error>(Error::ServerShutdown) ==> old(otp_db)@.signal is Some && (
        forall|other: Seq<char>| #[trigger]
            old(otp_db)@.pending.contains_key(other) ==> other == attempt.email@),
        old(otp_db)@.pending.contains_key(attempt.email@) && verdict != Err::<(), Error>(
            Error::ServerShutdown,
        ) ==> exists|after: tokio::task::AbortHandle|
            crate::outside::stop_request(old(otp_db)@.pending[attempt.email@].handle, after),
{
    let announced = choose|announced: Option<Result<(), ()>>| #[trigger]
        attempted(old(otp_db)@, attempt, announced, verdict);
    law_attempt_is_judged_by_the_pending_code(old(otp_db)@, attempt, announced, verdict);
}

/// A passcode that was taken out is accepted exactly for its own code, and is
/// stopped; where none was taken out the address is unknown, and what went wrong
/// before is handed on.
pub proof fn law_judgement_goes_by_the_code(
    attempt: UserAuth,
    removed: Result<Option<OneTimePasscode>, Error>,
    verdict: Result<(), Error>,
)
    requires
        call_ensures(UserAuth::judge, (&attempt, removed), verdict),
    ensures
        removed matches Err(error) ==> verdict == Err::<(), Error>(error),
        removed matches Ok(None) ==> verdict == Err::<(), Error>(
            Error::EmailNotFound(attempt.email),
        ),
        removed matches Ok(Some(passcode)) ==> {
            &&& verdict is Ok <==> passcode.code == attempt.code
            &&& passcode.code != attempt.code ==> verdict == Err::<(), Error>(
                Error::CodeDoesNotMatch(attempt.code),
            )
            &&& exists|after: tokio::task::AbortHandle|
                crate::outside::stop_request(passcode.handle, after)
        },
{
}

} // verus!
