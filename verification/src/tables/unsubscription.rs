//! What an unsubscription does to the database.

use crate::database::{stations, user_stations, users};
use crate::error::Error;
use crate::tables::{Moment, Tables};
use crate::workflow::{Progress, Question, Reply, Step, Unsubscription};
use vstd::prelude::*;

verus! {

/// Whether the unsubscription goes from one moment to the next by `reply`,
/// which the database may give.
pub open spec fn unsubscribe_step(
    now: Moment<Unsubscription>,
    reply: Reply,
    then: Moment<Unsubscription>,
) -> bool {
    &&& now.progress matches Progress::Ask(machine, question)
    &&& now.tables.answers(question, reply, then.tables)
    &&& then.progress == machine.next(reply)
}

/// Whether the unsubscription goes from one moment to the next by some reply that the database
/// may give.
pub open spec fn unsubscribe_moves(
    now: Moment<Unsubscription>,
    then: Moment<Unsubscription>,
) -> bool {
    exists|reply: Reply| #[trigger] unsubscribe_step(now, reply, then)
}

/// Whether these moments are an unsubscription, from its start.
pub open spec fn unsubscribe_run(email: Seq<char>, moments: Seq<Moment<Unsubscription>>) -> bool {
    &&& moments.len() > 0
    &&& moments[0].progress == Progress::Ask(
        Unsubscription::AwaitUser,
        Question::UserByEmail(email),
    )
    &&& forall|i: int, j: int|
        #![trigger moments[i], moments[j]]
        0 <= i && j == i + 1 && j < moments.len() ==> unsubscribe_moves(moments[i], moments[j])
}

/// What holds at each moment of an unsubscription that began with the contents
/// `before`.
spec fn leaving(before: Tables, email: Seq<char>, moment: Moment<Unsubscription>) -> bool {
    let now = moment.tables;
    match moment.progress {
        Progress::Ask(machine, question) => match machine {
            Unsubscription::AwaitUser => {
                &&& question == Question::UserByEmail(email)
                &&& now == before
            },
            Unsubscription::AwaitLinksDeletion { user } => {
                &&& question == Question::DeleteUserStationsOf(user.id)
                &&& now == before
                &&& before.users.contains(user@)
                &&& user.email@ == email
            },
            Unsubscription::AwaitUserDeletion => {
                &&& question matches Question::DeleteUser(user) && {
                    &&& now == before.without_links_of(user.id)
                    &&& before.users.contains(user@)
                    &&& user.email@ == email
                }
            },
        },
        Progress::Finished => before.unsubscribed(email, now),
    }
}

/// An unsubscription is on course at each of its moments.
proof fn lemma_unsubscribe_run(email: Seq<char>, moments: Seq<Moment<Unsubscription>>, k: int)
    requires
        unsubscribe_run(email, moments),
        0 <= k < moments.len(),
    ensures
        leaving(moments[0].tables, email, moments[k]),
    decreases k,
{
    if k > 0 {
        lemma_unsubscribe_run(email, moments, k - 1);
        assert(unsubscribe_moves(moments[k - 1], moments[k]));
        let reply = choose|reply: Reply| #[trigger]
            unsubscribe_step(moments[k - 1], reply, moments[k]);
        let before = moments[0].tables;
        if let Progress::Ask(machine, question) = moments[k - 1].progress {
            match machine {
                Unsubscription::AwaitUser => {
                    if let Some(user) = reply->MaybeUser_0 {
                        assert(before.users.contains(user@));
                    }
                },
                Unsubscription::AwaitLinksDeletion { user } => {},
                Unsubscription::AwaitUserDeletion => {
                    let user = question->DeleteUser_0;
                    assert(before.users.contains(user@));
                    assert(before.knows(email));
                },
            }
        }
    }
}

/// An unsubscription that has finished has done what it is for: a user with the
/// email address is gone along with all of their links, and nothing else in the
/// database has changed.
pub proof fn law_unsubscription_removes_the_user(
    email: Seq<char>,
    moments: Seq<Moment<Unsubscription>>,
)
    requires
        unsubscribe_run(email, moments),
        moments.last().progress is Finished,
    ensures
        moments[0].tables.unsubscribed(email, moments.last().tables),
{
    lemma_unsubscribe_run(email, moments, moments.len() - 1);
}

/// Nobody has the email address after an unsubscription, where it was not shared.
pub proof fn law_unsubscribed_address_is_unknown(
    email: Seq<char>,
    moments: Seq<Moment<Unsubscription>>,
)
    requires
        unsubscribe_run(email, moments),
        moments[0].tables.unshared(email),
        moments.last().progress is Finished,
    ensures
        !moments.last().tables.knows(email),
{
    lemma_unsubscribe_run(email, moments, moments.len() - 1);
}

/// When a user is deleted none of their links is left, so an unsubscription
/// leaves the keys and links of the database in order at every moment.
pub proof fn law_unsubscription_keeps_the_database_valid(
    email: Seq<char>,
    moments: Seq<Moment<Unsubscription>>,
    k: int,
)
    requires
        unsubscribe_run(email, moments),
        moments[0].tables.valid(),
        0 <= k < moments.len(),
    ensures
        moments[k].tables.valid(),
        moments[k].progress matches Progress::Ask(_, Question::DeleteUser(user)) ==> (forall|
            link: user_stations::Model,
        | #[trigger]
            moments[k].tables.links.contains(link) ==> link.user_id != user.id),
{
    lemma_unsubscribe_run(email, moments, k);
    let before = moments[0].tables;
    let now = moments[k].tables;
    assert forall|link: user_stations::Model| #[trigger] now.links.contains(
        link,
    ) implies now.has_user(link.user_id) && now.has_station(link.station_id) by {
        assert(before.links.contains(link));
        let owner = choose|owner: users::Row| #[trigger]
            before.users.contains(owner) && owner.id == link.user_id;
        assert(now.users.contains(owner));
        let row = choose|row: stations::Row| #[trigger]
            before.stations.contains(row) && row.id == link.station_id;
        assert(now.stations.contains(row));
    }
}

/// An unsubscription that stops midway, at whatever moment, has left alone what
/// is not its own: the stations, other users, and the links of other users.
pub proof fn law_interrupted_unsubscription_leaves_the_rest_alone(
    email: Seq<char>,
    moments: Seq<Moment<Unsubscription>>,
    k: int,
)
    requires
        unsubscribe_run(email, moments),
        moments[0].tables.valid(),
        0 <= k < moments.len(),
    ensures
        moments[0].tables.kept_for_others(email, moments[k].tables),
{
    lemma_unsubscribe_run(email, moments, k);
}

/// An unsubscription that asks something waits for just the kind of reply that
/// answers it.
pub proof fn law_unsubscription_waits_for_the_answer(
    machine: Unsubscription,
    reply: Reply,
    answer: Reply,
)
    requires
        machine.expects(reply),
    ensures
        machine.next(reply) matches Progress::Ask(then, question) ==> question.answered_by(answer)
            == then.expects(answer),
{
}

/// Where an unsubscription is at each of its moments.
proof fn lemma_unsubscribe_stage(email: Seq<char>, moments: Seq<Moment<Unsubscription>>, k: int)
    requires
        unsubscribe_run(email, moments),
        0 <= k < moments.len(),
    ensures
        k == 0 ==> moments[k].progress is Ask && moments[k].progress->Ask_0 is AwaitUser,
        k == 1 && moments[k].progress is Ask ==> moments[k].progress->Ask_0 is AwaitLinksDeletion,
        k == 2 ==> moments[k].progress is Ask && moments[k].progress->Ask_0 is AwaitUserDeletion,
        k == 3 ==> moments[k].progress is Finished,
        k <= 3,
    decreases k,
{
    if k > 0 {
        lemma_unsubscribe_stage(email, moments, k - 1);
        assert(unsubscribe_moves(moments[k - 1], moments[k]));
        let reply = choose|reply: Reply| #[trigger]
            unsubscribe_step(moments[k - 1], reply, moments[k]);
        assert(unsubscribe_step(moments[k - 1], reply, moments[k]));
    }
}

/// An unsubscription comes to an end: it asks the database three times at most,
/// and has finished after the third reply.
pub proof fn law_unsubscription_asks_three_times_at_most(
    email: Seq<char>,
    moments: Seq<Moment<Unsubscription>>,
)
    requires
        unsubscribe_run(email, moments),
    ensures
        moments.len() <= 4,
        moments.len() == 4 ==> moments[3].progress is Finished,
{
    lemma_unsubscribe_stage(email, moments, moments.len() - 1);
}

/// Whoever is found is removed, links first: once the user is found, the
/// database is asked to delete the links of that user, then that user, and then
/// nothing more. Where nobody is found nothing more is asked.
pub proof fn law_found_user_is_deleted_links_first(user: users::Model)
    ensures
        ({
            let found = Unsubscription::AwaitUser.next(Reply::MaybeUser(Some(user)));
            let emptied = found->Ask_0.next(Reply::Done);
            let deleted = emptied->Ask_0.next(Reply::Done);
            &&& found is Ask
            &&& found->Ask_1 == Question::DeleteUserStationsOf(user.id)
            &&& found->Ask_0.expects(Reply::Done)
            &&& emptied is Ask
            &&& emptied->Ask_1 == Question::DeleteUser(user)
            &&& emptied->Ask_0.expects(Reply::Done)
            &&& deleted is Finished
        }),
        Unsubscription::AwaitUser.next(Reply::MaybeUser(None)) is Finished,
        Unsubscription::AwaitUser.expects(Reply::MaybeUser(Some(user))),
        Unsubscription::AwaitUser.expects(Reply::MaybeUser(None)),
{
}

/// Whatever the database may reply at any moment, the unsubscription expects it.
pub proof fn law_unsubscription_expects_what_the_database_replies(
    email: Seq<char>,
    moments: Seq<Moment<Unsubscription>>,
    k: int,
    reply: Reply,
    after: Tables,
)
    requires
        unsubscribe_run(email, moments),
        0 <= k < moments.len(),
        moments[k].progress is Ask,
        moments[k].tables.answers(moments[k].progress->Ask_1, reply, after),
    ensures
        moments[k].progress->Ask_0.expects(reply),
{
    lemma_unsubscribe_run(email, moments, k);
}

/// What an unsubscription that has finished leaves: everything as it was where
/// nobody had the email address; otherwise everything but one user who had it,
/// and every link of that user.
pub proof fn law_unsubscription_leaves_everything_else(
    email: Seq<char>,
    moments: Seq<Moment<Unsubscription>>,
)
    requires
        unsubscribe_run(email, moments),
        moments.last().progress is Finished,
    ensures
        (forall|user: users::Row| #[trigger]
            moments[0].tables.users.contains(user) ==> user.email != email)
            ==> moments.last().tables == moments[0].tables,
        (exists|user: users::Row| #[trigger]
            moments[0].tables.users.contains(user) && user.email == email) ==> exists|
            gone: users::Row,
        |
            {
                &&& #[trigger] moments[0].tables.users.contains(gone)
                &&& gone.email == email
                &&& moments.last().tables.stations == moments[0].tables.stations
                &&& forall|user: users::Row| #[trigger]
                    moments.last().tables.users.contains(user)
                        <==> moments[0].tables.users.contains(user) && user.id != gone.id
                &&& forall|link: user_stations::Model| #[trigger]
                    moments.last().tables.links.contains(link)
                        <==> moments[0].tables.links.contains(link) && link.user_id != gone.id
            },
{
    lemma_unsubscribe_run(email, moments, moments.len() - 1);
    let before = moments[0].tables;
    let after = moments.last().tables;
    if before.knows(email) {
        let gone = choose|user: users::Row|
            {
                &&& #[trigger] before.users.contains(user)
                &&& user.email == email
                &&& after == before.without_links_of(user.id).without_user(user.id)
            };
        assert(before.users.contains(gone));
        assert forall|user: users::Row| #[trigger] after.users.contains(user)
            <==> before.users.contains(user) && user.id != gone.id by {}
        assert forall|link: user_stations::Model| #[trigger] after.links.contains(link)
            <==> before.links.contains(link) && link.user_id != gone.id by {}
    }
}

/// Whether a call of `advance` goes from one step to the next by a reply that
/// the database may give.
pub open spec fn unsubscribe_driven(
    now: Step<Unsubscription>,
    tables: Tables,
    reply: Reply,
    then: Step<Unsubscription>,
    after: Tables,
) -> bool {
    &&& now is Ask
    &&& tables.answers(now->Ask_1@, reply, after)
    &&& call_ensures(Unsubscription::advance, (now->Ask_0, reply), then)
}

/// Whether a call of `advance` goes from one step to the next by some reply that
/// the database may give.
pub open spec fn unsubscribe_drives(
    now: Step<Unsubscription>,
    tables: Tables,
    then: Step<Unsubscription>,
    after: Tables,
) -> bool {
    exists|reply: Reply| #[trigger] unsubscribe_driven(now, tables, reply, then, after)
}

/// Driving an unsubscription is an unsubscription.
proof fn lemma_driven_unsubscription(
    email: String,
    steps: Seq<Step<Unsubscription>>,
    tables: Seq<Tables>,
    moments: Seq<Moment<Unsubscription>>,
)
    requires
        steps.len() > 0,
        steps.len() == tables.len(),
        call_ensures(Unsubscription::start, (email,), steps[0]),
        forall|i: int, j: int|
            #![trigger steps[i], steps[j]]
            0 <= i && j == i + 1 && j < steps.len() ==> unsubscribe_drives(
                steps[i],
                tables[i],
                steps[j],
                tables[j],
            ),
        moments.len() == steps.len(),
        forall|i: int|
            0 <= i < steps.len() ==> (#[trigger] moments[i]).progress == steps[i]@
                && moments[i].tables == tables[i],
    ensures
        unsubscribe_run(email@, moments),
{
    assert(steps[0]@ == moments[0].progress);
    assert forall|i: int, j: int|
        #![trigger moments[i], moments[j]]
        0 <= i && j == i + 1 && j < moments.len() implies unsubscribe_moves(
        moments[i],
        moments[j],
    ) by {
        assert(unsubscribe_drives(steps[i], tables[i], steps[j], tables[j]));
        let reply = choose|reply: Reply| #[trigger]
            unsubscribe_driven(steps[i], tables[i], reply, steps[j], tables[j]);
        assert(unsubscribe_step(moments[i], reply, moments[j]));
    }
}

/// Driving an unsubscription from the call that starts it takes three replies at
/// most. Once it has finished, one user who had the email address is gone with
/// every link, if there was one, and everything else is as it was.
pub proof fn law_driven_unsubscription_removes_the_user(
    email: String,
    steps: Seq<Step<Unsubscription>>,
    tables: Seq<Tables>,
)
    requires
        steps.len() > 0,
        steps.len() == tables.len(),
        call_ensures(Unsubscription::start, (email,), steps[0]),
        forall|i: int, j: int|
            #![trigger steps[i], steps[j]]
            0 <= i && j == i + 1 && j < steps.len() ==> unsubscribe_drives(
                steps[i],
                tables[i],
                steps[j],
                tables[j],
            ),
    ensures
        steps.len() <= 4,
        steps.len() == 4 ==> steps[3] is Finished,
        steps.last() is Finished && (forall|user: users::Row| #[trigger]
            tables[0].users.contains(user) ==> user.email != email@) ==> tables.last()
            == tables[0],
        steps.last() is Finished && (exists|user: users::Row| #[trigger]
            tables[0].users.contains(user) && user.email == email@) ==> exists|gone: users::Row|
            {
                &&& #[trigger] tables[0].users.contains(gone)
                &&& gone.email == email@
                &&& tables.last().stations == tables[0].stations
                &&& forall|user: users::Row| #[trigger]
                    tables.last().users.contains(user) <==> tables[0].users.contains(user)
                        && user.id != gone.id
                &&& forall|link: user_stations::Model| #[trigger]
                    tables.last().links.contains(link) <==> tables[0].links.contains(link)
                        && link.user_id != gone.id
            },
{
    let moments = Seq::new(
        steps.len(),
        |i: int| Moment { progress: steps[i]@, tables: tables[i] },
    );
    lemma_driven_unsubscription(email, steps, tables, moments);
    law_unsubscription_asks_three_times_at_most(email@, moments);
    if steps.last() is Finished {
        assert(moments.last().progress is Finished);
        law_unsubscription_leaves_everything_else(email@, moments);
        assert(moments[0].tables == tables[0] && moments.last().tables == tables.last());
    }
}

/// An unsubscription that is driven by replies of the database is ready for each
/// of them, and hands on a refusal.
pub proof fn law_driven_unsubscription_is_ready_for_each_reply(
    machine: Unsubscription,
    reply: Reply,
    expected: bool,
    fault: sea_orm::DbErr,
    stopped: Result<Step<Unsubscription>, Error>,
    resumed: Result<Step<Unsubscription>, Error>,
    advanced: Step<Unsubscription>,
)
    requires
        call_ensures(Unsubscription::is_expecting, (&machine, &reply), expected),
        call_ensures(
            Unsubscription::resume,
            (machine, Err::<Reply, sea_orm::DbErr>(fault)),
            stopped,
        ),
        call_ensures(
            Unsubscription::resume,
            (machine, Ok::<Reply, sea_orm::DbErr>(reply)),
            resumed,
        ),
        call_ensures(Unsubscription::advance, (machine, reply), advanced),
    ensures
        machine is AwaitUser ==> (expected <==> reply is MaybeUser),
        machine is AwaitLinksDeletion || machine is AwaitUserDeletion ==> (expected <==> reply
            is Done),
        stopped == Err::<Step<Unsubscription>, Error>(Error::DbError(fault)),
        resumed is Ok && resumed->Ok_0@ == advanced@,
{
}

} // verus!
