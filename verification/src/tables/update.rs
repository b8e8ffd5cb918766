//! What the update of a subscription does to the database.

use crate::database::{stations, user_stations, users};
use crate::error::Error;
use crate::selection;
use crate::tables::{Moment, Tables};
use crate::workflow::{Progress, Question, Reply, Step, Update, UserStationsUpdate};
use vstd::prelude::*;

verus! {

/// Whether the update goes from one moment to the next by `reply`, which the
/// database may give.
pub open spec fn update_step(now: Moment<Update>, reply: Reply, then: Moment<Update>) -> bool {
    &&& now.progress matches Progress::Ask(machine, question)
    &&& now.tables.answers(question, reply, then.tables)
    &&& then.progress == machine.next(reply)
}

/// Whether the update goes from one moment to the next by some reply that the database
/// may give.
pub open spec fn update_moves(now: Moment<Update>, then: Moment<Update>) -> bool {
    exists|reply: Reply| #[trigger] update_step(now, reply, then)
}

/// Whether these moments are an update of a subscription, from its start.
pub open spec fn update_run(
    names: Seq<String>,
    email: Seq<char>,
    moments: Seq<Moment<Update>>,
) -> bool {
    &&& moments.len() > 0
    &&& moments[0].progress == Progress::Ask(
        Update::AwaitStations { names, email },
        Question::AllStations,
    )
    &&& forall|i: int, j: int|
        #![trigger moments[i], moments[j]]
        0 <= i && j == i + 1 && j < moments.len() ==> update_moves(moments[i], moments[j])
}

/// Whether a list has exactly the stations that were named, with distinct keys.
spec fn picked(before: Tables, names: Seq<String>, stations: Seq<stations::Model>) -> bool {
    &&& forall|row: stations::Row| #[trigger]
        stations::rows(stations).contains(row) <==> before.stations.contains(row)
            && selection::named(names, row)
    &&& distinct_ids(stations)
}

/// Whether no two stations of a list have the same key.
spec fn distinct_ids(stations: Seq<stations::Model>) -> bool {
    forall|i: int, j: int|
        0 <= i < j < stations.len() ==> (#[trigger] stations[i]).id != (#[trigger] stations[j]).id
}

/// Whether there is a user with this key and this email address.
spec fn owns(before: Tables, user_id: i32, email: Seq<char>) -> bool {
    before.users.contains(users::Row { id: user_id, email })
}

/// Whether the user's links are down to the ones that are to stay and those
/// still to be deleted.
spec fn down_to(
    before: Tables,
    user_id: i32,
    stations: Seq<stations::Model>,
    doomed: Seq<user_stations::Model>,
    now: Tables,
) -> bool {
    &&& now.stations == before.stations
    &&& now.users == before.users
    &&& doomed.no_duplicates()
    &&& forall|link: user_stations::Model| #[trigger]
        doomed.contains(link) ==> before.links.contains(link) && link.user_id == user_id
            && !selection::leads_into(stations, link)
    &&& forall|link: user_stations::Model| #[trigger]
        now.links.contains(link) <==> before.links.contains(link) && (link.user_id != user_id
            || selection::leads_into(stations, link) || doomed.contains(link))
}

/// Whether adding `links`, which are the user's and were not there before, is
/// all that is left to do.
spec fn almost_subscribed(
    before: Tables,
    names: Seq<String>,
    email: Seq<char>,
    user: users::Row,
    links: Seq<user_stations::Model>,
    now: Tables,
) -> bool {
    &&& now.takes(links)
    &&& forall|link: user_stations::Model| #[trigger]
        links.contains(link) ==> link.user_id == user.id && !before.links.contains(link)
    &&& before.subscribed(
        names,
        email,
        user,
        Tables { links: now.links.union(links.to_set()), ..now },
    )
}

/// What holds at each moment of an update that began with the contents
/// `before`.
spec fn on_course(
    before: Tables,
    names: Seq<String>,
    email: Seq<char>,
    moment: Moment<Update>,
) -> bool {
    let now = moment.tables;
    match moment.progress {
        Progress::Ask(machine, question) => match machine {
            Update::AwaitStations { names: n, email: e } => {
                &&& question is AllStations
                &&& now == before
                &&& n == names
                &&& e == email
            },
            Update::AwaitUser { stations, email: e } => {
                &&& question == Question::UserByEmail(email)
                &&& now == before
                &&& e == email
                &&& picked(before, names, stations)
            },
            Update::AwaitLinks { user_id, stations } => {
                &&& question == Question::UserStationsOf(user_id)
                &&& now == before
                &&& owns(before, user_id, email)
                &&& picked(before, names, stations)
            },
            Update::AwaitDeletion { user_id, stations, remaining } => {
                &&& question matches Question::DeleteUserStation(link) && down_to(
                    before,
                    user_id,
                    stations,
                    seq![link] + remaining,
                    now,
                )
                &&& owns(before, user_id, email)
                &&& picked(before, names, stations)
            },
            Update::AwaitSelected { user_id, stations } => {
                &&& question == Question::StationsOf(user_id)
                &&& down_to(before, user_id, stations, Seq::empty(), now)
                &&& owns(before, user_id, email)
                &&& picked(before, names, stations)
            },
            Update::AwaitNewUser { stations } => {
                &&& question == Question::InsertUser(email)
                &&& now == before
                &&& !before.knows(email)
                &&& picked(before, names, stations)
            },
            Update::AwaitInsertion => {
                &&& question matches Question::InsertUserStations(links) && exists|user: users::Row|
                    #[trigger]
                    almost_subscribed(before, names, email, user, links, now)
            },
        },
        Progress::Finished => exists|user: users::Row| #[trigger]
            before.subscribed(names, email, user, now),
    }
}

/// A filtered list has what the whole list has and the filter lets through.
pub(crate) proof fn lemma_filter<A>(s: Seq<A>, keep: spec_fn(A) -> bool)
    ensures
        forall|x: A| #[trigger] s.filter(keep).contains(x) <==> s.contains(x) && keep(x),
{
    assert forall|x: A| #[trigger] s.filter(keep).contains(x) <==> s.contains(x) && keep(x) by {
        if s.filter(keep).contains(x) {
            s.lemma_filter_contains_rev(keep, x);
            let i = choose|i: int| 0 <= i < s.filter(keep).len() && s.filter(keep)[i] == x;
            s.lemma_filter_pred(keep, i);
        }
        if s.contains(x) && keep(x) {
            let i = choose|i: int| 0 <= i < s.len() && s[i] == x;
            s.lemma_filter_contains(keep, i);
        }
    }
}

/// Filtering leaves distinct keys distinct.
proof fn lemma_filter_ids(s: Seq<stations::Model>, keep: spec_fn(stations::Model) -> bool)
    requires
        distinct_ids(s),
    ensures
        distinct_ids(s.filter(keep)),
    decreases s.len(),
{
    reveal(Seq::filter);
    if s.len() > 0 {
        let rest = s.drop_last();
        lemma_filter_ids(rest, keep);
        lemma_filter(rest, keep);
        if keep(s.last()) {
            assert forall|i: int, j: int| 0 <= i < j < s.filter(keep).len() implies (
            #[trigger] s.filter(keep)[i]).id != (#[trigger] s.filter(keep)[j]).id by {
                if j == rest.filter(keep).len() {
                    assert(rest.filter(keep).contains(rest.filter(keep)[i]));
                    assert(rest.contains(rest.filter(keep)[i]));
                    let k = choose|k: int| 0 <= k < rest.len() && rest[k] == rest.filter(keep)[i];
                    assert(s[k].id != s[s.len() - 1].id);
                }
            }
        }
    }
}

/// Filtering leaves a list without duplicates without duplicates.
proof fn lemma_filter_links(
    s: Seq<user_stations::Model>,
    keep: spec_fn(user_stations::Model) -> bool,
)
    requires
        s.no_duplicates(),
    ensures
        s.filter(keep).no_duplicates(),
    decreases s.len(),
{
    reveal(Seq::filter);
    if s.len() > 0 {
        let rest = s.drop_last();
        lemma_filter_links(rest, keep);
        lemma_filter(rest, keep);
        if keep(s.last()) && rest.filter(keep).contains(s.last()) {
            assert(rest.contains(s.last()));
            let k = choose|k: int| 0 <= k < rest.len() && rest[k] == s.last();
            assert(s[k] == s[s.len() - 1]);
        }
    }
}

/// A station of a list has its row among the rows of the list.
proof fn lemma_rows(models: Seq<stations::Model>)
    ensures
        forall|i: int|
            0 <= i < models.len() ==> stations::rows(models).contains(#[trigger] models[i]@),
        forall|row: stations::Row| #[trigger]
            stations::rows(models).contains(row) ==> exists|i: int|
                0 <= i < models.len() && (#[trigger] models[i])@ == row,
{
    assert forall|i: int| 0 <= i < models.len() implies stations::rows(models).contains(
        #[trigger] models[i]@,
    ) by {
        assert(stations::rows(models)[i] == models[i]@);
    }
    assert forall|row: stations::Row| #[trigger] stations::rows(models).contains(
        row,
    ) implies exists|i: int| 0 <= i < models.len() && (#[trigger] models[i])@ == row by {
        let i = choose|i: int|
            0 <= i < stations::rows(models).len() && stations::rows(models)[i] == row;
        assert(models[i]@ == row);
    }
}

/// The stations that were named are picked from all stations.
proof fn lemma_picked(before: Tables, names: Seq<String>, all: Seq<stations::Model>)
    requires
        before.valid(),
        before.lists(all, |row: stations::Row| true),
    ensures
        picked(
            before,
            names,
            all.filter(|station: stations::Model| selection::named(names, station@)),
        ),
{
    let keep = |station: stations::Model| selection::named(names, station@);
    let some = all.filter(keep);
    lemma_rows(all);
    lemma_rows(some);
    lemma_filter(all, keep);
    assert forall|i: int, j: int| 0 <= i < j < all.len() implies (#[trigger] all[i]).id != (
    #[trigger] all[j]).id by {
        assert(stations::rows(all)[i] != stations::rows(all)[j]);
        assert(before.stations.contains(all[i]@));
        assert(before.stations.contains(all[j]@));
    }
    lemma_filter_ids(all, keep);
    assert forall|row: stations::Row| #[trigger] stations::rows(some).contains(row)
        <==> before.stations.contains(row) && selection::named(names, row) by {
        if stations::rows(some).contains(row) {
            let i = choose|i: int| 0 <= i < some.len() && (#[trigger] some[i])@ == row;
            assert(some.contains(some[i]));
            let k = choose|k: int| 0 <= k < all.len() && all[k] == some[i];
            assert(stations::rows(all).contains(all[k]@));
        }
        if before.stations.contains(row) && selection::named(names, row) {
            assert(stations::rows(all).contains(row));
            let k = choose|k: int| 0 <= k < all.len() && (#[trigger] all[k])@ == row;
            assert(some.contains(all[k]));
            let i = choose|i: int| 0 <= i < some.len() && some[i] == all[k];
            assert(stations::rows(some).contains(some[i]@));
        }
    }
}

/// A link leads to a picked station exactly if it leads to one that was named.
proof fn lemma_wanted(
    before: Tables,
    names: Seq<String>,
    stations: Seq<stations::Model>,
    link: user_stations::Model,
)
    requires
        picked(before, names, stations),
    ensures
        selection::leads_into(stations, link) <==> before.wanted(names, link),
{
    lemma_rows(stations);
    if selection::leads_into(stations, link) {
        let i = choose|i: int|
            0 <= i < stations.len() && (#[trigger] stations[i]).id == link.station_id;
        assert(stations::rows(stations).contains(stations[i]@));
    }
    if before.wanted(names, link) {
        let row = choose|row: stations::Row|
            {
                &&& #[trigger] before.stations.contains(row)
                &&& selection::named(names, row)
                &&& row.id == link.station_id
            };
        assert(stations::rows(stations).contains(row));
    }
}

/// While links are being deleted, the update is on course.
proof fn lemma_deleting(
    before: Tables,
    names: Seq<String>,
    email: Seq<char>,
    user_id: i32,
    stations: Seq<stations::Model>,
    doomed: Seq<user_stations::Model>,
    now: Tables,
)
    requires
        down_to(before, user_id, stations, doomed, now),
        owns(before, user_id, email),
        picked(before, names, stations),
    ensures
        on_course(
            before,
            names,
            email,
            Moment { progress: Update::deleting(user_id, stations, doomed), tables: now },
        ),
{
    if doomed.len() == 0 {
        assert(doomed =~= Seq::empty());
    } else {
        assert(seq![doomed.first()] + doomed.drop_first() =~= doomed);
    }
}

/// The links to a list of stations with distinct keys are distinct, and are
/// those that lead into the list.
proof fn lemma_links_to(user_id: i32, stations: Seq<stations::Model>)
    requires
        distinct_ids(stations),
    ensures
        selection::links_to(user_id, stations).no_duplicates(),
        forall|link: user_stations::Model| #[trigger]
            selection::links_to(user_id, stations).contains(link) <==> link.user_id == user_id
                && selection::leads_into(stations, link),
{
    let links = selection::links_to(user_id, stations);
    assert forall|i: int, j: int|
        0 <= i < links.len() && 0 <= j < links.len() && i != j implies links[i] != links[j] by {
        if i < j {
            assert(stations[i].id != stations[j].id);
        } else {
            assert(stations[j].id != stations[i].id);
        }
    }
    assert forall|link: user_stations::Model| #[trigger] links.contains(link) <==> link.user_id
        == user_id && selection::leads_into(stations, link) by {
        if links.contains(link) {
            let i = choose|i: int| 0 <= i < links.len() && links[i] == link;
            assert(stations[i].id == link.station_id);
        }
        if link.user_id == user_id && selection::leads_into(stations, link) {
            let i = choose|i: int|
                0 <= i < stations.len() && (#[trigger] stations[i]).id == link.station_id;
            assert(links[i] == link);
        }
    }
}

/// Once the unwanted links of a user are gone, adding links to the stations
/// that the user is not linked to is all that is left.
proof fn lemma_selected(
    before: Tables,
    names: Seq<String>,
    email: Seq<char>,
    user_id: i32,
    stations: Seq<stations::Model>,
    selected: Seq<stations::Model>,
    now: Tables,
)
    requires
        before.valid(),
        down_to(before, user_id, stations, Seq::empty(), now),
        owns(before, user_id, email),
        picked(before, names, stations),
        now.lists(
            selected,
            |row: stations::Row|
                now.links.contains(user_stations::Model { user_id, station_id: row.id }),
        ),
    ensures
        almost_subscribed(
            before,
            names,
            email,
            users::Row { id: user_id, email },
            selection::links_to(
                user_id,
                stations.filter(
                    |station: stations::Model| !selection::listed(selected, station@),
                ),
            ),
            now,
        ),
{
    let keep = |station: stations::Model| !selection::listed(selected, station@);
    let fresh = stations.filter(keep);
    let links = selection::links_to(user_id, fresh);
    let user = users::Row { id: user_id, email };
    lemma_filter(stations, keep);
    lemma_filter_ids(stations, keep);
    lemma_links_to(user_id, fresh);
    lemma_rows(stations);
    lemma_rows(selected);
    assert(before.users.contains(user));
    assert forall|link: user_stations::Model| #[trigger] links.contains(link) implies {
        &&& !now.links.contains(link)
        &&& !before.links.contains(link)
        &&& now.has_user(link.user_id)
        &&& now.has_station(link.station_id)
    } by {
        assert(selection::leads_into(fresh, link));
        let i = choose|i: int|
            0 <= i < fresh.len() && (#[trigger] fresh[i]).id == link.station_id;
        assert(fresh.contains(fresh[i]));
        assert(keep(fresh[i]));
        let k = choose|k: int| 0 <= k < stations.len() && stations[k] == fresh[i];
        assert(stations::rows(stations).contains(stations[k]@));
        assert(now.stations.contains(fresh[i]@));
        assert(stations[k].id == link.station_id);
        assert(selection::leads_into(stations, link));
        if now.links.contains(link) {
            assert(link == (user_stations::Model { user_id, station_id: fresh[i]@.id }));
            assert(stations::rows(selected).contains(fresh[i]@));
            assert(selection::listed(selected, fresh[i]@));
        }
    }
    let after = Tables { links: now.links.union(links.to_set()), ..now };
    assert forall|link: user_stations::Model| #[trigger]
        after.links.contains(link) <==> if link.user_id == user_id {
        before.wanted(names, link)
    } else {
        before.links.contains(link)
    } by {
        assert(links.to_set().contains(link) <==> links.contains(link));
        if link.user_id == user_id {
            lemma_wanted(before, names, stations, link);
            if selection::leads_into(fresh, link) {
                let i = choose|i: int|
                    0 <= i < fresh.len() && (#[trigger] fresh[i]).id == link.station_id;
                assert(fresh.contains(fresh[i]));
                let k = choose|k: int| 0 <= k < stations.len() && stations[k] == fresh[i];
                assert(stations[k].id == link.station_id);
            }
            if selection::leads_into(stations, link) && !now.links.contains(link) {
                let k = choose|k: int|
                    0 <= k < stations.len() && (#[trigger] stations[k]).id == link.station_id;
                if selection::listed(selected, stations[k]@) {
                    let m = choose|m: int|
                        0 <= m < selected.len() && (#[trigger] selected[m])@ == stations[k]@;
                    assert(stations::rows(selected).contains(selected[m]@));
                    assert(now.links.contains(
                        user_stations::Model { user_id, station_id: stations[k]@.id },
                    ));
                }
                assert(fresh.contains(stations[k]));
                let i = choose|i: int| 0 <= i < fresh.len() && fresh[i] == stations[k];
                assert(fresh[i].id == link.station_id);
            }
        }
    }
    assert(before.knows(email));
}

/// Once a new user is added, linking them to all picked stations is all that is
/// left.
proof fn lemma_new_user(
    before: Tables,
    names: Seq<String>,
    email: Seq<char>,
    stations: Seq<stations::Model>,
    user: users::Row,
    now: Tables,
)
    requires
        before.valid(),
        !before.knows(email),
        picked(before, names, stations),
        user.email == email,
        !before.has_user(user.id),
        now == (Tables { users: before.users.insert(user), ..before }),
    ensures
        almost_subscribed(
            before,
            names,
            email,
            user,
            selection::links_to(user.id, stations),
            now,
        ),
{
    let links = selection::links_to(user.id, stations);
    lemma_links_to(user.id, stations);
    lemma_rows(stations);
    assert(now.users.contains(user));
    assert forall|link: user_stations::Model| #[trigger] links.contains(link) implies {
        &&& !now.links.contains(link)
        &&& now.has_user(link.user_id)
        &&& now.has_station(link.station_id)
    } by {
        let i = choose|i: int|
            0 <= i < stations.len() && (#[trigger] stations[i]).id == link.station_id;
        assert(stations::rows(stations).contains(stations[i]@));
        assert(now.stations.contains(stations[i]@));
    }
    let after = Tables { links: now.links.union(links.to_set()), ..now };
    assert forall|link: user_stations::Model| #[trigger]
        after.links.contains(link) <==> if link.user_id == user.id {
        before.wanted(names, link)
    } else {
        before.links.contains(link)
    } by {
        assert(links.to_set().contains(link) <==> links.contains(link));
        lemma_wanted(before, names, stations, link);
    }
}

/// A reply that the database may give keeps the update on course.
proof fn lemma_update_step(
    before: Tables,
    names: Seq<String>,
    email: Seq<char>,
    now: Moment<Update>,
    reply: Reply,
    then: Moment<Update>,
)
    requires
        before.valid(),
        on_course(before, names, email, now),
        update_step(now, reply, then),
    ensures
        on_course(before, names, email, then),
{
    if let Progress::Ask(machine, question) = now.progress {
        match machine {
            Update::AwaitStations { .. } => {
                lemma_picked(before, names, reply->Stations_0@);
            },
            Update::AwaitUser { stations, .. } => {
                if let Some(user) = reply->MaybeUser_0 {
                    assert(user@ == (users::Row { id: user.id, email }));
                }
            },
            Update::AwaitLinks { user_id, stations } => {
                let links = reply->UserStations_0@;
                let keep = |link: user_stations::Model| !selection::leads_into(stations, link);
                lemma_filter(links, keep);
                lemma_filter_links(links, keep);
                lemma_deleting(
                    before,
                    names,
                    email,
                    user_id,
                    stations,
                    links.filter(keep),
                    then.tables,
                );
            },
            Update::AwaitDeletion { user_id, stations, remaining } => {
                let link = question->DeleteUserStation_0;
                let doomed = seq![link] + remaining;
                assert forall|other: user_stations::Model|
                    doomed.contains(other) <==> other == link || remaining.contains(other) by {
                    assert(doomed[0] == link);
                    if remaining.contains(other) {
                        let i = choose|i: int| 0 <= i < remaining.len() && remaining[i] == other;
                        assert(doomed[i + 1] == other);
                    }
                }
                assert(!remaining.contains(link)) by {
                    if remaining.contains(link) {
                        let i = choose|i: int| 0 <= i < remaining.len() && remaining[i] == link;
                        assert(doomed[i + 1] == doomed[0]);
                    }
                }
                assert forall|i: int, j: int|
                    0 <= i < remaining.len() && 0 <= j < remaining.len() && i
                        != j implies remaining[i] != remaining[j] by {
                    assert(doomed[i + 1] != doomed[j + 1]);
                }
                lemma_deleting(before, names, email, user_id, stations, remaining, then.tables);
            },
            Update::AwaitSelected { user_id, stations } => {
                let selected = reply->Stations_0@;
                lemma_selected(before, names, email, user_id, stations, selected, now.tables);
                let links = then.progress->Ask_1->InsertUserStations_0;
                let user = users::Row { id: user_id, email };
                assert(almost_subscribed(before, names, email, user, links, then.tables));
            },
            Update::AwaitNewUser { stations } => {
                let user = reply->User_0@;
                lemma_new_user(before, names, email, stations, user, then.tables);
                let links = then.progress->Ask_1->InsertUserStations_0;
                assert(almost_subscribed(before, names, email, user, links, then.tables));
            },
            Update::AwaitInsertion => {
                let links = question->InsertUserStations_0;
                let user = choose|user: users::Row| #[trigger]
                    almost_subscribed(before, names, email, user, links, now.tables);
                assert(before.subscribed(names, email, user, then.tables));
            },
        }
    }
}

/// An update is on course at each of its moments.
proof fn lemma_update_run(
    names: Seq<String>,
    email: Seq<char>,
    moments: Seq<Moment<Update>>,
    k: int,
)
    requires
        update_run(names, email, moments),
        moments[0].tables.valid(),
        0 <= k < moments.len(),
    ensures
        on_course(moments[0].tables, names, email, moments[k]),
    decreases k,
{
    if k > 0 {
        lemma_update_run(names, email, moments, k - 1);
        assert(update_moves(moments[k - 1], moments[k]));
        let reply = choose|reply: Reply| #[trigger]
            update_step(moments[k - 1], reply, moments[k]);
        lemma_update_step(moments[0].tables, names, email, moments[k - 1], reply, moments[k]);
    }
}

/// An update that has finished has done what it is for: the user with the email
/// address, added if there was none, is linked to exactly the stations that
/// were named, and nothing else in the database has changed.
pub proof fn law_update_subscribes_to_exactly_the_named_stations(
    names: Seq<String>,
    email: Seq<char>,
    moments: Seq<Moment<Update>>,
)
    requires
        update_run(names, email, moments),
        moments[0].tables.valid(),
        moments.last().progress is Finished,
    ensures
        exists|user: users::Row| #[trigger]
            moments[0].tables.subscribed(names, email, user, moments.last().tables),
{
    lemma_update_run(names, email, moments, moments.len() - 1);
}

/// The links that an update has the database add never conflict with what the
/// database holds: they are new, distinct, and lead from a user to stations.
pub proof fn law_update_adds_links_without_conflict(
    names: Seq<String>,
    email: Seq<char>,
    moments: Seq<Moment<Update>>,
    k: int,
    links: Seq<user_stations::Model>,
)
    requires
        update_run(names, email, moments),
        moments[0].tables.valid(),
        0 <= k < moments.len(),
        moments[k].progress == Progress::Ask(
            Update::AwaitInsertion,
            Question::InsertUserStations(links),
        ),
    ensures
        moments[k].tables.takes(links),
{
    lemma_update_run(names, email, moments, k);
}

/// Where an update has got to, and how much of that is left.
pub open spec fn update_rank(machine: Update) -> (nat, nat) {
    match machine {
        Update::AwaitStations { .. } => (6, 0),
        Update::AwaitUser { .. } => (5, 0),
        Update::AwaitLinks { .. } => (4, 0),
        Update::AwaitDeletion { remaining, .. } => (3, remaining.len()),
        Update::AwaitSelected { .. } => (2, 0),
        Update::AwaitNewUser { .. } => (2, 0),
        Update::AwaitInsertion => (1, 0),
    }
}

/// An update cannot go on forever: every reply either finishes it, or brings it
/// to a later stage, or leaves one link less to delete.
pub proof fn law_update_comes_to_an_end(machine: Update, reply: Reply)
    requires
        machine.expects(reply),
    ensures
        machine.next(reply) matches Progress::Ask(then, _) ==> {
            ||| update_rank(then).0 < update_rank(machine).0
            ||| update_rank(then).0 == update_rank(machine).0 && update_rank(then).1 < update_rank(
                machine,
            ).1
        },
{
}

/// An update that asks something waits for just the kind of reply that answers
/// it.
pub proof fn law_update_waits_for_the_answer(machine: Update, reply: Reply, answer: Reply)
    requires
        machine.expects(reply),
    ensures
        machine.next(reply) matches Progress::Ask(then, question) ==> question.answered_by(answer)
            == then.expects(answer),
{
}

/// What a subscription makes of a valid database is valid.
proof fn lemma_subscribed_valid(
    before: Tables,
    names: Seq<String>,
    email: Seq<char>,
    user: users::Row,
    after: Tables,
)
    requires
        before.valid(),
        before.subscribed(names, email, user, after),
    ensures
        after.valid(),
{
    assert(after.users.contains(user));
    if !before.knows(email) {
        assert forall|a: users::Row, b: users::Row| #[trigger]
            after.users.contains(a) && #[trigger] after.users.contains(b) && a.id
                == b.id implies a == b by {
            if a != b {
                assert(before.users.contains(a) || before.users.contains(b));
            }
        }
    }
    assert forall|link: user_stations::Model| #[trigger] after.links.contains(
        link,
    ) implies after.has_user(link.user_id) && after.has_station(link.station_id) by {
        if link.user_id == user.id {
            assert(before.wanted(names, link));
            let row = choose|row: stations::Row|
                {
                    &&& #[trigger] before.stations.contains(row)
                    &&& selection::named(names, row)
                    &&& row.id == link.station_id
                };
            assert(after.stations.contains(row));
        } else {
            assert(before.links.contains(link));
            let owner = choose|owner: users::Row| #[trigger]
                before.users.contains(owner) && owner.id == link.user_id;
            assert(after.users.contains(owner));
            let row = choose|row: stations::Row| #[trigger]
                before.stations.contains(row) && row.id == link.station_id;
            assert(after.stations.contains(row));
        }
    }
}

/// A database with fewer links is as valid as before.
proof fn lemma_fewer_links_valid(more: Tables, fewer: Tables)
    requires
        more.valid(),
        fewer.stations == more.stations,
        fewer.users == more.users,
        fewer.links.subset_of(more.links),
    ensures
        fewer.valid(),
{
    assert forall|link: user_stations::Model| #[trigger] fewer.links.contains(
        link,
    ) implies fewer.has_user(link.user_id) && fewer.has_station(link.station_id) by {
        assert(more.links.contains(link));
        assert(more.has_user(link.user_id) && more.has_station(link.station_id));
    }
}

/// An update leaves the keys and links of the database in order at every moment.
pub proof fn law_update_keeps_the_database_valid(
    names: Seq<String>,
    email: Seq<char>,
    moments: Seq<Moment<Update>>,
    k: int,
)
    requires
        update_run(names, email, moments),
        moments[0].tables.valid(),
        0 <= k < moments.len(),
    ensures
        moments[k].tables.valid(),
{
    lemma_update_run(names, email, moments, k);
    let before = moments[0].tables;
    let now = moments[k].tables;
    match moments[k].progress {
        Progress::Ask(machine, question) => match machine {
            Update::AwaitDeletion { .. } => lemma_fewer_links_valid(before, now),
            Update::AwaitSelected { .. } => lemma_fewer_links_valid(before, now),
            Update::AwaitInsertion => {
                let links = question->InsertUserStations_0;
                let user = choose|user: users::Row| #[trigger]
                    almost_subscribed(before, names, email, user, links, now);
                let after = Tables { links: now.links.union(links.to_set()), ..now };
                lemma_subscribed_valid(before, names, email, user, after);
                lemma_fewer_links_valid(after, now);
            },
            _ => {},
        },
        Progress::Finished => {
            let user = choose|user: users::Row| #[trigger]
                before.subscribed(names, email, user, now);
            lemma_subscribed_valid(before, names, email, user, now);
        },
    }
}

/// Asking for the same stations a second time changes nothing, where the email
/// address is not shared.
pub proof fn law_repeated_update_changes_nothing(
    names: Seq<String>,
    email: Seq<char>,
    first: Seq<Moment<Update>>,
    second: Seq<Moment<Update>>,
)
    requires
        update_run(names, email, first),
        update_run(names, email, second),
        first[0].tables.valid(),
        first[0].tables.unshared(email),
        first.last().progress is Finished,
        second[0].tables == first.last().tables,
        second.last().progress is Finished,
    ensures
        second.last().tables == first.last().tables,
{
    law_update_subscribes_to_exactly_the_named_stations(names, email, first);
    law_update_keeps_the_database_valid(names, email, first, first.len() - 1);
    law_update_subscribes_to_exactly_the_named_stations(names, email, second);
    let before = first[0].tables;
    let between = first.last().tables;
    let after = second.last().tables;
    let user = choose|user: users::Row| #[trigger]
        before.subscribed(names, email, user, between);
    let again = choose|user: users::Row| #[trigger]
        between.subscribed(names, email, user, after);
    assert(between.users.contains(user));
    assert(between.knows(email));
    assert(again == user) by {
        if before.knows(email) {
            assert(before.users.contains(again));
        } else if again != user {
            assert(before.users.contains(again));
        }
    }
    assert(after.users == between.users);
    assert forall|link: user_stations::Model| after.links.contains(link)
        <==> between.links.contains(link) by {
        if link.user_id == user.id {
            assert(before.wanted(names, link) <==> between.wanted(names, link));
        }
    }
    assert(after.links =~= between.links);
}

/// Deleting the unwanted links of a user leaves the rest alone.
proof fn lemma_down_to_leaves_the_rest(
    before: Tables,
    names: Seq<String>,
    email: Seq<char>,
    user_id: i32,
    stations: Seq<stations::Model>,
    now: Tables,
)
    requires
        before.valid(),
        owns(before, user_id, email),
        picked(before, names, stations),
        exists|doomed: Seq<user_stations::Model>| down_to(before, user_id, stations, doomed, now),
    ensures
        before.kept_for_others(email, now),
        now.users == before.users,
        forall|link: user_stations::Model| #[trigger]
            before.links.contains(link) && before.wanted(names, link) ==> now.links.contains(link),
{
    let owner = users::Row { id: user_id, email };
    assert(before.users.contains(owner));
    assert forall|link: user_stations::Model| #[trigger]
        before.links.contains(link) && before.wanted(names, link) implies now.links.contains(
        link,
    ) by {
        lemma_wanted(before, names, stations, link);
    }
}

/// What a subscription makes of a database leaves the rest of it alone.
proof fn lemma_subscribed_leaves_the_rest(
    before: Tables,
    names: Seq<String>,
    email: Seq<char>,
    user: users::Row,
    after: Tables,
)
    requires
        before.valid(),
        before.subscribed(names, email, user, after),
    ensures
        before.kept_for_others(email, after),
        before.users.subset_of(after.users),
        forall|link: user_stations::Model| #[trigger]
            before.links.contains(link) && before.wanted(names, link) ==> after.links.contains(
                link,
            ),
{
}

/// Before the last step of an update the rest of the database is as it was.
proof fn lemma_before_insertion(
    before: Tables,
    names: Seq<String>,
    email: Seq<char>,
    user: users::Row,
    links: Seq<user_stations::Model>,
    now: Tables,
)
    requires
        before.valid(),
        almost_subscribed(before, names, email, user, links, now),
    ensures
        before.kept_for_others(email, now),
        before.users.subset_of(now.users),
        forall|link: user_stations::Model| #[trigger]
            before.links.contains(link) && before.wanted(names, link) ==> now.links.contains(link),
{
    let after = Tables { links: now.links.union(links.to_set()), ..now };
    lemma_subscribed_leaves_the_rest(before, names, email, user, after);
    assert forall|link: user_stations::Model| #[trigger] now.links.contains(link)
        <==> after.links.contains(link) && !links.contains(link) by {
        assert(links.to_set().contains(link) <==> links.contains(link));
    }
    assert forall|owner: users::Row, link: user_stations::Model|
        #[trigger] before.users.contains(owner) && owner.email != email && link.user_id
            == owner.id implies (#[trigger] now.links.contains(link) <==> before.links.contains(
        link,
    )) by {
        assert(after.links.contains(link) <==> before.links.contains(link));
    }
    assert forall|link: user_stations::Model| #[trigger]
        before.links.contains(link) && before.wanted(names, link) implies now.links.contains(
        link,
    ) by {
        assert(after.links.contains(link));
    }
}

/// After a subscription the user is linked to the stations that were named, and
/// everybody else to the same stations as before.
proof fn lemma_subscribed_stations(
    before: Tables,
    names: Seq<String>,
    email: Seq<char>,
    user: users::Row,
    after: Tables,
)
    requires
        before.valid(),
        before.unshared(email),
        before.subscribed(names, email, user, after),
    ensures
        after.valid(),
        after.unshared(email),
        after.users.contains(user),
        forall|id: i32| #[trigger]
            after.stations_of(email).contains(id) <==> before.wanted(
                names,
                user_stations::Model { user_id: user.id, station_id: id },
            ),
        forall|other: Seq<char>|
            other != email ==> #[trigger] after.stations_of(other) == before.stations_of(other),
{
    lemma_subscribed_valid(before, names, email, user, after);
    assert(after.users.contains(user));
    assert forall|other: Seq<char>| other != email implies #[trigger] after.stations_of(other)
        == before.stations_of(other) by {
        lemma_subscribed_leaves_the_rest(before, names, email, user, after);
        assert forall|id: i32| after.stations_of(other).contains(id) <==> before.stations_of(
            other,
        ).contains(id) by {
            if before.stations_of(other).contains(id) {
                let owner = choose|owner: users::Row|
                    {
                        &&& #[trigger] before.users.contains(owner)
                        &&& owner.email == other
                        &&& before.links.contains(
                            user_stations::Model { user_id: owner.id, station_id: id },
                        )
                    };
                assert(after.users.contains(owner));
                assert(after.links.contains(
                    user_stations::Model { user_id: owner.id, station_id: id },
                ));
            }
            if after.stations_of(other).contains(id) {
                let owner = choose|owner: users::Row|
                    {
                        &&& #[trigger] after.users.contains(owner)
                        &&& owner.email == other
                        &&& after.links.contains(
                            user_stations::Model { user_id: owner.id, station_id: id },
                        )
                    };
                assert(before.users.contains(owner));
                assert(before.links.contains(
                    user_stations::Model { user_id: owner.id, station_id: id },
                ));
            }
        }
        assert(after.stations_of(other) =~= before.stations_of(other));
    }
}

/// An update that stops midway, at whatever moment, has left alone what is not
/// its own: the stations, everybody who was a user, and the links of other
/// users. Of the user's own links none to a named station is lost.
pub proof fn law_interrupted_update_leaves_the_rest_alone(
    names: Seq<String>,
    email: Seq<char>,
    moments: Seq<Moment<Update>>,
    k: int,
)
    requires
        update_run(names, email, moments),
        moments[0].tables.valid(),
        0 <= k < moments.len(),
    ensures
        moments[0].tables.kept_for_others(email, moments[k].tables),
        moments[0].tables.users.subset_of(moments[k].tables.users),
        forall|link: user_stations::Model| #[trigger]
            moments[0].tables.links.contains(link) && moments[0].tables.wanted(names, link)
                ==> moments[k].tables.links.contains(link),
{
    lemma_update_run(names, email, moments, k);
    let before = moments[0].tables;
    let now = moments[k].tables;
    match moments[k].progress {
        Progress::Ask(machine, question) => match machine {
            Update::AwaitDeletion { user_id, stations, .. } => {
                lemma_down_to_leaves_the_rest(before, names, email, user_id, stations, now);
            },
            Update::AwaitSelected { user_id, stations } => {
                lemma_down_to_leaves_the_rest(before, names, email, user_id, stations, now);
            },
            Update::AwaitInsertion => {
                let links = question->InsertUserStations_0;
                let user = choose|user: users::Row| #[trigger]
                    almost_subscribed(before, names, email, user, links, now);
                lemma_before_insertion(before, names, email, user, links, now);
            },
            _ => {},
        },
        Progress::Finished => {
            let user = choose|user: users::Row| #[trigger]
                before.subscribed(names, email, user, now);
            lemma_subscribed_leaves_the_rest(before, names, email, user, now);
        },
    }
}

/// The later of two updates alone decides which stations the user is linked to:
/// they are those that it would have left without the first. Nobody else is
/// concerned by either. The email address is not shared.
pub proof fn law_later_update_alone_decides(
    first_names: Seq<String>,
    names: Seq<String>,
    email: Seq<char>,
    first: Seq<Moment<Update>>,
    second: Seq<Moment<Update>>,
    alone: Seq<Moment<Update>>,
)
    requires
        update_run(first_names, email, first),
        update_run(names, email, second),
        update_run(names, email, alone),
        first[0].tables.valid(),
        first[0].tables.unshared(email),
        first.last().progress is Finished,
        second[0].tables == first.last().tables,
        second.last().progress is Finished,
        alone[0].tables == first[0].tables,
        alone.last().progress is Finished,
    ensures
        second.last().tables.stations_of(email) == alone.last().tables.stations_of(email),
        forall|other: Seq<char>|
            other != email ==> #[trigger] second.last().tables.stations_of(other)
                == first[0].tables.stations_of(other),
        first[0].tables.knows(email) ==> second.last().tables == alone.last().tables,
{
    let before = first[0].tables;
    let between = first.last().tables;
    let after = second.last().tables;
    let direct = alone.last().tables;
    law_update_subscribes_to_exactly_the_named_stations(first_names, email, first);
    let user = choose|user: users::Row| #[trigger]
        before.subscribed(first_names, email, user, between);
    lemma_subscribed_stations(before, first_names, email, user, between);
    law_update_subscribes_to_exactly_the_named_stations(names, email, second);
    let again = choose|user: users::Row| #[trigger]
        between.subscribed(names, email, user, after);
    lemma_subscribed_stations(between, names, email, again, after);
    law_update_subscribes_to_exactly_the_named_stations(names, email, alone);
    let only = choose|user: users::Row| #[trigger] before.subscribed(names, email, user, direct);
    lemma_subscribed_stations(before, names, email, only, direct);
    assert(after.stations_of(email) =~= direct.stations_of(email));
    if before.knows(email) {
        assert(between.users.contains(user));
        assert(again == user && only == user);
        assert forall|link: user_stations::Model| after.links.contains(link)
            <==> direct.links.contains(link) by {
            assert(between.wanted(names, link) <==> before.wanted(names, link));
        }
        assert(after.links =~= direct.links);
    }
}

/// Only which stations are named counts: two lists that name the same of the
/// known stations, in whatever order, however often, and with whatever other
/// names, leave the user with the same stations. The email address is not
/// shared. Where the user was there before, or is added under the same key, the
/// two databases are the same.
pub proof fn law_only_the_named_stations_count(
    names: Seq<String>,
    same_names: Seq<String>,
    email: Seq<char>,
    one: Seq<Moment<Update>>,
    other: Seq<Moment<Update>>,
)
    requires
        update_run(names, email, one),
        update_run(same_names, email, other),
        one[0].tables.valid(),
        one[0].tables.unshared(email),
        other[0].tables == one[0].tables,
        forall|row: stations::Row| #[trigger]
            one[0].tables.stations.contains(row) ==> selection::named(names, row)
                == selection::named(same_names, row),
        one.last().progress is Finished,
        other.last().progress is Finished,
    ensures
        one.last().tables.stations_of(email) == other.last().tables.stations_of(email),
        one[0].tables.knows(email) ==> one.last().tables == other.last().tables,
        one.last().tables.users == other.last().tables.users ==> one.last().tables
            == other.last().tables,
{
    let before = one[0].tables;
    let left = one.last().tables;
    let right = other.last().tables;
    law_update_subscribes_to_exactly_the_named_stations(names, email, one);
    let a = choose|user: users::Row| #[trigger] before.subscribed(names, email, user, left);
    lemma_subscribed_stations(before, names, email, a, left);
    law_update_subscribes_to_exactly_the_named_stations(same_names, email, other);
    let b = choose|user: users::Row| #[trigger] before.subscribed(same_names, email, user, right);
    lemma_subscribed_stations(before, same_names, email, b, right);
    assert forall|link: user_stations::Model| #[trigger] before.wanted(names, link)
        <==> before.wanted(same_names, link) by {}
    assert(left.stations_of(email) =~= right.stations_of(email));
    if left.users == right.users {
        assert(left.users.contains(a) && left.users.contains(b));
        assert(a == b);
        assert forall|link: user_stations::Model| left.links.contains(link)
            <==> right.links.contains(link) by {
            assert(before.wanted(names, link) <==> before.wanted(same_names, link));
        }
        assert(left.links =~= right.links);
    }
}

/// What an update that has finished leaves: one user with the email address,
/// added under a fresh key only if nobody had it, who is linked to a station
/// exactly if the station's name equals an entry of the list, at whatever
/// position; and everything else as it was.
pub proof fn law_update_links_every_named_station(
    names: Seq<String>,
    email: Seq<char>,
    moments: Seq<Moment<Update>>,
)
    requires
        update_run(names, email, moments),
        moments[0].tables.valid(),
        moments.last().progress is Finished,
    ensures
        moments.last().tables.stations == moments[0].tables.stations,
        exists|user: users::Row|
            {
                &&& #[trigger] moments.last().tables.users.contains(user)
                &&& user.email == email
                &&& forall|other: users::Row| #[trigger]
                    moments.last().tables.users.contains(other)
                        <==> moments[0].tables.users.contains(other) || other == user
                &&& !moments[0].tables.users.contains(user) ==> forall|other: users::Row|
                    #[trigger]
                    moments[0].tables.users.contains(other) ==> other.email != email && other.id
                        != user.id
                &&& forall|row: stations::Row, i: int|
                    #[trigger] moments[0].tables.stations.contains(row) && 0 <= i < names.len()
                        && (#[trigger] names[i])@ == row.name
                        ==> moments.last().tables.links.contains(
                        user_stations::Model { user_id: user.id, station_id: row.id },
                    )
                &&& forall|row: stations::Row| #[trigger]
                    moments[0].tables.stations.contains(row) && (forall|i: int|
                        0 <= i < names.len() ==> (#[trigger] names[i])@ != row.name)
                        ==> !moments.last().tables.links.contains(
                        user_stations::Model { user_id: user.id, station_id: row.id },
                    )
                &&& forall|link: user_stations::Model| #[trigger]
                    moments.last().tables.links.contains(link) && link.user_id == user.id
                        ==> exists|row: stations::Row| #[trigger]
                        moments[0].tables.stations.contains(row) && row.id == link.station_id
                &&& forall|link: user_stations::Model|
                    link.user_id != user.id ==> (#[trigger] moments.last().tables.links.contains(
                        link,
                    ) <==> moments[0].tables.links.contains(link))
            },
{
    law_update_subscribes_to_exactly_the_named_stations(names, email, moments);
    let before = moments[0].tables;
    let after = moments.last().tables;
    let user = choose|user: users::Row| #[trigger] before.subscribed(names, email, user, after);
    assert(after.users.contains(user));
    assert forall|row: stations::Row, i: int|
        #[trigger] before.stations.contains(row) && 0 <= i < names.len() && (
        #[trigger] names[i])@ == row.name implies after.links.contains(
        user_stations::Model { user_id: user.id, station_id: row.id },
    ) by {
        let link = user_stations::Model { user_id: user.id, station_id: row.id };
        selection::law_every_entry_names_its_station(names, row);
        assert(before.wanted(names, link));
    }
    assert forall|row: stations::Row| #[trigger]
        before.stations.contains(row) && (forall|i: int|
            0 <= i < names.len() ==> (#[trigger] names[i])@ != row.name) implies {
        !after.links.contains(user_stations::Model { user_id: user.id, station_id: row.id })
    } by {
        let link = user_stations::Model { user_id: user.id, station_id: row.id };
        selection::law_every_entry_names_its_station(names, row);
        if before.wanted(names, link) {
            let same = choose|same: stations::Row|
                {
                    &&& #[trigger] before.stations.contains(same)
                    &&& selection::named(names, same)
                    &&& same.id == link.station_id
                };
            assert(same == row);
        }
    }
    assert forall|link: user_stations::Model| #[trigger]
        after.links.contains(link) && link.user_id == user.id implies exists|row: stations::Row|
        #[trigger]
        before.stations.contains(row) && row.id == link.station_id by {
        assert(before.wanted(names, link));
    }
}

/// An update goes forward with every reply, whatever it is: from the stations to
/// the user, from there to the links or to adding the user, from the links to
/// one deletion after the other, each with one less to follow, then to what is
/// still selected, then to adding the links, and then it has finished.
pub proof fn law_update_goes_forward(machine: Update, reply: Reply)
    ensures
        machine is AwaitStations ==> machine.next(reply) is Ask && machine.next(reply)->Ask_0
            is AwaitUser && machine.next(reply)->Ask_1 is UserByEmail,
        machine is AwaitUser ==> machine.next(reply) is Ask && (machine.next(reply)->Ask_0
            is AwaitLinks || machine.next(reply)->Ask_0 is AwaitNewUser),
        machine is AwaitLinks ==> machine.next(reply) is Ask && (machine.next(reply)->Ask_0
            is AwaitDeletion || machine.next(reply)->Ask_0 is AwaitSelected),
        machine matches Update::AwaitDeletion { remaining, .. } ==> machine.next(reply) is Ask
            && if remaining.len() == 0 {
            machine.next(reply)->Ask_0 is AwaitSelected
        } else {
            &&& machine.next(reply)->Ask_0 is AwaitDeletion
            &&& machine.next(reply)->Ask_0->remaining == remaining.drop_first()
            &&& machine.next(reply)->Ask_1 == Question::DeleteUserStation(remaining[0])
        },
        machine is AwaitSelected || machine is AwaitNewUser ==> machine.next(reply) is Ask
            && machine.next(reply)->Ask_0 is AwaitInsertion && machine.next(reply)->Ask_1
            is InsertUserStations,
        machine is AwaitInsertion ==> machine.next(reply) is Finished,
{
}

/// Whatever the database may reply at any moment, the update expects it.
pub proof fn law_update_expects_what_the_database_replies(
    names: Seq<String>,
    email: Seq<char>,
    moments: Seq<Moment<Update>>,
    k: int,
    reply: Reply,
    after: Tables,
)
    requires
        update_run(names, email, moments),
        moments[0].tables.valid(),
        0 <= k < moments.len(),
        moments[k].progress is Ask,
        moments[k].tables.answers(moments[k].progress->Ask_1, reply, after),
    ensures
        moments[k].progress->Ask_0.expects(reply),
{
    lemma_update_run(names, email, moments, k);
}

/// An update deletes only links of its user to stations whose name equals no
/// entry of the list, and adds only links that are not there.
pub proof fn law_update_deletes_and_adds_only_what_it_must(
    names: Seq<String>,
    email: Seq<char>,
    moments: Seq<Moment<Update>>,
    k: int,
)
    requires
        update_run(names, email, moments),
        moments[0].tables.valid(),
        0 <= k < moments.len(),
        moments[k].progress is Ask,
    ensures
        moments[k].progress->Ask_1 matches Question::DeleteUserStation(link) ==> {
            &&& moments[k].tables.links.contains(link)
            &&& moments[0].tables.users.contains(users::Row { id: link.user_id, email })
            &&& forall|row: stations::Row, i: int|
                #[trigger] moments[0].tables.stations.contains(row) && row.id == link.station_id
                    && 0 <= i < names.len() ==> (#[trigger] names[i])@ != row.name
        },
        moments[k].progress->Ask_1 matches Question::InsertUserStations(links) ==> {
            &&& links.no_duplicates()
            &&& forall|link: user_stations::Model| #[trigger]
                links.contains(link) ==> !moments[k].tables.links.contains(link)
        },
        !(moments[k].progress->Ask_1 is DeleteUser),
        !(moments[k].progress->Ask_1 is DeleteUserStationsOf),
{
    lemma_update_run(names, email, moments, k);
    let before = moments[0].tables;
    if let Question::DeleteUserStation(link) = moments[k].progress->Ask_1 {
        if let Update::AwaitDeletion { user_id, stations, remaining } = moments[k].progress->Ask_0 {
            let doomed = seq![link] + remaining;
            assert(doomed[0] == link);
            assert(doomed.contains(link));
            lemma_wanted(before, names, stations, link);
            assert forall|row: stations::Row, i: int|
                #[trigger] before.stations.contains(row) && row.id == link.station_id && 0 <= i
                    < names.len() implies (#[trigger] names[i])@ != row.name by {
                selection::law_every_entry_names_its_station(names, row);
            }
        }
    }
}

/// Whether a call of `advance` goes from one step to the next by a reply that
/// the database may give.
pub open spec fn update_driven(
    now: Step<UserStationsUpdate>,
    tables: Tables,
    reply: Reply,
    then: Step<UserStationsUpdate>,
    after: Tables,
) -> bool {
    &&& now is Ask
    &&& tables.answers(now->Ask_1@, reply, after)
    &&& call_ensures(UserStationsUpdate::advance, (now->Ask_0, reply), then)
}

/// Whether a call of `advance` goes from one step to the next by some reply that
/// the database may give.
pub open spec fn update_drives(
    now: Step<UserStationsUpdate>,
    tables: Tables,
    then: Step<UserStationsUpdate>,
    after: Tables,
) -> bool {
    exists|reply: Reply| #[trigger] update_driven(now, tables, reply, then, after)
}

/// Driving an update is an update.
proof fn lemma_driven_update(
    names: Vec<String>,
    email: String,
    steps: Seq<Step<UserStationsUpdate>>,
    tables: Seq<Tables>,
    moments: Seq<Moment<Update>>,
)
    requires
        steps.len() > 0,
        steps.len() == tables.len(),
        call_ensures(crate::service::update_user_stations, (names, email), steps[0]),
        forall|i: int, j: int|
            #![trigger steps[i], steps[j]]
            0 <= i && j == i + 1 && j < steps.len() ==> update_drives(
                steps[i],
                tables[i],
                steps[j],
                tables[j],
            ),
        moments.len() == steps.len(),
        forall|i: int|
            0 <= i < steps.len() ==> (#[trigger] moments[i]).progress == steps[i]@
                && moments[i].tables == tables[i],
    ensures
        update_run(names@, email@, moments),
{
    assert(steps[0]@ == moments[0].progress);
    assert forall|i: int, j: int|
        #![trigger moments[i], moments[j]]
        0 <= i && j == i + 1 && j < moments.len() implies update_moves(moments[i], moments[j]) by {
        assert(update_drives(steps[i], tables[i], steps[j], tables[j]));
        let reply = choose|reply: Reply| #[trigger]
            update_driven(steps[i], tables[i], reply, steps[j], tables[j]);
        assert(update_step(moments[i], reply, moments[j]));
    }
}

/// Driving an update, from the call that starts it to the step that finishes it,
/// links the one user with the email address to every station whose name equals
/// an entry of the list and to no other, and leaves everything else as it was.
pub proof fn law_driven_update_links_every_named_station(
    names: Vec<String>,
    email: String,
    steps: Seq<Step<UserStationsUpdate>>,
    tables: Seq<Tables>,
)
    requires
        steps.len() > 0,
        steps.len() == tables.len(),
        call_ensures(crate::service::update_user_stations, (names, email), steps[0]),
        forall|i: int, j: int|
            #![trigger steps[i], steps[j]]
            0 <= i && j == i + 1 && j < steps.len() ==> update_drives(
                steps[i],
                tables[i],
                steps[j],
                tables[j],
            ),
        tables[0].valid(),
        steps.last() is Finished,
    ensures
        tables.last().stations == tables[0].stations,
        exists|user: users::Row|
            {
                &&& #[trigger] tables.last().users.contains(user)
                &&& user.email == email@
                &&& forall|other: users::Row| #[trigger]
                    tables.last().users.contains(other) <==> tables[0].users.contains(other)
                        || other == user
                &&& !tables[0].users.contains(user) ==> forall|other: users::Row| #[trigger]
                    tables[0].users.contains(other) ==> other.email != email@ && other.id
                        != user.id
                &&& forall|row: stations::Row, i: int|
                    #[trigger] tables[0].stations.contains(row) && 0 <= i < names@.len() && (
                    #[trigger] names@[i])@ == row.name ==> tables.last().links.contains(
                        user_stations::Model { user_id: user.id, station_id: row.id },
                    )
                &&& forall|row: stations::Row| #[trigger]
                    tables[0].stations.contains(row) && (forall|i: int|
                        0 <= i < names@.len() ==> (#[trigger] names@[i])@ != row.name)
                        ==> !tables.last().links.contains(
                        user_stations::Model { user_id: user.id, station_id: row.id },
                    )
                &&& forall|link: user_stations::Model|
                    link.user_id != user.id ==> (#[trigger] tables.last().links.contains(link)
                        <==> tables[0].links.contains(link))
            },
{
    let moments = Seq::new(
        steps.len(),
        |i: int| Moment { progress: steps[i]@, tables: tables[i] },
    );
    lemma_driven_update(names, email, steps, tables, moments);
    assert(moments.last().progress is Finished);
    law_update_links_every_named_station(names@, email@, moments);
    let before = tables[0];
    let after = tables.last();
    assert(moments[0].tables == before && moments.last().tables == after);
    let user = choose|user: users::Row|
            {
                &&& #[trigger] after.users.contains(user)
                &&& user.email == email@
                &&& forall|other: users::Row| #[trigger]
                    after.users.contains(other) <==> before.users.contains(other)
                        || other == user
                &&& !before.users.contains(user) ==> forall|other: users::Row| #[trigger]
                    before.users.contains(other) ==> other.email != email@ && other.id
                        != user.id
                &&& forall|row: stations::Row, i: int|
                    #[trigger] before.stations.contains(row) && 0 <= i < names@.len() && (
                    #[trigger] names@[i])@ == row.name ==> after.links.contains(
                        user_stations::Model { user_id: user.id, station_id: row.id },
                    )
                &&& forall|row: stations::Row| #[trigger]
                    before.stations.contains(row) && (forall|i: int|
                        0 <= i < names@.len() ==> (#[trigger] names@[i])@ != row.name)
                        ==> !after.links.contains(
                        user_stations::Model { user_id: user.id, station_id: row.id },
                    )
                &&& forall|link: user_stations::Model|
                    link.user_id != user.id ==> (#[trigger] after.links.contains(link)
                        <==> before.links.contains(link))
            };
    assert(tables.last().users.contains(user));
}

/// An update that is driven by replies of the database is ready for each of
/// them, asks one query after the other of a fixed course, and hands on a
/// refusal.
pub proof fn law_driven_update_is_ready_for_each_reply(
    machine: UserStationsUpdate,
    reply: Reply,
    expected: bool,
    fault: sea_orm::DbErr,
    stopped: Result<Step<UserStationsUpdate>, Error>,
    resumed: Result<Step<UserStationsUpdate>, Error>,
    advanced: Step<UserStationsUpdate>,
)
    requires
        call_ensures(UserStationsUpdate::is_expecting, (&machine, &reply), expected),
        call_ensures(
            UserStationsUpdate::resume,
            (machine, Err::<Reply, sea_orm::DbErr>(fault)),
            stopped,
        ),
        call_ensures(
            UserStationsUpdate::resume,
            (machine, Ok::<Reply, sea_orm::DbErr>(reply)),
            resumed,
        ),
        call_ensures(UserStationsUpdate::advance, (machine, reply), advanced),
    ensures
        machine is AwaitStations || machine is AwaitSelected ==> (expected <==> reply is Stations),
        machine is AwaitUser ==> (expected <==> reply is MaybeUser),
        machine is AwaitLinks ==> (expected <==> reply is UserStations),
        machine is AwaitDeletion || machine is AwaitInsertion ==> (expected <==> reply is Done),
        machine is AwaitNewUser ==> (expected <==> reply is User),
        stopped == Err::<Step<UserStationsUpdate>, Error>(Error::DbError(fault)),
        resumed is Ok && resumed->Ok_0@ == advanced@,
        machine is AwaitInsertion <==> advanced is Finished,
{
    law_update_goes_forward(machine@, reply);
}

} // verus!
