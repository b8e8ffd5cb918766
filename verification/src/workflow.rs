//! Requests that go back and forth with the database.
//!
//! Each is a machine that asks one [`Query`] at a time and is driven on by the
//! [`Reply`] to it, until it has finished or the database refuses a query.

use crate::database::{rail_lines, stations, user_stations, users};
use crate::error::Error;
use crate::network::{station_info, StationInfo, StationText};
use crate::selection::{
    delete_user_stations_not_in_list, filter_out_stations, get_stations_from_names, link_stations,
};
use vstd::prelude::*;

verus! {

/// Something to ask of the database, or to have it do.
#[derive(Debug)]
pub enum Query {
    /// Fetches all stations.
    AllStations,
    /// Fetches the rail lines of a station.
    RailLinesOf(i32),
    /// Fetches the user with an email address.
    UserByEmail(String),
    /// Fetches the links of a user.
    UserStationsOf(i32),
    /// Fetches the stations that a user is linked to.
    StationsOf(i32),
    /// Deletes a link.
    DeleteUserStation(user_stations::Model),
    /// Deletes all links of a user.
    DeleteUserStationsOf(i32),
    /// Deletes a user.
    DeleteUser(users::Model),
    /// Adds a user with an email address.
    InsertUser(String),
    /// Adds links, if there are any.
    InsertUserStations(Vec<user_stations::Model>),
}

/// What a [`Query`] says.
#[verifier::ext_equal]
pub enum Question {
    AllStations,
    RailLinesOf(i32),
    UserByEmail(Seq<char>),
    UserStationsOf(i32),
    StationsOf(i32),
    DeleteUserStation(user_stations::Model),
    DeleteUserStationsOf(i32),
    DeleteUser(users::Model),
    InsertUser(Seq<char>),
    InsertUserStations(Seq<user_stations::Model>),
}

impl View for Query {
    type V = Question;

    open spec fn view(&self) -> Question {
        match *self {
            Query::AllStations => Question::AllStations,
            Query::RailLinesOf(id) => Question::RailLinesOf(id),
            Query::UserByEmail(email) => Question::UserByEmail(email@),
            Query::UserStationsOf(id) => Question::UserStationsOf(id),
            Query::StationsOf(id) => Question::StationsOf(id),
            Query::DeleteUserStation(link) => Question::DeleteUserStation(link),
            Query::DeleteUserStationsOf(id) => Question::DeleteUserStationsOf(id),
            Query::DeleteUser(user) => Question::DeleteUser(user),
            Query::InsertUser(email) => Question::InsertUser(email@),
            Query::InsertUserStations(links) => Question::InsertUserStations(links@),
        }
    }
}

/// What the database replies to a [`Query`] that it did not refuse.
#[derive(Debug)]
pub enum Reply {
    /// Stations that were fetched.
    Stations(Vec<stations::Model>),
    /// Rail lines that were fetched.
    RailLines(Vec<rail_lines::Model>),
    /// The user that was found, if one was.
    MaybeUser(Option<users::Model>),
    /// The user that was added.
    User(users::Model),
    /// Links that were fetched.
    UserStations(Vec<user_stations::Model>),
    /// What was to be done is done.
    Done,
}

impl Question {
    /// Whether a reply is of the kind that answers this.
    pub open spec fn answered_by(self, reply: Reply) -> bool {
        match self {
            Question::AllStations => reply is Stations,
            Question::RailLinesOf(_) => reply is RailLines,
            Question::UserByEmail(_) => reply is MaybeUser,
            Question::UserStationsOf(_) => reply is UserStations,
            Question::StationsOf(_) => reply is Stations,
            Question::DeleteUserStation(_) => reply is Done,
            Question::DeleteUserStationsOf(_) => reply is Done,
            Question::DeleteUser(_) => reply is Done,
            Question::InsertUser(_) => reply is User,
            Question::InsertUserStations(_) => reply is Done,
        }
    }
}

/// How a machine goes on: it asks something, or it has finished.
#[derive(Debug)]
pub enum Step<M> {
    /// The machine waits for the reply to a query.
    Ask(M, Query),
    /// There is nothing left to do.
    Finished,
}

/// What a [`Step`] says, of a machine in a state `S`.
#[verifier::ext_equal]
pub enum Progress<S> {
    Ask(S, Question),
    Finished,
}

impl<M: View> View for Step<M> {
    type V = Progress<M::V>;

    open spec fn view(&self) -> Progress<M::V> {
        match *self {
            Step::Ask(machine, query) => Progress::Ask(machine@, query@),
            Step::Finished => Progress::Finished,
        }
    }
}

/// How a machine goes on after the answer to a query: by what it makes of the
/// reply, or not at all, with the database's own objection as the error.
pub open spec fn resumed<P>(
    answer: Result<Reply, sea_orm::DbErr>,
    next: spec_fn(Reply) -> P,
) -> Result<P, Error> {
    match answer {
        Ok(reply) => Ok(next(reply)),
        Err(fault) => Err(Error::DbError(fault)),
    }
}

/// Brings the stations that a user is linked to into line with a list of names.
#[derive(Debug)]
pub enum UserStationsUpdate {
    /// Waits for all stations.
    AwaitStations { names: Vec<String>, email: String },
    /// Waits for the user; the stations are the ones that were named.
    AwaitUser { stations: Vec<stations::Model>, email: String },
    /// Waits for the links of the user.
    AwaitLinks { user_id: i32, stations: Vec<stations::Model> },
    /// Waits for a link to be deleted, with the remaining ones to follow.
    AwaitDeletion {
        user_id: i32,
        stations: Vec<stations::Model>,
        remaining: Vec<user_stations::Model>,
    },
    /// Waits for the stations that the user is still linked to.
    AwaitSelected { user_id: i32, stations: Vec<stations::Model> },
    /// Waits for the user to be added.
    AwaitNewUser { stations: Vec<stations::Model> },
    /// Waits for the new links to be added.
    AwaitInsertion,
}

/// The state of a [`UserStationsUpdate`].
#[verifier::ext_equal]
pub enum Update {
    AwaitStations { names: Seq<String>, email: Seq<char> },
    AwaitUser { stations: Seq<stations::Model>, email: Seq<char> },
    AwaitLinks { user_id: i32, stations: Seq<stations::Model> },
    AwaitDeletion {
        user_id: i32,
        stations: Seq<stations::Model>,
        remaining: Seq<user_stations::Model>,
    },
    AwaitSelected { user_id: i32, stations: Seq<stations::Model> },
    AwaitNewUser { stations: Seq<stations::Model> },
    AwaitInsertion,
}

impl View for UserStationsUpdate {
    type V = Update;

    open spec fn view(&self) -> Update {
        match *self {
            UserStationsUpdate::AwaitStations { names, email } => Update::AwaitStations {
                names: names@,
                email: email@,
            },
            UserStationsUpdate::AwaitUser { stations, email } => Update::AwaitUser {
                stations: stations@,
                email: email@,
            },
            UserStationsUpdate::AwaitLinks { user_id, stations } => Update::AwaitLinks {
                user_id,
                stations: stations@,
            },
            UserStationsUpdate::AwaitDeletion { user_id, stations, remaining } =>
                Update::AwaitDeletion { user_id, stations: stations@, remaining: remaining@ },
            UserStationsUpdate::AwaitSelected { user_id, stations } => Update::AwaitSelected {
                user_id,
                stations: stations@,
            },
            UserStationsUpdate::AwaitNewUser { stations } => Update::AwaitNewUser {
                stations: stations@,
            },
            UserStationsUpdate::AwaitInsertion => Update::AwaitInsertion,
        }
    }
}

impl Update {
    /// Whether a reply is of the kind that is waited for.
    pub open spec fn expects(self, reply: Reply) -> bool {
        match self {
            Update::AwaitStations { .. } => reply is Stations,
            Update::AwaitUser { .. } => reply is MaybeUser,
            Update::AwaitLinks { .. } => reply is UserStations,
            Update::AwaitDeletion { .. } => reply is Done,
            Update::AwaitSelected { .. } => reply is Stations,
            Update::AwaitNewUser { .. } => reply is User,
            Update::AwaitInsertion => reply is Done,
        }
    }

    /// Deletes the first of the unwanted links; after the last one, asks what
    /// the user is still linked to.
    pub open spec fn deleting(
        user_id: i32,
        stations: Seq<stations::Model>,
        unwanted: Seq<user_stations::Model>,
    ) -> Progress<Update> {
        if unwanted.len() == 0 {
            Progress::Ask(
                Update::AwaitSelected { user_id, stations },
                Question::StationsOf(user_id),
            )
        } else {
            Progress::Ask(
                Update::AwaitDeletion { user_id, stations, remaining: unwanted.drop_first() },
                Question::DeleteUserStation(unwanted.first()),
            )
        }
    }

    /// Links a user to the stations of a list.
    pub open spec fn inserting(user_id: i32, stations: Seq<stations::Model>) -> Progress<Update> {
        Progress::Ask(
            Update::AwaitInsertion,
            Question::InsertUserStations(crate::selection::links_to(user_id, stations)),
        )
    }

    /// How the update goes on after a reply.
    pub open spec fn next(self, reply: Reply) -> Progress<Update>
        recommends
            self.expects(reply),
    {
        match self {
            Update::AwaitStations { names, email } => Progress::Ask(
                Update::AwaitUser {
                    stations: reply->Stations_0@.filter(
                        |station: stations::Model| crate::selection::named(names, station@),
                    ),
                    email,
                },
                Question::UserByEmail(email),
            ),
            Update::AwaitUser { stations, email } => match reply->MaybeUser_0 {
                Some(user) => Progress::Ask(
                    Update::AwaitLinks { user_id: user.id, stations },
                    Question::UserStationsOf(user.id),
                ),
                None => Progress::Ask(
                    Update::AwaitNewUser { stations },
                    Question::InsertUser(email),
                ),
            },
            Update::AwaitLinks { user_id, stations } => Update::deleting(
                user_id,
                stations,
                reply->UserStations_0@.filter(
                    |link: user_stations::Model| !crate::selection::leads_into(stations, link),
                ),
            ),
            Update::AwaitDeletion { user_id, stations, remaining } => Update::deleting(
                user_id,
                stations,
                remaining,
            ),
            Update::AwaitSelected { user_id, stations } => Update::inserting(
                user_id,
                stations.filter(
                    |station: stations::Model|
                        !crate::selection::listed(reply->Stations_0@, station@),
                ),
            ),
            Update::AwaitNewUser { stations } => Update::inserting(reply->User_0.id, stations),
            Update::AwaitInsertion => Progress::Finished,
        }
    }
}

impl UserStationsUpdate {
    /// Starts to bring the stations of the user with an email address into
    /// line with a list of names.
    pub fn start(names: Vec<String>, email: String) -> (step: Step<Self>)
        ensures
            step@ == Progress::Ask(
                Update::AwaitStations { names: names@, email: email@ },
                Question::AllStations,
            ),
    {
        Step::Ask(UserStationsUpdate::AwaitStations { names, email }, Query::AllStations)
    }

    /// Deletes the first of the unwanted links; after the last one, asks what
    /// the user is still linked to.
    fn delete_first(
        user_id: i32,
        stations: Vec<stations::Model>,
        unwanted: Vec<user_stations::Model>,
    ) -> (step: Step<Self>)
        ensures
            step@ == Update::deleting(user_id, stations@, unwanted@),
    {
        let mut remaining = unwanted;
        if remaining.is_empty() {
            Step::Ask(
                UserStationsUpdate::AwaitSelected { user_id, stations },
                Query::StationsOf(user_id),
            )
        } else {
            let link = remaining.remove(0);
            assert(remaining@ =~= unwanted@.drop_first());
            Step::Ask(
                UserStationsUpdate::AwaitDeletion { user_id, stations, remaining },
                Query::DeleteUserStation(link),
            )
        }
    }

    /// Whether a reply is of the kind that is waited for.
    pub fn is_expecting(&self, reply: &Reply) -> (expected: bool)
        ensures
            expected == self@.expects(*reply),
    {
        match (self, reply) {
            (UserStationsUpdate::AwaitStations { .. }, Reply::Stations(_)) => true,
            (UserStationsUpdate::AwaitUser { .. }, Reply::MaybeUser(_)) => true,
            (UserStationsUpdate::AwaitLinks { .. }, Reply::UserStations(_)) => true,
            (UserStationsUpdate::AwaitDeletion { .. }, Reply::Done) => true,
            (UserStationsUpdate::AwaitSelected { .. }, Reply::Stations(_)) => true,
            (UserStationsUpdate::AwaitNewUser { .. }, Reply::User(_)) => true,
            (UserStationsUpdate::AwaitInsertion, Reply::Done) => true,
            _ => false,
        }
    }

    /// Goes on after a reply: deletes the links that are not in the list, then
    /// removes stations that already have links from the list, then adds
    /// links to the rest. Order is important
    pub fn advance(self, reply: Reply) -> (step: Step<Self>)
        requires
            self@.expects(reply),
        ensures
            step@ == self@.next(reply),
    {
        match (self, reply) {
            (UserStationsUpdate::AwaitStations { names, email }, Reply::Stations(all)) => {
                let stations = get_stations_from_names(all, names.as_slice());
                Step::Ask(
                    UserStationsUpdate::AwaitUser { stations, email: email.clone() },
                    Query::UserByEmail(email),
                )
            },
            (UserStationsUpdate::AwaitUser { stations, email }, Reply::MaybeUser(found)) =>
                match found {
                    Some(user) => Step::Ask(
                        UserStationsUpdate::AwaitLinks { user_id: user.id, stations },
                        Query::UserStationsOf(user.id),
                    ),
                    None => Step::Ask(
                        UserStationsUpdate::AwaitNewUser { stations },
                        Query::InsertUser(email),
                    ),
                },
            (UserStationsUpdate::AwaitLinks { user_id, stations }, Reply::UserStations(links)) => {
                let unwanted = delete_user_stations_not_in_list(links, stations.as_slice());
                Self::delete_first(user_id, stations, unwanted)
            },
            (UserStationsUpdate::AwaitDeletion { user_id, stations, remaining }, Reply::Done) =>
                Self::delete_first(user_id, stations, remaining),
            (
                UserStationsUpdate::AwaitSelected { user_id, stations },
                Reply::Stations(selected),
            ) => {
                let mut stations = stations;
                filter_out_stations(&mut stations, selected.as_slice());
                Step::Ask(
                    UserStationsUpdate::AwaitInsertion,
                    Query::InsertUserStations(link_stations(user_id, stations)),
                )
            },
            (UserStationsUpdate::AwaitNewUser { stations }, Reply::User(user)) => Step::Ask(
                UserStationsUpdate::AwaitInsertion,
                Query::InsertUserStations(link_stations(user.id, stations)),
            ),
            _ => Step::Finished,
        }
    }

    /// Goes on after the answer to a query: a query that the database refused
    /// ends everything, with nothing more asked.
    pub fn resume(self, answer: Result<Reply, sea_orm::DbErr>) -> (result: Result<
        Step<Self>,
        Error,
    >)
        requires
            answer matches Ok(reply) ==> self@.expects(reply),
        ensures
            match resumed(answer, |reply: Reply| self@.next(reply)) {
                Ok(progress) => result matches Ok(step) && step@ == progress,
                Err(error) => result == Err::<Step<Self>, Error>(error),
            },
    {
        match answer {
            Ok(reply) => Ok(self.advance(reply)),
            Err(fault) => Err(Error::DbError(fault)),
        }
    }
}

/// Completely removes a user from the service, if they are subscribed.
#[derive(Debug)]
pub enum Unsubscription {
    /// Waits for the user.
    AwaitUser,
    /// Waits for the links of the user to be deleted.
    AwaitLinksDeletion { user: users::Model },
    /// Waits for the user to be deleted.
    AwaitUserDeletion,
}

impl Unsubscription {
    /// Whether a reply is of the kind that is waited for.
    pub open spec fn expects(self, reply: Reply) -> bool {
        match self {
            Unsubscription::AwaitUser => reply is MaybeUser,
            Unsubscription::AwaitLinksDeletion { .. } => reply is Done,
            Unsubscription::AwaitUserDeletion => reply is Done,
        }
    }

    /// How the unsubscription goes on after a reply.
    pub open spec fn next(self, reply: Reply) -> Progress<Unsubscription>
        recommends
            self.expects(reply),
    {
        match self {
            Unsubscription::AwaitUser => match reply->MaybeUser_0 {
                Some(user) => Progress::Ask(
                    Unsubscription::AwaitLinksDeletion { user },
                    Question::DeleteUserStationsOf(user.id),
                ),
                None => Progress::Finished,
            },
            Unsubscription::AwaitLinksDeletion { user } => Progress::Ask(
                Unsubscription::AwaitUserDeletion,
                Question::DeleteUser(user),
            ),
            Unsubscription::AwaitUserDeletion => Progress::Finished,
        }
    }

    /// Starts to remove the user with an email address.
    pub fn start(email: String) -> (step: Step<Self>)
        ensures
            step@ == Progress::Ask(Unsubscription::AwaitUser, Question::UserByEmail(email@)),
    {
        Step::Ask(Unsubscription::AwaitUser, Query::UserByEmail(email))
    }

    /// Whether a reply is of the kind that is waited for.
    pub fn is_expecting(&self, reply: &Reply) -> (expected: bool)
        ensures
            expected == self.expects(*reply),
    {
        match (self, reply) {
            (Unsubscription::AwaitUser, Reply::MaybeUser(_)) => true,
            (Unsubscription::AwaitLinksDeletion { .. }, Reply::Done) => true,
            (Unsubscription::AwaitUserDeletion, Reply::Done) => true,
            _ => false,
        }
    }

    /// Goes on after a reply: deletes the links of the user, then the user.
    pub fn advance(self, reply: Reply) -> (step: Step<Self>)
        requires
            self.expects(reply),
        ensures
            step@ == self.next(reply),
    {
        match (self, reply) {
            (Unsubscription::AwaitUser, Reply::MaybeUser(Some(user))) => {
                let id = user.id;
                Step::Ask(
                    Unsubscription::AwaitLinksDeletion { user },
                    Query::DeleteUserStationsOf(id),
                )
            },
            (Unsubscription::AwaitLinksDeletion { user }, _) => Step::Ask(
                Unsubscription::AwaitUserDeletion,
                Query::DeleteUser(user),
            ),
            _ => Step::Finished,
        }
    }

    /// Goes on after the answer to a query: a query that the database refused
    /// ends everything, with nothing more asked.
    pub fn resume(self, answer: Result<Reply, sea_orm::DbErr>) -> (result: Result<
        Step<Self>,
        Error,
    >)
        requires
            answer matches Ok(reply) ==> self.expects(reply),
        ensures
            match resumed(answer, |reply: Reply| self.next(reply)) {
                Ok(progress) => result matches Ok(step) && step@ == progress,
                Err(error) => result == Err::<Step<Self>, Error>(error),
            },
    {
        match answer {
            Ok(reply) => Ok(self.advance(reply)),
            Err(fault) => Err(Error::DbError(fault)),
        }
    }
}

impl View for Unsubscription {
    type V = Unsubscription;

    open spec fn view(&self) -> Unsubscription {
        *self
    }
}

/// Gathers the stations of the network, each with the lines it is on.
#[derive(Debug)]
pub enum StationListing {
    /// Waits for all stations.
    AwaitStations,
    /// Waits for the lines of a station, with the remaining ones to follow.
    AwaitLines {
        station: stations::Model,
        remaining: Vec<stations::Model>,
        infos: Vec<StationInfo>,
    },
}

/// The state of a [`StationListing`].
#[verifier::ext_equal]
pub enum Listing {
    AwaitStations,
    AwaitLines {
        station: stations::Model,
        remaining: Seq<stations::Model>,
        infos: Seq<StationText>,
    },
}

/// How a [`StationListing`] goes on: it asks something, or it has finished.
#[derive(Debug)]
pub enum ListingStep {
    /// The listing waits for the reply to a query.
    Ask(StationListing, Query),
    /// These are the stations.
    Finished(Vec<StationInfo>),
}

/// What a [`ListingStep`] says.
#[verifier::ext_equal]
pub enum ListingProgress {
    Ask(Listing, Question),
    Finished(Seq<StationText>),
}

/// What a list of stations says.
pub open spec fn texts(infos: Seq<StationInfo>) -> Seq<StationText> {
    infos.map_values(|info: StationInfo| info@)
}

impl View for StationListing {
    type V = Listing;

    open spec fn view(&self) -> Listing {
        match *self {
            StationListing::AwaitStations => Listing::AwaitStations,
            StationListing::AwaitLines { station, remaining, infos } => Listing::AwaitLines {
                station,
                remaining: remaining@,
                infos: texts(infos@),
            },
        }
    }
}

impl View for ListingStep {
    type V = ListingProgress;

    open spec fn view(&self) -> ListingProgress {
        match *self {
            ListingStep::Ask(machine, query) => ListingProgress::Ask(machine@, query@),
            ListingStep::Finished(infos) => ListingProgress::Finished(texts(infos@)),
        }
    }
}

impl Listing {
    /// Whether a reply is of the kind that is waited for.
    pub open spec fn expects(self, reply: Reply) -> bool {
        match self {
            Listing::AwaitStations => reply is Stations,
            Listing::AwaitLines { .. } => reply is RailLines,
        }
    }

    /// Asks for the lines of the first of the remaining stations; finishes
    /// after the last one.
    pub open spec fn asking(
        remaining: Seq<stations::Model>,
        infos: Seq<StationText>,
    ) -> ListingProgress {
        if remaining.len() == 0 {
            ListingProgress::Finished(infos)
        } else {
            ListingProgress::Ask(
                Listing::AwaitLines {
                    station: remaining.first(),
                    remaining: remaining.drop_first(),
                    infos,
                },
                Question::RailLinesOf(remaining.first().id),
            )
        }
    }

    /// How the listing goes on after a reply.
    pub open spec fn next(self, reply: Reply) -> ListingProgress
        recommends
            self.expects(reply),
    {
        match self {
            Listing::AwaitStations => Listing::asking(reply->Stations_0@, Seq::empty()),
            Listing::AwaitLines { station, remaining, infos } => Listing::asking(
                remaining,
                infos.push(crate::network::described(station, reply->RailLines_0@)),
            ),
        }
    }
}

impl StationListing {
    /// Starts to gather the stations.
    pub fn start() -> (step: ListingStep)
        ensures
            step@ == ListingProgress::Ask(Listing::AwaitStations, Question::AllStations),
    {
        ListingStep::Ask(StationListing::AwaitStations, Query::AllStations)
    }

    /// Whether a reply is of the kind that is waited for.
    pub fn is_expecting(&self, reply: &Reply) -> (expected: bool)
        ensures
            expected == self@.expects(*reply),
    {
        match (self, reply) {
            (StationListing::AwaitStations, Reply::Stations(_)) => true,
            (StationListing::AwaitLines { .. }, Reply::RailLines(_)) => true,
            _ => false,
        }
    }

    /// Asks for the lines of the first of the remaining stations; finishes
    /// after the last one.
    fn ask_first(remaining: Vec<stations::Model>, infos: Vec<StationInfo>) -> (step: ListingStep)
        ensures
            step@ == Listing::asking(remaining@, texts(infos@)),
    {
        let mut rest = remaining;
        if rest.is_empty() {
            ListingStep::Finished(infos)
        } else {
            let station = rest.remove(0);
            assert(rest@ =~= remaining@.drop_first());
            let id = station.id;
            ListingStep::Ask(
                StationListing::AwaitLines { station, remaining: rest, infos },
                Query::RailLinesOf(id),
            )
        }
    }

    /// Goes on after a reply: asks for the lines of one station after the
    /// other, in the order of the database.
    pub fn advance(self, reply: Reply) -> (step: ListingStep)
        requires
            self@.expects(reply),
        ensures
            step@ == self@.next(reply),
    {
        match (self, reply) {
            (StationListing::AwaitStations, Reply::Stations(stations)) => {
                assert(texts(Seq::empty()) =~= Seq::empty());
                Self::ask_first(stations, Vec::new())
            },
            (
                StationListing::AwaitLines { station, remaining, infos },
                Reply::RailLines(lines),
            ) => {
                let mut infos = infos;
                let ghost before = infos@;
                let info = station_info(station, lines);
                infos.push(info);
                assert(texts(infos@) =~= texts(before).push(info@));
                Self::ask_first(remaining, infos)
            },
            _ => ListingStep::Finished(Vec::new()),
        }
    }

    /// Goes on after the answer to a query: a query that the database refused
    /// ends everything, with nothing more asked.
    pub fn resume(self, answer: Result<Reply, sea_orm::DbErr>) -> (result: Result<
        ListingStep,
        Error,
    >)
        requires
            answer matches Ok(reply) ==> self@.expects(reply),
        ensures
            match resumed(answer, |reply: Reply| self@.next(reply)) {
                Ok(progress) => result matches Ok(step) && step@ == progress,
                Err(error) => result == Err::<ListingStep, Error>(error),
            },
    {
        match answer {
            Ok(reply) => Ok(self.advance(reply)),
            Err(fault) => Err(Error::DbError(fault)),
        }
    }
}

/// How a listing goes on after the lines of one station after the other.
pub open spec fn listing_after(
    start: ListingProgress,
    lines: Seq<Vec<rail_lines::Model>>,
) -> ListingProgress
    decreases lines.len(),
{
    if lines.len() == 0 {
        start
    } else {
        listing_after(start, lines.drop_last())->Ask_0.next(Reply::RailLines(lines.last()))
    }
}

/// The descriptions of the first stations, as many as there are lists of lines.
pub open spec fn described_all(
    stations: Seq<stations::Model>,
    lines: Seq<Vec<rail_lines::Model>>,
) -> Seq<StationText> {
    Seq::new(lines.len(), |i: int| crate::network::described(stations[i], lines[i]@))
}

/// A listing asks for the lines of one station after the other and, once it has
/// those of all stations, describes each station by its own lines, in the order
/// of the database.
pub proof fn law_listing_describes_every_station(
    stations: Vec<stations::Model>,
    lines: Seq<Vec<rail_lines::Model>>,
)
    requires
        lines.len() <= stations@.len(),
    ensures
        ({
            let start = Listing::AwaitStations.next(Reply::Stations(stations));
            let progress = listing_after(start, lines);
            if lines.len() == stations@.len() {
                progress == ListingProgress::Finished(described_all(stations@, lines))
            } else {
                progress matches ListingProgress::Ask(_, question) && question
                    == Question::RailLinesOf(stations@[lines.len() as int].id)
            }
        }),
{
    lemma_listing(stations, lines);
}

/// After some lists of lines, the stations that are left are asked for.
proof fn lemma_listing(stations: Vec<stations::Model>, lines: Seq<Vec<rail_lines::Model>>)
    requires
        lines.len() <= stations@.len(),
    ensures
        listing_after(Listing::AwaitStations.next(Reply::Stations(stations)), lines)
            == Listing::asking(
            stations@.skip(lines.len() as int),
            described_all(stations@, lines),
        ),
    decreases lines.len(),
{
    if lines.len() == 0 {
        assert(stations@.skip(0) =~= stations@);
        assert(described_all(stations@, lines) =~= Seq::empty());
    } else {
        let fewer = lines.drop_last();
        lemma_listing(stations, fewer);
        let left = stations@.skip(fewer.len() as int);
        assert(left.drop_first() =~= stations@.skip(lines.len() as int));
        assert(left.first() == stations@[fewer.len() as int]);
        assert(described_all(stations@, lines) =~= described_all(stations@, fewer).push(
            crate::network::described(left.first(), lines.last()@),
        ));
    }
}

/// A listing that asks something waits for just the kind of reply that answers
/// it.
pub proof fn law_listing_waits_for_the_answer(machine: Listing, reply: Reply, answer: Reply)
    requires
        machine.expects(reply),
    ensures
        machine.next(reply) matches ListingProgress::Ask(then, question) ==> question.answered_by(
            answer,
        ) == then.expects(answer),
{
}

/// A question says just what its query asks, with the same keys, texts and rows.
pub proof fn law_question_says_what_is_asked(query: Query)
    ensures
        query is AllStations <==> query@ == Question::AllStations,
        query matches Query::RailLinesOf(id) ==> query@ == Question::RailLinesOf(id),
        query matches Query::UserByEmail(email) ==> query@ == Question::UserByEmail(email@),
        query matches Query::UserStationsOf(id) ==> query@ == Question::UserStationsOf(id),
        query matches Query::StationsOf(id) ==> query@ == Question::StationsOf(id),
        query matches Query::DeleteUserStation(link) ==> query@ == Question::DeleteUserStation(
            link,
        ),
        query matches Query::DeleteUserStationsOf(id) ==> query@ == Question::DeleteUserStationsOf(
            id,
        ),
        query matches Query::DeleteUser(user) ==> query@ == Question::DeleteUser(user),
        query matches Query::InsertUser(email) ==> query@ == Question::InsertUser(email@),
        query matches Query::InsertUserStations(links) ==> query@ == Question::InsertUserStations(
            links@,
        ),
{
}

/// A step of a request asks just what it says, and has finished exactly if it
/// says so.
pub proof fn law_step_says_what_it_does<M: View>(step: Step<M>)
    ensures
        step is Finished <==> step@ == Progress::<M::V>::Finished,
        step matches Step::Ask(machine, query) ==> step@ == Progress::Ask(machine@, query@),
{
}

/// An update carries just what its state says.
pub proof fn law_update_carries_what_it_says(machine: UserStationsUpdate)
    ensures
        machine matches UserStationsUpdate::AwaitStations { names, email } ==> machine@
            == (Update::AwaitStations { names: names@, email: email@ }),
        machine matches UserStationsUpdate::AwaitUser { stations, email } ==> machine@
            == (Update::AwaitUser { stations: stations@, email: email@ }),
        machine matches UserStationsUpdate::AwaitLinks { user_id, stations } ==> machine@
            == (Update::AwaitLinks { user_id, stations: stations@ }),
        machine matches UserStationsUpdate::AwaitDeletion { user_id, stations, remaining }
            ==> machine@ == (Update::AwaitDeletion {
            user_id,
            stations: stations@,
            remaining: remaining@,
        }),
        machine matches UserStationsUpdate::AwaitSelected { user_id, stations } ==> machine@
            == (Update::AwaitSelected { user_id, stations: stations@ }),
        machine matches UserStationsUpdate::AwaitNewUser { stations } ==> machine@
            == (Update::AwaitNewUser { stations: stations@ }),
        machine is AwaitInsertion <==> machine@ is AwaitInsertion,
{
}

/// An unsubscription is its own state.
pub proof fn law_unsubscription_carries_what_it_says(machine: Unsubscription)
    ensures
        machine@ == machine,
{
}

/// A listing hands out, and carries along, one description after the other, each
/// with the name and the lines that it says.
pub proof fn law_listing_carries_what_it_says(step: ListingStep, infos: Seq<StationInfo>)
    ensures
        texts(infos).len() == infos.len(),
        forall|i: int|
            0 <= i < infos.len() ==> (#[trigger] texts(infos)[i]).name == infos[i].name@
                && texts(infos)[i].lines.len() == infos[i].lines@.len(),
        forall|i: int, j: int|
            0 <= i < infos.len() && 0 <= j < infos[i].lines@.len()
                ==> #[trigger] texts(infos)[i].lines[j] == infos[i].lines@[j]@,
        step matches ListingStep::Finished(list) ==> step@ == ListingProgress::Finished(
            texts(list@),
        ),
        step matches ListingStep::Ask(machine, query) ==> step@ == ListingProgress::Ask(
            machine@,
            query@,
        ),
        step matches ListingStep::Ask(
            StationListing::AwaitLines { station, remaining, infos: done },
            query,
        ) ==> step@->Ask_0 == (Listing::AwaitLines {
            station,
            remaining: remaining@,
            infos: texts(done@),
        }),
{
}

/// A query that was refused stops everything with the database's own objection;
/// any other answer is gone on with.
pub proof fn law_refused_query_stops_everything<P>(
    fault: sea_orm::DbErr,
    reply: Reply,
    next: spec_fn(Reply) -> P,
)
    ensures
        resumed(Err::<Reply, sea_orm::DbErr>(fault), next) == Err::<P, Error>(
            Error::DbError(fault),
        ),
        resumed(Ok::<Reply, sea_orm::DbErr>(reply), next) == Ok::<P, Error>(next(reply)),
{
}

/// A listing waits for stations, then for lines, whichever they are, and for
/// nothing else.
pub proof fn law_listing_takes_any_stations_and_lines(
    machine: Listing,
    stations: Vec<stations::Model>,
    lines: Vec<rail_lines::Model>,
    reply: Reply,
)
    ensures
        Listing::AwaitStations.expects(Reply::Stations(stations)),
        machine is AwaitLines ==> machine.expects(Reply::RailLines(lines)),
        machine is AwaitStations && machine.expects(reply) ==> reply is Stations,
        machine is AwaitLines && machine.expects(reply) ==> reply is RailLines,
{
}

/// A listing that has had the lines of every station has, for each station of
/// the database, its name and the name of every one of its lines, in the order
/// of the database; before that, it asks for the lines of the next station.
pub proof fn law_listing_has_every_line_of_every_station(
    stations: Vec<stations::Model>,
    lines: Seq<Vec<rail_lines::Model>>,
    more: Vec<rail_lines::Model>,
)
    requires
        lines.len() <= stations@.len(),
    ensures
        ({
            let start = Listing::AwaitStations.next(Reply::Stations(stations));
            let progress = listing_after(start, lines);
            if lines.len() < stations@.len() {
                &&& progress is Ask
                &&& progress->Ask_1 == Question::RailLinesOf(stations@[lines.len() as int].id)
                &&& progress->Ask_0.expects(Reply::RailLines(more))
            } else {
                let infos = progress->Finished_0;
                &&& progress is Finished
                &&& infos.len() == stations@.len()
                &&& forall|i: int|
                    0 <= i < stations@.len() ==> (#[trigger] infos[i]).name == stations@[i].name@
                        && infos[i].lines.len() == lines[i]@.len()
                &&& forall|i: int, j: int|
                    0 <= i < stations@.len() && 0 <= j < lines[i]@.len()
                        ==> #[trigger] infos[i].lines[j] == lines[i]@[j].name@
            }
        }),
{
    lemma_listing(stations, lines);
}

/// Whether a call of `advance` goes from one step to the next by the lines of a
/// station.
pub open spec fn listing_driven(
    now: ListingStep,
    lines: Vec<rail_lines::Model>,
    then: ListingStep,
) -> bool {
    &&& now is Ask
    &&& call_ensures(StationListing::advance, (now->Ask_0, Reply::RailLines(lines)), then)
}

/// Driving a listing, from the call that starts it through the stations of the
/// database and the lines of one station after the other, ends with one
/// description for every station, in the order of the database, by its name and
/// the name of every one of its lines; until then it asks for the lines of the
/// next station.
pub proof fn law_driven_listing_has_every_line_of_every_station(
    stations: Vec<stations::Model>,
    lines: Seq<Vec<rail_lines::Model>>,
    start: ListingStep,
    steps: Seq<ListingStep>,
)
    requires
        call_ensures(crate::service::get_stations, (), start),
        lines.len() <= stations@.len(),
        steps.len() == lines.len() + 1,
        start is Ask,
        call_ensures(
            StationListing::advance,
            (start->Ask_0, Reply::Stations(stations)),
            steps[0],
        ),
        forall|i: int, j: int|
            #![trigger steps[i], steps[j]]
            0 <= i && j == i + 1 && j < steps.len() ==> listing_driven(
                steps[i],
                lines[i],
                steps[j],
            ),
    ensures
        start->Ask_1 is AllStations,
        lines.len() < stations@.len() ==> steps.last() is Ask && steps.last()->Ask_1
            == Query::RailLinesOf(stations@[lines.len() as int].id),
        lines.len() == stations@.len() ==> {
            let infos = steps.last()->Finished_0@;
            &&& steps.last() is Finished
            &&& infos.len() == stations@.len()
            &&& forall|i: int|
                0 <= i < stations@.len() ==> (#[trigger] infos[i]).name@ == stations@[i].name@
                    && infos[i].lines@.len() == lines[i]@.len()
            &&& forall|i: int, j: int|
                0 <= i < stations@.len() && 0 <= j < lines[i]@.len()
                    ==> (#[trigger] infos[i].lines@[j])@ == lines[i]@[j].name@
        },
{
    lemma_driven_listing(stations, lines, steps, lines.len() as int);
    law_question_says_what_is_asked(start->Ask_1);
    assert(start@ is Ask && start@->Ask_1 is AllStations);
    assert(lines.take(lines.len() as int) =~= lines);
    lemma_listing(stations, lines);
    if lines.len() == stations@.len() {
        let infos = steps.last()->Finished_0@;
        law_listing_carries_what_it_says(steps.last(), infos);
        assert(steps.last()@ == ListingProgress::Finished(described_all(stations@, lines)));
        assert(texts(infos) == described_all(stations@, lines));
        assert forall|i: int| 0 <= i < stations@.len() implies (#[trigger] infos[i]).name@
            == stations@[i].name@ && infos[i].lines@.len() == lines[i]@.len() by {
            assert(texts(infos)[i] == crate::network::described(stations@[i], lines[i]@));
        }
        assert forall|i: int, j: int|
            0 <= i < stations@.len() && 0 <= j < lines[i]@.len() implies (
        #[trigger] infos[i].lines@[j])@ == lines[i]@[j].name@ by {
            assert(texts(infos)[i] == crate::network::described(stations@[i], lines[i]@));
            assert(infos[i].lines@.len() == lines[i]@.len());
            assert(texts(infos)[i].lines[j] == infos[i].lines@[j]@);
        }
    } else {
        assert(steps.last()@ is Ask);
        law_question_says_what_is_asked(steps.last()->Ask_1);
    }
}

/// Where a listing is after the lines of some stations.
proof fn lemma_driven_listing(
    stations: Vec<stations::Model>,
    lines: Seq<Vec<rail_lines::Model>>,
    steps: Seq<ListingStep>,
    k: int,
)
    requires
        0 <= k <= lines.len(),
        steps.len() == lines.len() + 1,
        steps[0]@ == Listing::AwaitStations.next(Reply::Stations(stations)),
        forall|i: int, j: int|
            #![trigger steps[i], steps[j]]
            0 <= i && j == i + 1 && j < steps.len() ==> listing_driven(
                steps[i],
                lines[i],
                steps[j],
            ),
    ensures
        steps[k]@ == listing_after(
            Listing::AwaitStations.next(Reply::Stations(stations)),
            lines.take(k),
        ),
    decreases k,
{
    if k > 0 {
        lemma_driven_listing(stations, lines, steps, k - 1);
        assert(listing_driven(steps[k - 1], lines[k - 1], steps[k]));
        assert(lines.take(k).drop_last() =~= lines.take(k - 1));
        assert(lines.take(k).last() == lines[k - 1]);
    }
}

/// A listing is ready for stations and then for lines, and hands on a refusal.
pub proof fn law_driven_listing_is_ready_for_each_reply(
    machine: StationListing,
    reply: Reply,
    expected: bool,
    fault: sea_orm::DbErr,
    stopped: Result<ListingStep, Error>,
    resumed: Result<ListingStep, Error>,
    advanced: ListingStep,
)
    requires
        call_ensures(StationListing::is_expecting, (&machine, &reply), expected),
        call_ensures(
            StationListing::resume,
            (machine, Err::<Reply, sea_orm::DbErr>(fault)),
            stopped,
        ),
        call_ensures(
            StationListing::resume,
            (machine, Ok::<Reply, sea_orm::DbErr>(reply)),
            resumed,
        ),
        call_ensures(StationListing::advance, (machine, reply), advanced),
    ensures
        machine is AwaitStations ==> (expected <==> reply is Stations),
        machine is AwaitLines ==> (expected <==> reply is RailLines),
        stopped == Err::<ListingStep, Error>(Error::DbError(fault)),
        resumed is Ok && resumed->Ok_0@ == advanced@,
{
}

} // verus!
