//! What the requests do to the database, told by the contents of its tables.

use crate::database::{stations, user_stations, users};
use crate::selection;
use crate::workflow::{Progress, Question, Reply};
use vstd::prelude::*;

pub mod unsubscription;
pub mod update;

verus! {

/// The contents of the tables that requests read and write.
#[verifier::ext_equal]
pub struct Tables {
    /// The stations of the network.
    pub stations: Set<stations::Row>,
    /// The users of the service.
    pub users: Set<users::Row>,
    /// Which user is subscribed to which station.
    pub links: Set<user_stations::Model>,
}

impl Tables {
    /// Stations and users have keys, and every link leads from a user to a
    /// station.
    pub open spec fn valid(self) -> bool {
        &&& forall|a: stations::Row, b: stations::Row| #[trigger]
            self.stations.contains(a) && #[trigger] self.stations.contains(b) && a.id == b.id ==> a
                == b
        &&& forall|a: users::Row, b: users::Row| #[trigger]
            self.users.contains(a) && #[trigger] self.users.contains(b) && a.id == b.id ==> a == b
        &&& forall|link: user_stations::Model| #[trigger]
            self.links.contains(link) ==> self.has_user(link.user_id) && self.has_station(
                link.station_id,
            )
    }

    /// Whether there is a user with this key.
    pub open spec fn has_user(self, id: i32) -> bool {
        exists|user: users::Row| #[trigger] self.users.contains(user) && user.id == id
    }

    /// Whether there is a station with this key.
    pub open spec fn has_station(self, id: i32) -> bool {
        exists|row: stations::Row| #[trigger] self.stations.contains(row) && row.id == id
    }

    /// Whether a list of stations has exactly the rows that `chosen` picks,
    /// each once.
    pub open spec fn lists(
        self,
        models: Seq<stations::Model>,
        chosen: spec_fn(stations::Row) -> bool,
    ) -> bool {
        &&& stations::rows(models).no_duplicates()
        &&& forall|row: stations::Row| #[trigger]
            stations::rows(models).contains(row) <==> self.stations.contains(row) && chosen(row)
    }

    /// Whether the database, with these contents, may give `reply` to
    /// `question` and have the contents `after` afterwards. Fetched rows come
    /// in any order.
    pub open spec fn answers(self, question: Question, reply: Reply, after: Tables) -> bool {
        match question {
            Question::AllStations => {
                &&& after == self
                &&& reply matches Reply::Stations(models) && self.lists(
                    models@,
                    |row: stations::Row| true,
                )
            },
            Question::RailLinesOf(_) => after == self && reply is RailLines,
            Question::UserByEmail(email) => {
                &&& after == self
                &&& reply matches Reply::MaybeUser(found) && match found {
                    Some(user) => self.users.contains(user@) && user.email@ == email,
                    None => !self.knows(email),
                }
            },
            Question::UserStationsOf(id) => {
                &&& after == self
                &&& reply matches Reply::UserStations(links) && links@.no_duplicates() && (forall|
                    link: user_stations::Model,
                | #[trigger]
                    links@.contains(link) <==> self.links.contains(link) && link.user_id == id)
            },
            Question::StationsOf(id) => {
                &&& after == self
                &&& reply matches Reply::Stations(models) && self.lists(
                    models@,
                    |row: stations::Row|
                        self.links.contains(
                            user_stations::Model { user_id: id, station_id: row.id },
                        ),
                )
            },
            Question::DeleteUserStation(link) => {
                &&& reply is Done
                &&& after == (Tables { links: self.links.remove(link), ..self })
            },
            Question::DeleteUserStationsOf(id) => {
                &&& reply is Done
                &&& after == self.without_links_of(id)
            },
            Question::DeleteUser(user) => {
                &&& reply is Done
                &&& after == self.without_user(user.id)
            },
            Question::InsertUser(email) => reply matches Reply::User(user) && {
                &&& user.email@ == email
                &&& !self.has_user(user.id)
                &&& after == (Tables { users: self.users.insert(user@), ..self })
            },
            Question::InsertUserStations(links) => {
                &&& reply is Done
                &&& after == (Tables { links: self.links.union(links.to_set()), ..self })
            },
        }
    }

    /// Whether there is a user with this email address.
    pub open spec fn knows(self, email: Seq<char>) -> bool {
        exists|user: users::Row| #[trigger] self.users.contains(user) && user.email == email
    }

    /// The contents without the links of a user.
    pub open spec fn without_links_of(self, id: i32) -> Tables {
        Tables {
            links: self.links.filter(|link: user_stations::Model| link.user_id != id),
            ..self
        }
    }

    /// The contents without a user.
    pub open spec fn without_user(self, id: i32) -> Tables {
        Tables { users: self.users.filter(|user: users::Row| user.id != id), ..self }
    }

    /// Whether the database takes these links without a conflict: they are new,
    /// none comes twice, and each leads from a user to a station.
    pub open spec fn takes(self, links: Seq<user_stations::Model>) -> bool {
        &&& links.no_duplicates()
        &&& forall|link: user_stations::Model| #[trigger]
            links.contains(link) ==> !self.links.contains(link) && self.has_user(link.user_id)
                && self.has_station(link.station_id)
    }

    /// Whether a link leads to a station that was named.
    pub open spec fn wanted(self, names: Seq<String>, link: user_stations::Model) -> bool {
        exists|row: stations::Row|
            {
                &&& #[trigger] self.stations.contains(row)
                &&& selection::named(names, row)
                &&& row.id == link.station_id
            }
    }

    /// Whether `after` is what a subscription to the stations called `names`
    /// makes of these contents: `user`, who is added if nobody has the email
    /// address, is linked to exactly the stations of these names, and nothing
    /// else has changed.
    pub open spec fn subscribed(
        self,
        names: Seq<String>,
        email: Seq<char>,
        user: users::Row,
        after: Tables,
    ) -> bool {
        &&& user.email == email
        &&& after.stations == self.stations
        &&& if self.knows(email) {
            self.users.contains(user) && after.users == self.users
        } else {
            !self.has_user(user.id) && after.users == self.users.insert(user)
        }
        &&& forall|link: user_stations::Model| #[trigger]
            after.links.contains(link) <==> if link.user_id == user.id {
                self.wanted(names, link)
            } else {
                self.links.contains(link)
            }
    }

    /// Whether `after` is what an unsubscription makes of these contents: a
    /// user with the email address is gone along with all of their links, if
    /// there was one, and nothing else has changed.
    pub open spec fn unsubscribed(self, email: Seq<char>, after: Tables) -> bool {
        if self.knows(email) {
            exists|user: users::Row|
                {
                    &&& #[trigger] self.users.contains(user)
                    &&& user.email == email
                    &&& after == self.without_links_of(user.id).without_user(user.id)
                }
        } else {
            after == self
        }
    }

    /// The keys of the stations that the user with an email address is linked
    /// to.
    pub open spec fn stations_of(self, email: Seq<char>) -> Set<i32> {
        Set::new(
            |id: i32|
                exists|user: users::Row|
                    {
                        &&& #[trigger] self.users.contains(user)
                        &&& user.email == email
                        &&& self.links.contains(
                            user_stations::Model { user_id: user.id, station_id: id },
                        )
                    },
        )
    }

    /// Whether `now` has left alone what a change for one email address is
    /// nothing to: the stations, every other user, and the links of every other
    /// user.
    pub open spec fn kept_for_others(self, email: Seq<char>, now: Tables) -> bool {
        &&& now.stations == self.stations
        &&& forall|user: users::Row|
            user.email != email ==> (#[trigger] now.users.contains(user)
                <==> self.users.contains(user))
        &&& forall|user: users::Row, link: user_stations::Model|
            #[trigger] self.users.contains(user) && user.email != email && link.user_id == user.id
                ==> (#[trigger] now.links.contains(link) <==> self.links.contains(link))
    }

    /// Whether no two users share this email address.
    pub open spec fn unshared(self, email: Seq<char>) -> bool {
        forall|a: users::Row, b: users::Row| #[trigger]
            self.users.contains(a) && #[trigger] self.users.contains(b) && a.email == email
                && b.email == email ==> a == b
    }
}

/// A machine of some request, together with the contents of the tables.
pub struct Moment<S> {
    /// How the machine goes on.
    pub progress: Progress<S>,
    /// What the tables hold at the time.
    pub tables: Tables,
}

/// The database does what it is asked and no more: what only reads changes
/// nothing, a deletion takes out just the rows it is about, and an addition puts
/// in just the rows it is about.
pub proof fn law_database_does_just_what_is_asked(
    before: Tables,
    question: Question,
    reply: Reply,
    after: Tables,
)
    requires
        before.answers(question, reply, after),
    ensures
        after.stations == before.stations,
        question is AllStations || question is RailLinesOf || question is UserByEmail || question
            is UserStationsOf || question is StationsOf ==> after == before,
        question is DeleteUserStation || question is DeleteUserStationsOf || question
            is InsertUserStations ==> after.users == before.users,
        question is DeleteUser || question is InsertUser ==> after.links == before.links,
        question matches Question::DeleteUserStation(gone) ==> forall|link: user_stations::Model|
            #[trigger]
            after.links.contains(link) <==> before.links.contains(link) && link != gone,
        question matches Question::DeleteUserStationsOf(id) ==> forall|link: user_stations::Model|
            #[trigger]
            after.links.contains(link) <==> before.links.contains(link) && link.user_id != id,
        question matches Question::DeleteUser(gone) ==> forall|user: users::Row| #[trigger]
            after.users.contains(user) <==> before.users.contains(user) && user.id != gone.id,
        question matches Question::InsertUser(email) ==> reply is User && reply->User_0.email@
            == email && forall|user: users::Row| #[trigger]
            after.users.contains(user) <==> before.users.contains(user) || (user.id
                == reply->User_0.id && user.email == email),
        question matches Question::InsertUserStations(links) ==> forall|
            link: user_stations::Model,
        | #[trigger]
            after.links.contains(link) <==> before.links.contains(link) || links.contains(link),
{
    if let Question::InsertUserStations(links) = question {
        assert forall|link: user_stations::Model| #[trigger] after.links.contains(link)
            <==> before.links.contains(link) || links.contains(link) by {
            assert(links.to_set().contains(link) <==> links.contains(link));
        }
    }
    if let Question::InsertUser(email) = question {
        assert forall|user: users::Row| #[trigger] after.users.contains(user)
            <==> before.users.contains(user) || (user.id == reply->User_0.id && user.email
            == email) by {
            if user.id == reply->User_0.id && user.email == email {
                assert(user == reply->User_0@);
            }
        }
    }
}

} // verus!
