use fire_alarm_website::database::{stations, user_stations, users};
use fire_alarm_website::workflow::{Query, Reply, Step, Unsubscription, UserStationsUpdate};
use fire_alarm_website::{
    delete_user_stations_not_in_list, filter_out_stations, get_stations_from_names,
    update_user_stations, Error,
};
use sea_orm::DbErr;

fn station(id: i32, name: &str) -> stations::Model {
    stations::Model {
        id,
        name: String::from(name),
    }
}

fn link(user_id: i32, station_id: i32) -> user_stations::Model {
    user_stations::Model {
        user_id,
        station_id,
    }
}

/// Tables in memory, whose rows are fetched in the order of their keys.
struct Database {
    stations: Vec<stations::Model>,
    users: Vec<users::Model>,
    links: Vec<user_stations::Model>,
    log: Vec<String>,
}

impl Database {
    /// Stations taken from the actual WMATA network.
    fn new() -> Self {
        let mut stations = vec![
            station(44, "Herndon"),
            station(69, "Reston Town Center"),
            station(97, "Wiehle-Reston East"),
            station(79, "Spring Hill"),
            station(42, "Greensboro"),
            station(85, "Tysons"),
            station(53, "McLean"),
            station(26, "East Falls Church"),
            station(6, "Ballston-MU"),
            station(91, "Virginia Square-GMU"),
            station(15, "Clarendon"),
            station(20, "Court House"),
            station(73, "Rosslyn"),
            station(33, "Foggy Bottom-GWU"),
            station(30, "Farragut West"),
            station(54, "McPherson Square"),
        ];
        stations.sort_by_key(|station| station.id);
        Database {
            stations,
            users: Vec::new(),
            links: Vec::new(),
            log: Vec::new(),
        }
    }

    fn insert_user(&mut self, email: &str) -> users::Model {
        let id = self.users.iter().map(|user| user.id).max().unwrap_or(0) + 1;
        let user = users::Model {
            id,
            email: email.to_string(),
        };
        self.users.push(user.clone());
        user
    }

    fn insert_links(&mut self, links: Vec<user_stations::Model>) {
        for link in links {
            assert!(!self.links.contains(&link), "the link is there already");
            assert!(self.users.iter().any(|user| user.id == link.user_id));
            assert!(self.stations.iter().any(|station| station.id == link.station_id));
            self.links.push(link);
        }
        self.links.sort_by_key(|link| (link.user_id, link.station_id));
    }

    fn links_of(&self, user_id: i32) -> Vec<user_stations::Model> {
        let mut links = self.links.clone();
        links.retain(|link| link.user_id == user_id);
        links
    }

    fn stations_of(&self, user_id: i32) -> Vec<stations::Model> {
        let mut stations = self.stations.clone();
        stations.retain(|station| self.links.contains(&link(user_id, station.id)));
        stations
    }

    fn answer(&mut self, query: Query) -> Reply {
        self.log.push(format!("{query:?}"));
        match query {
            Query::AllStations => Reply::Stations(self.stations.clone()),
            Query::RailLinesOf(_) => Reply::RailLines(Vec::new()),
            Query::UserByEmail(email) => Reply::MaybeUser(
                self.users.iter().find(|user| user.email == email).cloned(),
            ),
            Query::UserStationsOf(user_id) => Reply::UserStations(self.links_of(user_id)),
            Query::StationsOf(user_id) => Reply::Stations(self.stations_of(user_id)),
            Query::DeleteUserStation(link) => {
                self.links.retain(|other| *other != link);
                Reply::Done
            }
            Query::DeleteUserStationsOf(user_id) => {
                self.links.retain(|link| link.user_id != user_id);
                Reply::Done
            }
            Query::DeleteUser(user) => {
                assert!(self.links_of(user.id).is_empty(), "links would dangle");
                self.users.retain(|other| other.id != user.id);
                Reply::Done
            }
            Query::InsertUser(email) => Reply::User(self.insert_user(&email)),
            Query::InsertUserStations(links) => {
                self.insert_links(links);
                Reply::Done
            }
        }
    }

    fn update(&mut self, names: &[String], email: &str) {
        let mut step = update_user_stations(names.to_vec(), email.to_string());
        while let Step::Ask(machine, query) = step {
            let reply = self.answer(query);
            assert!(machine.is_expecting(&reply));
            step = machine.resume(Ok(reply)).unwrap();
        }
    }

    fn unsubscribe(&mut self, email: &str) {
        let mut step = Unsubscription::start(email.to_string());
        while let Step::Ask(machine, query) = step {
            let reply = self.answer(query);
            assert!(machine.is_expecting(&reply));
            step = machine.resume(Ok(reply)).unwrap();
        }
    }
}

#[test]
fn delete_user_test() {
    let mut db = Database::new();
    let user = db.insert_user("");
    let other = db.insert_user("general.konobi@jedi.com");
    let ids = [6, 15, 26, 42, 44, 53, 69, 79, 85, 91, 97];
    db.insert_links(ids.iter().map(|id| link(user.id, *id)).collect());
    db.insert_links(vec![link(other.id, 6)]);

    db.unsubscribe("");
    assert_eq!(db.users, vec![other.clone()]);
    assert_eq!(db.links, vec![link(other.id, 6)]);
}

#[test]
fn unsubscribing_a_stranger_changes_nothing() {
    let mut db = Database::new();
    let user = db.insert_user("general.konobi@jedi.com");
    db.insert_links(vec![link(user.id, 6)]);
    db.unsubscribe("grievous@separatists.com");
    assert_eq!(db.users, vec![user.clone()]);
    assert_eq!(db.links, vec![link(user.id, 6)]);
    assert_eq!(db.log, vec!["UserByEmail(\"grievous@separatists.com\")"]);
}

#[test]
fn links_go_before_their_user() {
    let mut db = Database::new();
    let user = db.insert_user("general.konobi@jedi.com");
    db.insert_links(vec![link(user.id, 6), link(user.id, 15)]);
    db.unsubscribe("general.konobi@jedi.com");
    assert_eq!(db.log.len(), 3);
    assert_eq!(db.log[1], "DeleteUserStationsOf(1)");
    assert!(db.log[2].starts_with("DeleteUser("));
    assert!(db.users.is_empty());
    assert!(db.links.is_empty());
}

#[test]
fn get_stations_from_names_test() {
    let db = Database::new();
    let names = vec![
        "Herndon".to_string(),
        "Reston Town Center".to_string(),
        "Wiehle-Reston East".to_string(),
        "Spring Hill".to_string(),
        "Greensboro".to_string(),
        "Tysons".to_string(),
        "McLean".to_string(),
        "East Falls Church".to_string(),
        "Ballston-MU".to_string(),
        "Virginia Square-GMU".to_string(),
        "Clarendon".to_string(),
    ];
    let stations = get_stations_from_names(db.stations.clone(), &names);
    let expected = vec![
        station(6, "Ballston-MU"),
        station(15, "Clarendon"),
        station(26, "East Falls Church"),
        station(42, "Greensboro"),
        station(44, "Herndon"),
        station(53, "McLean"),
        station(69, "Reston Town Center"),
        station(79, "Spring Hill"),
        station(85, "Tysons"),
        station(91, "Virginia Square-GMU"),
        station(97, "Wiehle-Reston East"),
    ];
    assert_eq!(stations, expected);
}

#[test]
fn names_without_a_station_are_passed_over() {
    let db = Database::new();
    let names = vec!["Coruscant".to_string(), "Tysons".to_string(), "Tysons".to_string()];
    let stations = get_stations_from_names(db.stations.clone(), &names);
    assert_eq!(stations, vec![station(85, "Tysons")]);
    assert!(get_stations_from_names(db.stations.clone(), &[]).is_empty());
}

#[test]
fn filter_out_stations_test() {
    let already_selected_stations = [
        station(44, "Herndon"),
        station(69, "Reston Town Center"),
        station(97, "Wiehle-Reston East"),
        station(79, "Spring Hill"),
        station(42, "Greensboro"),
    ];
    let mut stations = vec![
        station(44, "Herndon"),
        station(69, "Reston Town Center"),
        station(97, "Wiehle-Reston East"),
        station(79, "Spring Hill"),
        station(42, "Greensboro"),
        station(85, "Tysons"),
        station(53, "McLean"),
        station(26, "East Falls Church"),
        station(6, "Ballston-MU"),
        station(91, "Virginia Square-GMU"),
        station(15, "Clarendon"),
    ];
    filter_out_stations(&mut stations, &already_selected_stations);

    let expected = [
        station(85, "Tysons"),
        station(53, "McLean"),
        station(26, "East Falls Church"),
        station(6, "Ballston-MU"),
        station(91, "Virginia Square-GMU"),
        station(15, "Clarendon"),
    ];
    assert_eq!(stations, expected);
}

#[test]
fn stations_are_filtered_out_by_key_and_name() {
    let mut stations = vec![station(1, "Tysons"), station(2, "McLean"), station(1, "McLean")];
    filter_out_stations(&mut stations, &[station(1, "McLean"), station(3, "Tysons")]);
    assert_eq!(stations, vec![station(1, "Tysons"), station(2, "McLean")]);
    filter_out_stations(&mut stations, &[]);
    assert_eq!(stations.len(), 2);
}

#[test]
fn remove_already_selected_stations_test() {
    let mut db = Database::new();
    let user = db.insert_user("");
    let already_selected_stations = [
        station(44, "Herndon"),
        station(69, "Reston Town Center"),
        station(97, "Wiehle-Reston East"),
        station(79, "Spring Hill"),
        station(42, "Greensboro"),
    ];
    db.insert_links(
        already_selected_stations.iter().map(|station| link(user.id, station.id)).collect(),
    );
    let mut stations = vec![
        station(44, "Herndon"),
        station(69, "Reston Town Center"),
        station(97, "Wiehle-Reston East"),
        station(79, "Spring Hill"),
        station(42, "Greensboro"),
        station(85, "Tysons"),
        station(53, "McLean"),
        station(26, "East Falls Church"),
        station(6, "Ballston-MU"),
        station(91, "Virginia Square-GMU"),
        station(15, "Clarendon"),
    ];
    let selected = db.stations_of(user.id);
    filter_out_stations(&mut stations, &selected);

    let expected = [
        station(85, "Tysons"),
        station(53, "McLean"),
        station(26, "East Falls Church"),
        station(6, "Ballston-MU"),
        station(91, "Virginia Square-GMU"),
        station(15, "Clarendon"),
    ];
    assert_eq!(stations, expected);
}

#[test]
fn delete_user_stations_not_in_list_test() {
    let mut db = Database::new();
    let user = db.insert_user("");
    let stations = vec![
        station(44, "Herndon"),
        station(69, "Reston Town Center"),
        station(97, "Wiehle-Reston East"),
        station(79, "Spring Hill"),
        station(42, "Greensboro"),
        station(85, "Tysons"),
        station(53, "McLean"),
        station(26, "East Falls Church"),
        station(6, "Ballston-MU"),
        station(91, "Virginia Square-GMU"),
        station(15, "Clarendon"),
    ];
    db.insert_links(stations.iter().map(|station| link(user.id, station.id)).collect());

    let expected = [
        station(42, "Greensboro"),
        station(44, "Herndon"),
        station(69, "Reston Town Center"),
        station(79, "Spring Hill"),
        station(97, "Wiehle-Reston East"),
    ];
    for doomed in delete_user_stations_not_in_list(db.links_of(user.id), &expected) {
        db.answer(Query::DeleteUserStation(doomed));
    }
    assert_eq!(db.stations_of(user.id), expected);
}

#[test]
fn delete_not_selected_user_stations_test() {
    let mut db = Database::new();
    let user = db.insert_user("");
    let stations = [
        station(44, "Herndon"),
        station(69, "Reston Town Center"),
        station(97, "Wiehle-Reston East"),
        station(79, "Spring Hill"),
        station(42, "Greensboro"),
        station(85, "Tysons"),
        station(53, "McLean"),
        station(26, "East Falls Church"),
        station(6, "Ballston-MU"),
        station(91, "Virginia Square-GMU"),
        station(15, "Clarendon"),
    ];
    db.insert_links(stations.iter().map(|station| link(user.id, station.id)).collect());
    let mut selected_stations = vec![
        station(85, "Tysons"),
        station(53, "McLean"),
        station(26, "East Falls Church"),
        station(6, "Ballston-MU"),
        station(91, "Virginia Square-GMU"),
        station(15, "Clarendon"),
    ];
    let mut expected = selected_stations.clone();
    expected.sort_by_cached_key(|station| station.id);

    for doomed in delete_user_stations_not_in_list(db.links_of(user.id), &selected_stations) {
        db.answer(Query::DeleteUserStation(doomed));
    }
    let already_selected_stations = db.stations_of(user.id);
    filter_out_stations(&mut selected_stations, &already_selected_stations);
    assert!(selected_stations.is_empty());
    assert_eq!(db.stations_of(user.id), expected);
}

#[test]
fn update_user_stations_test_new_user() {
    let mut db = Database::new();
    let stations = vec![
        "Herndon".to_string(),
        "Reston Town Center".to_string(),
        "Wiehle-Reston East".to_string(),
        "Spring Hill".to_string(),
        "Greensboro".to_string(),
        "Tysons".to_string(),
        "McLean".to_string(),
        "East Falls Church".to_string(),
        "Ballston-MU".to_string(),
        "Virginia Square-GMU".to_string(),
        "Clarendon".to_string(),
    ];
    db.update(&stations, "general.konobi@jedi.com");

    assert_eq!(db.users[0].id, 1);
    assert_eq!(db.users[0].email, "general.konobi@jedi.com");
    let expected =
        [6, 15, 26, 42, 44, 53, 69, 79, 85, 91, 97].map(|station_id| link(1, station_id));
    assert_eq!(db.links_of(1), expected);
}

/// Updates the stations of a user who is subscribed to some already, beside
/// another user whom that does not concern.
fn update_existing_user(
    starting_stations: &[stations::Model],
    stations: &[String],
) -> Vec<stations::Model> {
    let mut db = Database::new();
    let user = db.insert_user("");
    let other = db.insert_user("general.konobi@jedi.com");
    db.insert_links(starting_stations.iter().map(|station| link(user.id, station.id)).collect());
    let untouched = vec![link(other.id, 6), link(other.id, 54)];
    db.insert_links(untouched.clone());

    db.update(stations, &user.email);
    assert_eq!(db.links_of(other.id), untouched);
    assert_eq!(db.users.len(), 2);

    let links = db.links.clone();
    db.update(stations, &user.email);
    assert_eq!(db.links, links);
    db.stations_of(user.id)
}

#[test]
fn update_user_stations_test_add_stations() {
    let starting_stations = [
        station(44, "Herndon"),
        station(69, "Reston Town Center"),
        station(97, "Wiehle-Reston East"),
        station(79, "Spring Hill"),
        station(42, "Greensboro"),
    ];
    let stations = vec![
        "Herndon".to_string(),
        "Reston Town Center".to_string(),
        "Wiehle-Reston East".to_string(),
        "Spring Hill".to_string(),
        "Greensboro".to_string(),
        "Tysons".to_string(),
        "McLean".to_string(),
        "East Falls Church".to_string(),
        "Ballston-MU".to_string(),
        "Virginia Square-GMU".to_string(),
        "Clarendon".to_string(),
    ];
    let expected = [
        station(6, "Ballston-MU"),
        station(15, "Clarendon"),
        station(26, "East Falls Church"),
        station(42, "Greensboro"),
        station(44, "Herndon"),
        station(53, "McLean"),
        station(69, "Reston Town Center"),
        station(79, "Spring Hill"),
        station(85, "Tysons"),
        station(91, "Virginia Square-GMU"),
        station(97, "Wiehle-Reston East"),
    ];
    assert_eq!(stations.len(), expected.len());
    let result = update_existing_user(&starting_stations, &stations);
    assert_eq!(result, expected);
}

#[test]
fn update_user_stations_test_remove_stations() {
    let starting_stations = [
        station(44, "Herndon"),
        station(69, "Reston Town Center"),
        station(97, "Wiehle-Reston East"),
        station(79, "Spring Hill"),
        station(42, "Greensboro"),
        station(85, "Tysons"),
        station(53, "McLean"),
        station(26, "East Falls Church"),
        station(6, "Ballston-MU"),
        station(91, "Virginia Square-GMU"),
        station(15, "Clarendon"),
    ];
    let stations = vec![
        "Herndon".to_string(),
        "Reston Town Center".to_string(),
        "Wiehle-Reston East".to_string(),
        "Spring Hill".to_string(),
        "Greensboro".to_string(),
    ];
    let expected = [
        station(42, "Greensboro"),
        station(44, "Herndon"),
        station(69, "Reston Town Center"),
        station(79, "Spring Hill"),
        station(97, "Wiehle-Reston East"),
    ];
    assert_eq!(stations.len(), expected.len());
    let result = update_existing_user(&starting_stations, &stations);
    assert_eq!(result, expected);
}

#[test]
fn update_user_stations_test_add_remove_stations() {
    let starting_stations = [
        station(44, "Herndon"),
        station(69, "Reston Town Center"),
        station(97, "Wiehle-Reston East"),
        station(79, "Spring Hill"),
        station(42, "Greensboro"),
        station(85, "Tysons"),
        station(53, "McLean"),
        station(26, "East Falls Church"),
        station(6, "Ballston-MU"),
        station(91, "Virginia Square-GMU"),
        station(15, "Clarendon"),
    ];
    let stations = vec![
        "Tysons".to_string(),
        "McLean".to_string(),
        "East Falls Church".to_string(),
        "Ballston-MU".to_string(),
        "Virginia Square-GMU".to_string(),
        "Clarendon".to_string(),
        "Court House".to_string(),
        "Rosslyn".to_string(),
        "Foggy Bottom-GWU".to_string(),
        "Farragut West".to_string(),
        "McPherson Square".to_string(),
    ];
    let expected = [
        station(6, "Ballston-MU"),
        station(15, "Clarendon"),
        station(20, "Court House"),
        station(26, "East Falls Church"),
        station(30, "Farragut West"),
        station(33, "Foggy Bottom-GWU"),
        station(53, "McLean"),
        station(54, "McPherson Square"),
        station(73, "Rosslyn"),
        station(85, "Tysons"),
        station(91, "Virginia Square-GMU"),
    ];
    assert_eq!(stations.len(), expected.len());
    let result = update_existing_user(&starting_stations, &stations);
    assert_eq!(result, expected);
}

#[test]
fn update_deletes_before_it_adds() {
    let mut db = Database::new();
    let user = db.insert_user("general.konobi@jedi.com");
    db.insert_links(vec![link(user.id, 6), link(user.id, 15), link(user.id, 20)]);
    db.update(&["Clarendon".to_string(), "Tysons".to_string()], "general.konobi@jedi.com");
    assert_eq!(
        db.log,
        vec![
            "AllStations",
            "UserByEmail(\"general.konobi@jedi.com\")",
            "UserStationsOf(1)",
            "DeleteUserStation(Model { user_id: 1, station_id: 6 })",
            "DeleteUserStation(Model { user_id: 1, station_id: 20 })",
            "StationsOf(1)",
            "InsertUserStations([Model { user_id: 1, station_id: 85 }])",
        ]
    );
}

#[test]
fn update_to_no_stations_leaves_no_links() {
    let mut db = Database::new();
    let user = db.insert_user("general.konobi@jedi.com");
    db.insert_links(vec![link(user.id, 6), link(user.id, 15)]);
    db.update(&[], "general.konobi@jedi.com");
    assert!(db.links.is_empty());
    assert_eq!(db.users, vec![user.clone()]);
}

#[test]
fn machines_tell_which_reply_they_expect() {
    let machine = UserStationsUpdate::AwaitNewUser { stations: Vec::new() };
    assert!(!machine.is_expecting(&Reply::Done));
    assert!(!machine.is_expecting(&Reply::MaybeUser(None)));
    assert!(Unsubscription::AwaitUser.is_expecting(&Reply::MaybeUser(None)));
    assert!(!Unsubscription::AwaitUser.is_expecting(&Reply::Stations(Vec::new())));
}

fn names(names: &[&str]) -> Vec<String> {
    names.iter().map(|name| name.to_string()).collect()
}

#[test]
fn the_later_update_alone_decides() {
    let mut db = Database::new();
    db.update(&names(&["Tysons", "McLean"]), "general.konobi@jedi.com");
    db.update(&names(&["McLean", "Rosslyn"]), "general.konobi@jedi.com");
    let mut direct = Database::new();
    direct.update(&names(&["McLean", "Rosslyn"]), "general.konobi@jedi.com");
    assert_eq!(db.links, direct.links);
    assert_eq!(db.users, direct.users);
}

#[test]
fn order_repeats_and_unknown_names_do_not_count() {
    let mut one = Database::new();
    one.update(&names(&["Tysons", "McLean"]), "general.konobi@jedi.com");
    let mut other = Database::new();
    other.update(
        &names(&["McLean", "Coruscant", "Tysons", "McLean"]),
        "general.konobi@jedi.com",
    );
    assert_eq!(one.links, vec![link(1, 53), link(1, 85)]);
    assert_eq!(one.links, other.links);
}

#[test]
fn a_refused_query_ends_the_request() {
    let refused = || DbErr::Custom("refused".to_string());
    for stop in 0..6usize {
        let mut db = Database::new();
        let user = db.insert_user("general.konobi@jedi.com");
        let other = db.insert_user("grievous@separatists.com");
        db.insert_links(vec![link(user.id, 6), link(user.id, 15), link(other.id, 6)]);
        let mut step =
            update_user_stations(names(&["Clarendon", "Tysons"]), user.email.clone());
        for _ in 0..stop {
            if let Step::Ask(machine, query) = step {
                let reply = db.answer(query);
                step = machine.resume(Ok(reply)).unwrap();
            } else {
                panic!("finished too early");
            }
        }
        match step {
            Step::Ask(machine, _) => assert!(matches!(
                machine.resume(Err(refused())),
                Err(Error::DbError(DbErr::Custom(reason))) if reason == "refused"
            )),
            Step::Finished => panic!("finished too early"),
        }
        assert!(db.links.contains(&link(user.id, 15)));
        assert_eq!(db.links_of(other.id), vec![link(other.id, 6)]);
        assert_eq!(db.users.len(), 2);
    }
    match Unsubscription::start("general.konobi@jedi.com".to_string()) {
        Step::Ask(machine, _) => assert!(matches!(
            machine.resume(Err(refused())),
            Err(Error::DbError(_))
        )),
        Step::Finished => panic!("nothing was asked"),
    }
}

#[test]
fn an_address_that_others_share_does_not_matter() {
    let mut db = Database::new();
    for _ in 0..2 {
        let twin = db.insert_user("clone@kamino.com");
        db.insert_links(vec![link(twin.id, 6)]);
    }
    let twins = db.links.clone();
    db.update(&names(&["Tysons"]), "general.konobi@jedi.com");
    db.update(&names(&["McLean"]), "general.konobi@jedi.com");
    assert_eq!(db.links_of(3), vec![link(3, 53)]);
    db.unsubscribe("general.konobi@jedi.com");
    assert_eq!(db.links, twins);
    assert_eq!(db.users.len(), 2);
}
