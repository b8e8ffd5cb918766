use fire_alarm_website::database::{rail_lines, stations};
use fire_alarm_website::workflow::{ListingStep, Query, Reply};
use fire_alarm_website::{
    clamp_conversion, get_lines, get_stations, Error, LineInfo, StationInfo,
};
use sea_orm::DbErr;

fn line(name: &str, red: i16, green: i16, blue: i16) -> rail_lines::Model {
    rail_lines::Model {
        name: name.to_string(),
        red,
        green,
        blue,
    }
}

#[test]
fn color_parts_are_clamped() {
    assert_eq!(clamp_conversion(-1), 0);
    assert_eq!(clamp_conversion(i16::MIN), 0);
    assert_eq!(clamp_conversion(0), 0);
    assert_eq!(clamp_conversion(128), 128);
    assert_eq!(clamp_conversion(255), 255);
    assert_eq!(clamp_conversion(256), 255);
    assert_eq!(clamp_conversion(i16::MAX), 255);
}

#[test]
fn lines_are_shown_in_order() {
    let infos =
        get_lines(Ok(vec![line("Silver", 161, 165, 163), line("Red", 300, -4, 56)])).unwrap();
    assert_eq!(
        infos,
        vec![
            LineInfo {
                name: "Silver".to_string(),
                red: 161,
                green: 165,
                blue: 163,
            },
            LineInfo {
                name: "Red".to_string(),
                red: 255,
                green: 0,
                blue: 56,
            },
        ]
    );
    assert_eq!(
        LineInfo::from(line("Blue", 0, 150, 1000)),
        LineInfo {
            name: "Blue".to_string(),
            red: 0,
            green: 150,
            blue: 255,
        }
    );
}

/// Lists the stations of a network with the given lines.
fn list(network: &[(i32, &str, Vec<&str>)]) -> Vec<StationInfo> {
    let mut step = get_stations();
    loop {
        match step {
            ListingStep::Ask(machine, query) => {
                let reply = match query {
                    Query::AllStations => Reply::Stations(
                        network
                            .iter()
                            .map(|(id, name, _)| stations::Model {
                                id: *id,
                                name: name.to_string(),
                            })
                            .collect(),
                    ),
                    Query::RailLinesOf(id) => Reply::RailLines(
                        network
                            .iter()
                            .find(|station| station.0 == id)
                            .unwrap()
                            .2
                            .iter()
                            .map(|name| line(name, 0, 0, 0))
                            .collect(),
                    ),
                    other => panic!("unexpected {other:?}"),
                };
                assert!(machine.is_expecting(&reply));
                assert!(!machine.is_expecting(&Reply::Done));
                step = machine.resume(Ok(reply)).unwrap();
            }
            ListingStep::Finished(infos) => return infos,
        }
    }
}

#[test]
fn stations_are_listed_with_their_lines() {
    let infos = list(&[
        (6, "Ballston-MU", vec!["Orange", "Silver"]),
        (44, "Herndon", vec!["Silver"]),
        (99, "Nowhere", vec![]),
    ]);
    let info = |name: &str, lines: &[&str]| StationInfo {
        name: name.to_string(),
        lines: lines.iter().map(|line| line.to_string()).collect(),
    };
    assert_eq!(
        infos,
        vec![
            info("Ballston-MU", &["Orange", "Silver"]),
            info("Herndon", &["Silver"]),
            info("Nowhere", &[]),
        ]
    );
    assert!(list(&[]).is_empty());
}

#[test]
fn a_refused_fetch_is_an_error() {
    let refused = || DbErr::Custom("refused".to_string());
    assert!(matches!(
        get_lines(Err(refused())),
        Err(Error::DbError(DbErr::Custom(reason))) if reason == "refused"
    ));
    match get_stations() {
        ListingStep::Ask(machine, _) => assert!(matches!(
            machine.resume(Err(refused())),
            Err(Error::DbError(DbErr::Custom(reason))) if reason == "refused"
        )),
        ListingStep::Finished(_) => panic!("nothing was asked"),
    }
}
