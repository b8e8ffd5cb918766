//! Which stations a subscription asks for, and what that changes.

use crate::database::{stations, user_stations};
use vstd::prelude::*;

verus! {

/// Whether a station of that row is among `names`.
pub open spec fn named(names: Seq<String>, row: stations::Row) -> bool {
    exists|i: int| 0 <= i < names.len() && (#[trigger] names[i])@ == row.name
}

/// Whether `name` is among `names`.
fn contains_name(names: &[String], name: &String) -> (found: bool)
    ensures
        found == exists|i: int| 0 <= i < names@.len() && (#[trigger] names@[i])@ == name@,
{
    let mut i: usize = 0;
    while i < names.len()
        invariant
            i <= names@.len(),
            forall|k: int| 0 <= k < i ==> (#[trigger] names@[k])@ != name@,
        decreases names@.len() - i,
    {
        if names[i] == *name {
            return true;
        }
        i += 1;
    }
    false
}

/// Picks the stations from the list of names given, in the order in which the
/// database lists them.
pub fn get_stations_from_names(all: Vec<stations::Model>, names: &[String]) -> (picked: Vec<
    stations::Model,
>)
    ensures
        picked@ == all@.filter(|station: stations::Model| named(names@, station@)),
{
    let ghost wanted = |station: stations::Model| named(names@, station@);
    let mut picked: Vec<stations::Model> = Vec::new();
    let ghost whole = all@;
    for station in rows: all
        invariant
            rows.seq() == whole,
            picked@ == whole.take(rows.index() as int).filter(wanted),
            wanted == |station: stations::Model| named(names@, station@),
    {
        proof {
            reveal(Seq::filter);
            assert(whole.take(rows.index() + 1).drop_last() =~= whole.take(rows.index() as int));
        }
        if contains_name(names, &station.name) {
            picked.push(station);
        }
    }
    assert(whole.take(whole.len() as int) =~= whole);
    picked
}

/// Whether a station of that row is in `list`.
pub open spec fn listed(list: Seq<stations::Model>, row: stations::Row) -> bool {
    exists|i: int| 0 <= i < list.len() && (#[trigger] list[i])@ == row
}

/// Whether `station` is in `list`.
fn contains_station(list: &[stations::Model], station: &stations::Model) -> (found: bool)
    ensures
        found == listed(list@, station@),
{
    let mut i: usize = 0;
    while i < list.len()
        invariant
            i <= list@.len(),
            forall|k: int| 0 <= k < i ==> (#[trigger] list@[k])@ != station@,
        decreases list@.len() - i,
    {
        if list[i] == *station {
            return true;
        }
        i += 1;
    }
    false
}

/// Removes from `stations` any that are in `already_selected_stations`
pub fn filter_out_stations(
    stations: &mut Vec<stations::Model>,
    already_selected_stations: &[stations::Model],
)
    ensures
        final(stations)@ == old(stations)@.filter(
            |station: stations::Model| !listed(already_selected_stations@, station@),
        ),
{
    let ghost fresh = |station: stations::Model| !listed(already_selected_stations@, station@);
    let ghost whole = stations@;
    let mut all: Vec<stations::Model> = Vec::new();
    core::mem::swap(stations, &mut all);
    for station in rows: all
        invariant
            rows.seq() == whole,
            stations@ == whole.take(rows.index() as int).filter(fresh),
            fresh == |station: stations::Model| !listed(already_selected_stations@, station@),
    {
        proof {
            reveal(Seq::filter);
            assert(whole.take(rows.index() + 1).drop_last() =~= whole.take(rows.index() as int));
        }
        if !contains_station(already_selected_stations, &station) {
            stations.push(station);
        }
    }
    assert(whole.take(whole.len() as int) =~= whole);
}

/// Whether `link` leads to a station in `list`.
pub open spec fn leads_into(list: Seq<stations::Model>, link: user_stations::Model) -> bool {
    exists|i: int| 0 <= i < list.len() && (#[trigger] list[i]).id == link.station_id
}

/// Whether a station with the key `id` is in `list`.
fn contains_id(list: &[stations::Model], id: i32) -> (found: bool)
    ensures
        found == exists|i: int| 0 <= i < list@.len() && (#[trigger] list@[i]).id == id,
{
    let mut i: usize = 0;
    while i < list.len()
        invariant
            i <= list@.len(),
            forall|k: int| 0 <= k < i ==> (#[trigger] list@[k]).id != id,
        decreases list@.len() - i,
    {
        if list[i].id == id {
            return true;
        }
        i += 1;
    }
    false
}

/// Picks, from the links of a user, those to stations not in the list: the ones
/// to delete.
pub fn delete_user_stations_not_in_list(
    user_stations: Vec<user_stations::Model>,
    stations: &[stations::Model],
) -> (doomed: Vec<user_stations::Model>)
    ensures
        doomed@ == user_stations@.filter(
            |link: user_stations::Model| !leads_into(stations@, link),
        ),
{
    let ghost unwanted = |link: user_stations::Model| !leads_into(stations@, link);
    let ghost whole = user_stations@;
    let mut doomed: Vec<user_stations::Model> = Vec::new();
    for user_station in rows: user_stations
        invariant
            rows.seq() == whole,
            doomed@ == whole.take(rows.index() as int).filter(unwanted),
            unwanted == |link: user_stations::Model| !leads_into(stations@, link),
    {
        proof {
            reveal(Seq::filter);
            assert(whole.take(rows.index() + 1).drop_last() =~= whole.take(rows.index() as int));
        }
        if !contains_id(stations, user_station.station_id) {
            doomed.push(user_station);
        }
    }
    assert(whole.take(whole.len() as int) =~= whole);
    doomed
}

/// The links from a user to each station of a list.
pub open spec fn links_to(user_id: i32, list: Seq<stations::Model>) -> Seq<user_stations::Model> {
    list.map_values(
        |station: stations::Model|
            (user_stations::Model { user_id, station_id: station.id }),
    )
}

/// Links a user to each station of a list.
pub fn link_stations(user_id: i32, stations: Vec<stations::Model>) -> (links: Vec<
    user_stations::Model,
>)
    ensures
        links@ == links_to(user_id, stations@),
{
    let ghost whole = stations@;
    let mut links: Vec<user_stations::Model> = Vec::new();
    for station in rows: stations
        invariant
            rows.seq() == whole,
            links@ == links_to(user_id, whole.take(rows.index() as int)),
    {
        links.push(user_stations::Model { user_id, station_id: station.id });
        assert(links@ =~= links_to(user_id, whole.take(rows.index() + 1)));
    }
    assert(whole.take(whole.len() as int) =~= whole);
    links
}

/// A station is named exactly if its name equals an entry of the list, at
/// whatever position.
pub proof fn law_every_entry_names_its_station(names: Seq<String>, row: stations::Row)
    ensures
        forall|i: int| 0 <= i < names.len() && (#[trigger] names[i])@ == row.name ==> named(
            names,
            row,
        ),
        (forall|i: int| 0 <= i < names.len() ==> (#[trigger] names[i])@ != row.name) ==> !named(
            names,
            row,
        ),
{
}

/// More names, before or after, never take a station off the list.
pub proof fn law_more_names_take_no_station_off(
    names: Seq<String>,
    more: Seq<String>,
    row: stations::Row,
)
    ensures
        named(names + more, row) <==> named(names, row) || named(more, row),
        named(more + names, row) <==> named(names + more, row),
{
    let both = names + more;
    let swapped = more + names;
    if named(names, row) {
        let i = choose|i: int| 0 <= i < names.len() && (#[trigger] names[i])@ == row.name;
        assert(both[i]@ == row.name);
        assert(swapped[more.len() + i]@ == row.name);
    }
    if named(more, row) {
        let i = choose|i: int| 0 <= i < more.len() && (#[trigger] more[i])@ == row.name;
        assert(both[names.len() + i]@ == row.name);
        assert(swapped[i]@ == row.name);
    }
    if named(both, row) {
        let i = choose|i: int| 0 <= i < both.len() && (#[trigger] both[i])@ == row.name;
        if i < names.len() {
            assert(names[i]@ == row.name);
        } else {
            assert(more[i - names.len()]@ == row.name);
        }
    }
    if named(swapped, row) {
        let i = choose|i: int| 0 <= i < swapped.len() && (#[trigger] swapped[i])@ == row.name;
        if i < more.len() {
            assert(more[i]@ == row.name);
        } else {
            assert(names[i - more.len()]@ == row.name);
        }
    }
}

/// Which stations are picked: those, and only those, whose name equals an entry
/// of the list.
pub proof fn law_picked_stations_are_the_named_ones(
    all: Seq<stations::Model>,
    names: Seq<String>,
    station: stations::Model,
)
    ensures
        all.filter(|station: stations::Model| named(names, station@)).contains(station)
            <==> all.contains(station) && exists|i: int|
            0 <= i < names.len() && (#[trigger] names[i])@ == station.name@,
{
    crate::tables::update::lemma_filter(
        all,
        |station: stations::Model| named(names, station@),
    );
}

/// Which stations are left after filtering: those that agree with no station of
/// the list in both key and name.
pub proof fn law_left_stations_are_in_no_entry(
    stations: Seq<stations::Model>,
    selected: Seq<stations::Model>,
    station: stations::Model,
)
    ensures
        stations.filter(|station: stations::Model| !listed(selected, station@)).contains(station)
            <==> stations.contains(station) && forall|i: int|
            0 <= i < selected.len() ==> (#[trigger] selected[i]).id != station.id
                || selected[i].name@ != station.name@,
{
    crate::tables::update::lemma_filter(
        stations,
        |station: stations::Model| !listed(selected, station@),
    );
    if forall|i: int|
        0 <= i < selected.len() ==> (#[trigger] selected[i]).id != station.id
            || selected[i].name@ != station.name@ {
        assert(!listed(selected, station@));
    }
    if !listed(selected, station@) {
        assert forall|i: int| 0 <= i < selected.len() implies (#[trigger] selected[i]).id
            != station.id || selected[i].name@ != station.name@ by {
            assert(selected[i]@ != station@);
        }
    }
}

/// Which links are to be deleted: those whose station has the key of none in the
/// list.
pub proof fn law_doomed_links_lead_to_no_entry(
    links: Seq<user_stations::Model>,
    stations: Seq<stations::Model>,
    link: user_stations::Model,
)
    ensures
        links.filter(|link: user_stations::Model| !leads_into(stations, link)).contains(link)
            <==> links.contains(link) && forall|i: int|
            0 <= i < stations.len() ==> (#[trigger] stations[i]).id != link.station_id,
{
    crate::tables::update::lemma_filter(
        links,
        |link: user_stations::Model| !leads_into(stations, link),
    );
}

/// A user is linked to each station of a list, in its order.
pub proof fn law_each_station_is_linked(user_id: i32, list: Seq<stations::Model>)
    ensures
        links_to(user_id, list).len() == list.len(),
        forall|i: int|
            0 <= i < list.len() ==> (#[trigger] links_to(user_id, list)[i]).user_id == user_id
                && links_to(user_id, list)[i].station_id == list[i].id,
{
}

/// Picking by name gives just the stations whose name equals an entry of the
/// list.
pub proof fn law_picking_gives_just_the_named_stations(
    all: Vec<stations::Model>,
    names: &[String],
    picked: Vec<stations::Model>,
    station: stations::Model,
)
    requires
        call_ensures(get_stations_from_names, (all, names), picked),
    ensures
        picked@.contains(station) <==> all@.contains(station) && exists|i: int|
            0 <= i < names@.len() && (#[trigger] names@[i])@ == station.name@,
        all@.no_duplicates() ==> picked@.no_duplicates(),
{
    law_picked_stations_are_the_named_ones(all@, names@, station);
    if all@.no_duplicates() {
        lemma_filter_keeps_distinct(all@, |station: stations::Model| named(names@, station@));
    }
}

/// Filtering out leaves just the stations that agree with no entry of the list.
pub proof fn law_filtering_leaves_just_the_others(
    stations: &mut Vec<stations::Model>,
    selected: &[stations::Model],
    station: stations::Model,
)
    requires
        call_ensures(filter_out_stations, (stations, selected), ()),
    ensures
        final(stations)@.contains(station) <==> old(stations)@.contains(station) && forall|i: int|
            0 <= i < selected@.len() ==> (#[trigger] selected@[i]).id != station.id
                || selected@[i].name@ != station.name@,
        old(stations)@.no_duplicates() ==> final(stations)@.no_duplicates(),
{
    law_left_stations_are_in_no_entry(old(stations)@, selected@, station);
    if old(stations)@.no_duplicates() {
        lemma_filter_keeps_distinct(
            old(stations)@,
            |station: stations::Model| !listed(selected@, station@),
        );
    }
}

/// The links to delete are just those to stations that are not in the list.
pub proof fn law_deletion_takes_just_the_unlisted(
    links: Vec<user_stations::Model>,
    stations: &[stations::Model],
    doomed: Vec<user_stations::Model>,
    link: user_stations::Model,
)
    requires
        call_ensures(delete_user_stations_not_in_list, (links, stations), doomed),
    ensures
        doomed@.contains(link) <==> links@.contains(link) && forall|i: int|
            0 <= i < stations@.len() ==> (#[trigger] stations@[i]).id != link.station_id,
        links@.no_duplicates() ==> doomed@.no_duplicates(),
{
    law_doomed_links_lead_to_no_entry(links@, stations@, link);
    if links@.no_duplicates() {
        lemma_filter_keeps_distinct(
            links@,
            |link: user_stations::Model| !leads_into(stations@, link),
        );
    }
}

/// Linking gives one link for each station, from the user to it.
pub proof fn law_linking_links_each_station(
    user_id: i32,
    stations: Vec<stations::Model>,
    links: Vec<user_stations::Model>,
)
    requires
        call_ensures(link_stations, (user_id, stations), links),
    ensures
        links@.len() == stations@.len(),
        forall|i: int|
            0 <= i < stations@.len() ==> (#[trigger] links@[i]).user_id == user_id
                && links@[i].station_id == stations@[i].id,
{
}

/// Filtering makes no duplicates.
proof fn lemma_filter_keeps_distinct<A>(s: Seq<A>, keep: spec_fn(A) -> bool)
    requires
        s.no_duplicates(),
    ensures
        s.filter(keep).no_duplicates(),
    decreases s.len(),
{
    reveal(Seq::filter);
    if s.len() > 0 {
        let rest = s.drop_last();
        lemma_filter_keeps_distinct(rest, keep);
        crate::tables::update::lemma_filter(rest, keep);
        if keep(s.last()) && rest.filter(keep).contains(s.last()) {
            assert(rest.contains(s.last()));
            let k = choose|k: int| 0 <= k < rest.len() && rest[k] == s.last();
            assert(s[k] == s[s.len() - 1]);
        }
    }
}

} // verus!
