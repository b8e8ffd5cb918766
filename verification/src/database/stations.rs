//! Stations of the network.

use vstd::prelude::*;

verus! {

/// A station: its key and its name.
#[derive(Clone, Debug)]
pub struct Model {
    /// The key of the station.
    pub id: i32,
    /// What the station is called.
    pub name: String,
}

/// What a station's row says.
pub struct Row {
    /// The key of the station.
    pub id: i32,
    /// What the station is called.
    pub name: Seq<char>,
}

impl View for Model {
    type V = Row;

    open spec fn view(&self) -> Row {
        Row { id: self.id, name: self.name@ }
    }
}

/// What a list of stations says.
pub open spec fn rows(models: Seq<Model>) -> Seq<Row> {
    models.map_values(|model: Model| model@)
}

impl PartialEq for Model {
    fn eq(&self, other: &Self) -> (equal: bool) {
        self.id == other.id && self.name == other.name
    }
}

impl vstd::std_specs::cmp::PartialEqSpecImpl for Model {
    open spec fn obeys_eq_spec() -> bool {
        true
    }

    open spec fn eq_spec(&self, other: &Self) -> bool {
        self@ == other@
    }
}

impl Eq for Model {

}

/// A row has the key and the name of the station and nothing else, and stations
/// are equal exactly if both agree.
pub proof fn law_stations_are_told_apart_by_key_and_name(a: Model, b: Model)
    ensures
        a@.id == a.id,
        a@.name == a.name@,
        a@ == b@ <==> a.id == b.id && a.name@ == b.name@,
        vstd::std_specs::cmp::PartialEqSpec::eq_spec(&a, &b) <==> a.id == b.id && a.name@
            == b.name@,
{
}

/// The rows of a list are those of its stations, in the same order.
pub proof fn law_rows_follow_the_list(models: Seq<Model>)
    ensures
        rows(models).len() == models.len(),
        forall|i: int|
            0 <= i < models.len() ==> (#[trigger] rows(models)[i]).id == models[i].id
                && rows(models)[i].name == models[i].name@,
{
}

} // verus!
