//! What the website tells its visitors about the rail network.

use crate::database::{rail_lines, stations};
use crate::error::Error;
use vstd::prelude::*;

verus! {

/// A rail line as it is shown: its name and its color.
#[derive(Debug, PartialEq, Eq)]
pub struct LineInfo {
    /// What the line is called.
    pub name: String,
    /// The red part of its color.
    pub red: u8,
    /// The green part of its color.
    pub green: u8,
    /// The blue part of its color.
    pub blue: u8,
}

/// The value in the range of a color part that is nearest to `value`.
pub open spec fn clamped(value: i16) -> u8 {
    if value < 0 {
        0
    } else if value > 255 {
        255
    } else {
        value as u8
    }
}

/// The value in the range of a color part that is nearest to `value`.
pub fn clamp_conversion(value: i16) -> (part: u8)
    ensures
        part == clamped(value),
{
    if value < 0 {
        0
    } else if value > 255 {
        255
    } else {
        value as u8
    }
}

impl From<rail_lines::Model> for LineInfo {
    fn from(value: rail_lines::Model) -> (info: Self) {
        LineInfo {
            name: value.name,
            red: clamp_conversion(value.red),
            green: clamp_conversion(value.green),
            blue: clamp_conversion(value.blue),
        }
    }
}

/// A line as the database has it, shown.
pub open spec fn shown(line: rail_lines::Model) -> LineInfo {
    LineInfo {
        name: line.name,
        red: clamped(line.red),
        green: clamped(line.green),
        blue: clamped(line.blue),
    }
}

impl vstd::std_specs::convert::FromSpecImpl<rail_lines::Model> for LineInfo {
    open spec fn obeys_from_spec() -> bool {
        true
    }

    open spec fn from_spec(value: rail_lines::Model) -> Self {
        shown(value)
    }
}

/// Lists the rail lines on the network, in the order in which they were fetched;
/// where the database refused that, its own objection is the error.
pub fn get_lines(fetched: Result<Vec<rail_lines::Model>, sea_orm::DbErr>) -> (infos: Result<
    Vec<LineInfo>,
    Error,
>)
    ensures
        match fetched {
            Ok(lines) => infos matches Ok(infos) && infos@ == lines@.map_values(
                |line: rail_lines::Model| shown(line),
            ) && (forall|i: int|
                0 <= i < lines@.len() ==> (#[trigger] infos@[i]).name == lines@[i].name),
            Err(fault) => infos == Err::<Vec<LineInfo>, Error>(Error::DbError(fault)),
        },
{
    let lines = match fetched {
        Ok(lines) => lines,
        Err(fault) => return Err(Error::DbError(fault)),
    };
    let ghost whole = lines@;
    let mut infos: Vec<LineInfo> = Vec::new();
    for line in rows: lines
        invariant
            rows.seq() == whole,
            infos@.len() == rows.index(),
            forall|i: int| 0 <= i < rows.index() ==> #[trigger] infos@[i] == shown(whole[i]),
    {
        infos.push(LineInfo::from(line));
    }
    Ok(infos)
}

/// Station name and the rail lines that it is on, for client-side filtering
#[derive(Clone, Debug, PartialEq, Eq)]
pub struct StationInfo {
    /// What the station is called.
    pub name: String,
    /// What the lines that stop there are called.
    pub lines: Vec<String>,
}

/// What a [StationInfo] says.
#[verifier::ext_equal]
pub struct StationText {
    /// What the station is called.
    pub name: Seq<char>,
    /// What the lines that stop there are called.
    pub lines: Seq<Seq<char>>,
}

impl View for StationInfo {
    type V = StationText;

    open spec fn view(&self) -> StationText {
        StationText {
            name: self.name@,
            lines: self.lines@.map_values(|line: String| line@),
        }
    }
}

/// A station and its lines as the database has them, described.
pub open spec fn described(
    station: stations::Model,
    lines: Seq<rail_lines::Model>,
) -> StationText {
    StationText {
        name: station.name@,
        lines: lines.map_values(|line: rail_lines::Model| line.name@),
    }
}

/// Describes a station by its name and the names of its lines.
pub fn station_info(station: stations::Model, lines: Vec<rail_lines::Model>) -> (info: StationInfo)
    ensures
        info@ == described(station, lines@),
        info.name@ == station.name@,
        info.lines@.len() == lines@.len(),
        forall|i: int|
            0 <= i < lines@.len() ==> (#[trigger] info.lines@[i])@ == lines@[i].name@,
{
    let ghost whole = lines@;
    let mut names: Vec<String> = Vec::new();
    for line in rows: lines
        invariant
            rows.seq() == whole,
            names@.len() == rows.index(),
            forall|i: int| 0 <= i < rows.index() ==> #[trigger] names@[i] == whole[i].name,
    {
        names.push(line.name);
    }
    let info = StationInfo { name: station.name, lines: names };
    assert(info@ =~= described(station, whole));
    info
}

/// No color part is nearer to a value than the one it is converted to; a value
/// that is a color part already stays what it is.
pub proof fn law_clamped_is_nearest(value: i16, part: u8)
    ensures
        if value >= clamped(value) {
            value - clamped(value)
        } else {
            clamped(value) - value
        } <= if value >= part {
            value - part
        } else {
            part - value
        },
        0 <= value <= 255 ==> clamped(value) == value,
{
}

/// A line is shown under its own name and in its own color; a part that is too
/// small or too large to be shown is shown as the least or the most.
pub proof fn law_line_is_shown_in_its_color(line: rail_lines::Model, part: u8)
    ensures
        shown(line).name == line.name,
        line.red == part ==> shown(line).red == part,
        line.green == part ==> shown(line).green == part,
        line.blue == part ==> shown(line).blue == part,
        line.red < 0 ==> shown(line).red == 0,
        line.green < 0 ==> shown(line).green == 0,
        line.blue < 0 ==> shown(line).blue == 0,
        line.red > 255 ==> shown(line).red == 255,
        line.green > 255 ==> shown(line).green == 255,
        line.blue > 255 ==> shown(line).blue == 255,
{
}

/// A station's description has its name and one name for every line that was
/// fetched, in the same order.
pub proof fn law_description_names_every_line(
    station: stations::Model,
    lines: Seq<rail_lines::Model>,
)
    ensures
        described(station, lines).name == station.name@,
        described(station, lines).lines.len() == lines.len(),
        forall|i: int|
            0 <= i < lines.len() ==> #[trigger] described(station, lines).lines[i]
                == lines[i].name@,
{
}

/// What a station's description says is what it holds.
pub proof fn law_description_says_what_it_holds(info: StationInfo)
    ensures
        info@.name == info.name@,
        info@.lines.len() == info.lines@.len(),
        forall|i: int|
            0 <= i < info.lines@.len() ==> #[trigger] info@.lines[i] == info.lines@[i]@,
{
}

/// A color part stays what it is, and what is out of range becomes the nearest.
pub proof fn law_conversion_keeps_color_parts(value: i16, part: u8)
    requires
        call_ensures(clamp_conversion, (value,), part),
    ensures
        0 <= value <= 255 ==> part == value,
        value < 0 ==> part == 0,
        value > 255 ==> part == 255,
{
}

/// The list of lines has every line that was fetched, in order, under its own
/// name and in its own color, as far as that can be shown; a refusal of the
/// database is handed on.
pub proof fn law_every_fetched_line_is_listed(
    fetched: Result<Vec<rail_lines::Model>, sea_orm::DbErr>,
    listed: Result<Vec<LineInfo>, Error>,
    i: int,
)
    requires
        call_ensures(get_lines, (fetched,), listed),
    ensures
        fetched matches Err(fault) ==> listed == Err::<Vec<LineInfo>, Error>(
            Error::DbError(fault),
        ),
        fetched matches Ok(lines) ==> {
            &&& listed is Ok
            &&& listed->Ok_0@.len() == lines@.len()
            &&& 0 <= i < lines@.len() ==> {
                let info = listed->Ok_0@[i];
                &&& info.name == lines@[i].name
                &&& 0 <= lines@[i].red <= 255 ==> info.red == lines@[i].red
                &&& 0 <= lines@[i].green <= 255 ==> info.green == lines@[i].green
                &&& 0 <= lines@[i].blue <= 255 ==> info.blue == lines@[i].blue
                &&& lines@[i].red < 0 ==> info.red == 0
                &&& lines@[i].green < 0 ==> info.green == 0
                &&& lines@[i].blue < 0 ==> info.blue == 0
                &&& lines@[i].red > 255 ==> info.red == 255
                &&& lines@[i].green > 255 ==> info.green == 255
                &&& lines@[i].blue > 255 ==> info.blue == 255
            }
        },
{
}

/// A station is described by its name and the name of every one of its lines.
pub proof fn law_station_is_described_by_every_line(
    station: stations::Model,
    lines: Vec<rail_lines::Model>,
    info: StationInfo,
)
    requires
        call_ensures(station_info, (station, lines), info),
    ensures
        info.name@ == station.name@,
        info.lines@.len() == lines@.len(),
        forall|i: int|
            0 <= i < lines@.len() ==> (#[trigger] info.lines@[i])@ == lines@[i].name@,
{
}

} // verus!
